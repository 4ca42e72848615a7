//! Opcode decode table for the 32-bit instruction set: a 4096-entry array
//! mapping a 12-bit dispatch key — bits 27..20 and 7..4 of the instruction —
//! to exactly one fully resolved handler. A key is decoded by rebuilding a
//! skeleton word from its bits and testing it against an ordered list of
//! (mask, pattern) rules; the first match wins, and the order is mandatory
//! because several instruction classes share prefix bits. Handlers carry
//! their boolean sub-variants resolved at build time.

use vstd::prelude::*;

verus! {

/// A fully resolved instruction handler, with every boolean sub-variant
/// fixed at table-build time.
#[derive(Clone, Copy, PartialEq, Eq, Structural, Debug)]
pub enum InstrKind {
    BranchAndExchange,
    /// a: accumulate, s: set flags.
    MulMula { a: bool, s: bool },
    /// u: signed, a: accumulate, s: set flags.
    MulLong { u: bool, a: bool, s: bool },
    /// b: byte granularity.
    SingleDataSwap { b: bool },
    /// p: pre-indexed, u: add offset, i: immediate offset, w: write-back,
    /// l: load, s: signed, h: halfword.
    HalfwordAndSignedDataTransfer { p: bool, u: bool, i: bool, w: bool, l: bool, s: bool, h: bool },
    /// i: immediate operand, p: saved status register, l: move to status.
    PsrTransfer { i: bool, p: bool, l: bool },
    /// i: immediate operand, s: set flags.
    DataProc { i: bool, s: bool },
    /// i: shifted-register offset, p: pre-indexed, u: add offset, b: byte,
    /// w: write-back, l: load.
    SingleDataTransfer { i: bool, p: bool, u: bool, b: bool, w: bool, l: bool },
    /// p: pre-offset, u: add offset, s: force user bank, w: write-back,
    /// l: load.
    BlockDataTransfer { p: bool, u: bool, s: bool, w: bool, l: bool },
    /// l: with link.
    BranchBranchWithLink { l: bool },
    SoftwareInterrupt,
    Coprocessor,
    Undefined,
}

/// The skeleton instruction word rebuilt from a 12-bit dispatch key: key
/// bits 4..11 become instruction bits 20..27, key bits 0..3 become
/// instruction bits 4..7.
pub open spec fn spec_skeleton(op: u32) -> u32 {
    ((op & 0xFF0) << 16) | ((op & 0xF) << 4)
}

pub open spec fn spec_bit(x: u32, n: u32) -> bool {
    x >> n & 1 != 0
}

pub fn bit_set(x: u32, n: u32) -> (r: bool)
    requires
        n < 32,
    ensures
        r == spec_bit(x, n),
{
    x >> n & 1 != 0
}

/// The decode rules in their mandatory precedence order, from the most
/// specific bit pattern down: anything falling through them all is the
/// architecturally undefined pattern.
pub open spec fn spec_decode(op: u32) -> InstrKind {
    let sk = spec_skeleton(op);
    if sk & 0b1111_1111_0000_0000_0000_1111_0000 == 0b0001_0010_0000_0000_0000_0001_0000 {
        InstrKind::BranchAndExchange
    } else if sk & 0b1111_1100_0000_0000_0000_1111_0000 == 0b0000_0000_0000_0000_0000_1001_0000 {
        InstrKind::MulMula { a: spec_bit(sk, 21), s: spec_bit(sk, 20) }
    } else if sk & 0b1111_1000_0000_0000_0000_1111_0000 == 0b0000_1000_0000_0000_0000_1001_0000 {
        InstrKind::MulLong { u: spec_bit(sk, 22), a: spec_bit(sk, 21), s: spec_bit(sk, 20) }
    } else if sk & 0b1111_1000_0000_0000_1111_1111_0000 == 0b0001_0000_0000_0000_0000_1001_0000 {
        InstrKind::SingleDataSwap { b: spec_bit(sk, 22) }
    } else if sk & 0b1110_0000_0000_0000_0000_1001_0000 == 0b0000_0000_0000_0000_0000_1001_0000 {
        InstrKind::HalfwordAndSignedDataTransfer {
            p: spec_bit(sk, 24),
            u: spec_bit(sk, 23),
            i: spec_bit(sk, 22),
            w: spec_bit(sk, 21),
            l: spec_bit(sk, 20),
            s: spec_bit(sk, 6),
            h: spec_bit(sk, 5),
        }
    } else if sk & 0b1101_1001_0000_0000_0000_0000_0000 == 0b0001_0000_0000_0000_0000_0000_0000 {
        InstrKind::PsrTransfer { i: spec_bit(sk, 25), p: spec_bit(sk, 22), l: spec_bit(sk, 21) }
    } else if sk & 0b1100_0000_0000_0000_0000_0000_0000 == 0b0000_0000_0000_0000_0000_0000_0000 {
        InstrKind::DataProc { i: spec_bit(sk, 25), s: spec_bit(sk, 20) }
    } else if sk & 0b1100_0000_0000_0000_0000_0000_0000 == 0b0100_0000_0000_0000_0000_0000_0000 {
        InstrKind::SingleDataTransfer {
            i: spec_bit(sk, 25),
            p: spec_bit(sk, 24),
            u: spec_bit(sk, 23),
            b: spec_bit(sk, 22),
            w: spec_bit(sk, 21),
            l: spec_bit(sk, 20),
        }
    } else if sk & 0b1110_0000_0000_0000_0000_0000_0000 == 0b1000_0000_0000_0000_0000_0000_0000 {
        InstrKind::BlockDataTransfer {
            p: spec_bit(sk, 24),
            u: spec_bit(sk, 23),
            s: spec_bit(sk, 22),
            w: spec_bit(sk, 21),
            l: spec_bit(sk, 20),
        }
    } else if sk & 0b1110_0000_0000_0000_0000_0000_0000 == 0b1010_0000_0000_0000_0000_0000_0000 {
        InstrKind::BranchBranchWithLink { l: spec_bit(sk, 24) }
    } else if sk & 0b1111_0000_0000_0000_0000_0000_0000 == 0b1111_0000_0000_0000_0000_0000_0000 {
        InstrKind::SoftwareInterrupt
    } else if sk & 0b1110_0000_0000_0000_0000_0000_0000 == 0b1100_0000_0000_0000_0000_0000_0000 {
        InstrKind::Coprocessor
    } else if sk & 0b1111_0000_0000_0000_0000_0000_0000 == 0b1110_0000_0000_0000_0000_0000_0000 {
        InstrKind::Coprocessor
    } else {
        InstrKind::Undefined
    }
}

/// Every key that falls through all the rules carries the architecturally
/// undefined pattern: bits 25..27 = 011 together with bit 4 = 1.
pub proof fn lemma_fallthrough_is_undefined(op: u32)
    by (bit_vector)
    requires
        op < 4096,
        ({
            let sk = ((op & 0xFF0) << 16) | ((op & 0xF) << 4);
            &&& sk & 0b1111_1111_0000_0000_0000_1111_0000 != 0b0001_0010_0000_0000_0000_0001_0000
            &&& sk & 0b1111_1100_0000_0000_0000_1111_0000 != 0b0000_0000_0000_0000_0000_1001_0000
            &&& sk & 0b1111_1000_0000_0000_0000_1111_0000 != 0b0000_1000_0000_0000_0000_1001_0000
            &&& sk & 0b1111_1000_0000_0000_1111_1111_0000 != 0b0001_0000_0000_0000_0000_1001_0000
            &&& sk & 0b1110_0000_0000_0000_0000_1001_0000 != 0b0000_0000_0000_0000_0000_1001_0000
            &&& sk & 0b1101_1001_0000_0000_0000_0000_0000 != 0b0001_0000_0000_0000_0000_0000_0000
            &&& sk & 0b1100_0000_0000_0000_0000_0000_0000 != 0b0000_0000_0000_0000_0000_0000_0000
            &&& sk & 0b1100_0000_0000_0000_0000_0000_0000 != 0b0100_0000_0000_0000_0000_0000_0000
            &&& sk & 0b1110_0000_0000_0000_0000_0000_0000 != 0b1000_0000_0000_0000_0000_0000_0000
            &&& sk & 0b1110_0000_0000_0000_0000_0000_0000 != 0b1010_0000_0000_0000_0000_0000_0000
            &&& sk & 0b1111_0000_0000_0000_0000_0000_0000 != 0b1111_0000_0000_0000_0000_0000_0000
            &&& sk & 0b1110_0000_0000_0000_0000_0000_0000 != 0b1100_0000_0000_0000_0000_0000_0000
            &&& sk & 0b1111_0000_0000_0000_0000_0000_0000 != 0b1110_0000_0000_0000_0000_0000_0000
        }),
    ensures
        (((op & 0xFF0) << 16) | ((op & 0xF) << 4)) & 0b1110_0000_0000_0000_0000_0001_0000
            == 0b0110_0000_0000_0000_0000_0001_0000,
{
}

/// Builds the decode table: entry `k` holds the handler that the precedence
/// rules select for key `k`. Built once and never mutated.
pub fn gen_lut() -> (lut: Vec<InstrKind>)
    ensures
        lut@.len() == 4096,
        forall|k: int| 0 <= k < 4096 ==> lut@[k] == spec_decode(k as u32),
{
    let mut lut: Vec<InstrKind> = Vec::new();
    let mut opcode: u32 = 0;
    while opcode < 4096
        invariant
            opcode <= 4096,
            lut@.len() == opcode,
            forall|k: int| 0 <= k < opcode ==> lut@[k] == spec_decode(k as u32),
        decreases 4096 - opcode,
    {
        // Key bits 4..11 are instruction bits 20..27; key bits 0..3 are
        // instruction bits 4..7.
        let skeleton: u32 = ((opcode & 0xFF0) << 16) | ((opcode & 0xF) << 4);
        let kind: InstrKind = if skeleton & 0b1111_1111_0000_0000_0000_1111_0000
            == 0b0001_0010_0000_0000_0000_0001_0000 {
            InstrKind::BranchAndExchange
        } else if skeleton & 0b1111_1100_0000_0000_0000_1111_0000
            == 0b0000_0000_0000_0000_0000_1001_0000 {
            InstrKind::MulMula { a: bit_set(skeleton, 21), s: bit_set(skeleton, 20) }
        } else if skeleton & 0b1111_1000_0000_0000_0000_1111_0000
            == 0b0000_1000_0000_0000_0000_1001_0000 {
            InstrKind::MulLong {
                u: bit_set(skeleton, 22),
                a: bit_set(skeleton, 21),
                s: bit_set(skeleton, 20),
            }
        } else if skeleton & 0b1111_1000_0000_0000_1111_1111_0000
            == 0b0001_0000_0000_0000_0000_1001_0000 {
            InstrKind::SingleDataSwap { b: bit_set(skeleton, 22) }
        } else if skeleton & 0b1110_0000_0000_0000_0000_1001_0000
            == 0b0000_0000_0000_0000_0000_1001_0000 {
            InstrKind::HalfwordAndSignedDataTransfer {
                p: bit_set(skeleton, 24),
                u: bit_set(skeleton, 23),
                i: bit_set(skeleton, 22),
                w: bit_set(skeleton, 21),
                l: bit_set(skeleton, 20),
                s: bit_set(skeleton, 6),
                h: bit_set(skeleton, 5),
            }
        } else if skeleton & 0b1101_1001_0000_0000_0000_0000_0000
            == 0b0001_0000_0000_0000_0000_0000_0000 {
            InstrKind::PsrTransfer {
                i: bit_set(skeleton, 25),
                p: bit_set(skeleton, 22),
                l: bit_set(skeleton, 21),
            }
        } else if skeleton & 0b1100_0000_0000_0000_0000_0000_0000
            == 0b0000_0000_0000_0000_0000_0000_0000 {
            InstrKind::DataProc { i: bit_set(skeleton, 25), s: bit_set(skeleton, 20) }
        } else if skeleton & 0b1100_0000_0000_0000_0000_0000_0000
            == 0b0100_0000_0000_0000_0000_0000_0000 {
            InstrKind::SingleDataTransfer {
                i: bit_set(skeleton, 25),
                p: bit_set(skeleton, 24),
                u: bit_set(skeleton, 23),
                b: bit_set(skeleton, 22),
                w: bit_set(skeleton, 21),
                l: bit_set(skeleton, 20),
            }
        } else if skeleton & 0b1110_0000_0000_0000_0000_0000_0000
            == 0b1000_0000_0000_0000_0000_0000_0000 {
            InstrKind::BlockDataTransfer {
                p: bit_set(skeleton, 24),
                u: bit_set(skeleton, 23),
                s: bit_set(skeleton, 22),
                w: bit_set(skeleton, 21),
                l: bit_set(skeleton, 20),
            }
        } else if skeleton & 0b1110_0000_0000_0000_0000_0000_0000
            == 0b1010_0000_0000_0000_0000_0000_0000 {
            InstrKind::BranchBranchWithLink { l: bit_set(skeleton, 24) }
        } else if skeleton & 0b1111_0000_0000_0000_0000_0000_0000
            == 0b1111_0000_0000_0000_0000_0000_0000 {
            InstrKind::SoftwareInterrupt
        } else if skeleton & 0b1110_0000_0000_0000_0000_0000_0000
            == 0b1100_0000_0000_0000_0000_0000_0000 {
            InstrKind::Coprocessor
        } else if skeleton & 0b1111_0000_0000_0000_0000_0000_0000
            == 0b1110_0000_0000_0000_0000_0000_0000 {
            InstrKind::Coprocessor
        } else {
            // The build is malformed unless what falls through is the known
            // undefined pattern.
            proof {
                lemma_fallthrough_is_undefined(opcode);
            }
            assert(skeleton & 0b1110_0000_0000_0000_0000_0001_0000
                == 0b0110_0000_0000_0000_0000_0001_0000);
            InstrKind::Undefined
        };
        lut.push(kind);
        opcode = opcode + 1;
    }
    lut
}

/// The dispatch key of a full instruction word: bits 27..20 and 7..4.
pub open spec fn spec_key_of(instr: u32) -> u32 {
    (instr >> 16 & 0xFF0) | (instr >> 4 & 0xF)
}

/// Decode completeness and consistency: every key selects exactly one
/// handler — the table entry equals `spec_decode`, a function of the key —
/// and the selecting rule's bit pattern holds of the skeleton rebuilt from
/// the key, so no key reaches a handler whose preconditions its bits
/// violate. What falls through every rule is exactly the undefined pattern.
pub proof fn lemma_decode_consistency(op: u32)
    requires
        op < 4096,
    ensures
        spec_decode(op) == InstrKind::BranchAndExchange ==> spec_skeleton(op)
            & 0b1111_1111_0000_0000_0000_1111_0000 == 0b0001_0010_0000_0000_0000_0001_0000,
        (spec_decode(op) matches InstrKind::MulMula { a, s }) ==> spec_skeleton(op)
            & 0b1111_1100_0000_0000_0000_1111_0000 == 0b0000_0000_0000_0000_0000_1001_0000 && (
        spec_decode(op) == InstrKind::MulMula {
            a: spec_bit(spec_skeleton(op), 21),
            s: spec_bit(spec_skeleton(op), 20),
        }),
        (spec_decode(op) matches InstrKind::MulLong { u, a, s }) ==> spec_skeleton(op)
            & 0b1111_1000_0000_0000_0000_1111_0000 == 0b0000_1000_0000_0000_0000_1001_0000,
        (spec_decode(op) matches InstrKind::SingleDataSwap { b }) ==> spec_skeleton(op)
            & 0b1111_1000_0000_0000_1111_1111_0000 == 0b0001_0000_0000_0000_0000_1001_0000,
        (spec_decode(op) matches InstrKind::HalfwordAndSignedDataTransfer { .. }) ==> spec_skeleton(
            op,
        ) & 0b1110_0000_0000_0000_0000_1001_0000 == 0b0000_0000_0000_0000_0000_1001_0000,
        (spec_decode(op) matches InstrKind::PsrTransfer { .. }) ==> spec_skeleton(op)
            & 0b1101_1001_0000_0000_0000_0000_0000 == 0b0001_0000_0000_0000_0000_0000_0000,
        (spec_decode(op) matches InstrKind::DataProc { .. }) ==> spec_skeleton(op)
            & 0b1100_0000_0000_0000_0000_0000_0000 == 0b0000_0000_0000_0000_0000_0000_0000,
        (spec_decode(op) matches InstrKind::SingleDataTransfer { .. }) ==> spec_skeleton(op)
            & 0b1100_0000_0000_0000_0000_0000_0000 == 0b0100_0000_0000_0000_0000_0000_0000,
        (spec_decode(op) matches InstrKind::BlockDataTransfer { .. }) ==> spec_skeleton(op)
            & 0b1110_0000_0000_0000_0000_0000_0000 == 0b1000_0000_0000_0000_0000_0000_0000,
        (spec_decode(op) matches InstrKind::BranchBranchWithLink { .. }) ==> spec_skeleton(op)
            & 0b1110_0000_0000_0000_0000_0000_0000 == 0b1010_0000_0000_0000_0000_0000_0000,
        spec_decode(op) == InstrKind::SoftwareInterrupt ==> spec_skeleton(op)
            & 0b1111_0000_0000_0000_0000_0000_0000 == 0b1111_0000_0000_0000_0000_0000_0000,
        spec_decode(op) == InstrKind::Undefined ==> spec_skeleton(op)
            & 0b1110_0000_0000_0000_0000_0001_0000 == 0b0110_0000_0000_0000_0000_0001_0000,
{
    if spec_decode(op) == InstrKind::Undefined {
        lemma_fallthrough_is_undefined(op);
    }
}

} // verus!
