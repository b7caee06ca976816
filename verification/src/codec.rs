//! The 48-bit instruction word: bits 0 to 4 hold the opcode, bits 5 to 7
//! the function selector, and the rest is format-specific. The layout is
//! stated arithmetically (a shift by `k` is a multiplication by `2^k`),
//! and a decoder inverts it exactly.
use vstd::prelude::*;

use crate::resolved;

verus! {

use vstd::arithmetic::div_mod::{
    lemma_fundamental_div_mod,
    lemma_mod_multiples_vanish,
    lemma_small_mod,
};

/// The low 32 two's-complement bits of a signed offset, as a word field.
pub open spec fn bits32_of_i32(n: i32) -> u64 {
    (((n as int) % 0x100000000) as u64)
}

/// The low 25 two's-complement bits of a signed displacement.
pub open spec fn bits25_of_i32(n: i32) -> u64 {
    (((n as int) % 0x2000000) as u64)
}

/// An R-format word: opcode, function, rd at bit 8, rs1 at bit 13, rs2
/// at bit 18, bits 23 to 47 zero. Register fields wear their slot's
/// width.
pub open spec fn word_r(op: u64, func: u64, rd: u8, rs1: u8, rs2: u8) -> u64 {
    (op + func * 0x20 + ((rd as u64) % 32) * 0x100 + ((rs1 as u64) % 32) * 0x2000 + ((
    rs2 as u64) % 32) * 0x40000) as u64
}

/// An I/load/store/jump-format word: a 5-bit primary register at bit 8,
/// a 3-bit secondary register at bit 13, a 32-bit immediate at bit 16.
pub open spec fn word_i(op: u64, func: u64, p: u8, s: u8, imm: u64) -> u64 {
    (op + func * 0x20 + ((p as u64) % 32) * 0x100 + ((s as u64) % 8) * 0x2000 + (imm
        % 0x100000000) * 0x10000) as u64
}

/// A B-format word: rd, rs1, rs2 as in R format, and a 25-bit signed
/// displacement at bit 23.
pub open spec fn word_b(op: u64, func: u64, rd: u8, rs1: u8, rs2: u8, d25: u64) -> u64 {
    (op + func * 0x20 + ((rd as u64) % 32) * 0x100 + ((rs1 as u64) % 32) * 0x2000 + ((
    rs2 as u64) % 32) * 0x40000 + (d25 % 0x2000000) * 0x800000) as u64
}

/// The 48-bit word of one resolved instruction, per the format table.
pub open spec fn inst_word(inst: resolved::Inst) -> u64 {
    match inst {
        resolved::Inst::Add { rd, rs1, rs2 } => word_r(1, 1, rd, rs1, rs2),
        resolved::Inst::Sub { rd, rs1, rs2 } => word_r(1, 2, rd, rs1, rs2),
        resolved::Inst::And { rd, rs1, rs2 } => word_r(7, 0, rd, rs1, rs2),
        resolved::Inst::Or { rd, rs1, rs2 } => word_r(7, 1, rd, rs1, rs2),
        resolved::Inst::Xor { rd, rs1, rs2 } => word_r(7, 2, rd, rs1, rs2),
        resolved::Inst::Srl { rd, rs1, rs2 } => word_r(7, 3, rd, rs1, rs2),
        resolved::Inst::Sra { rd, rs1, rs2 } => word_r(7, 4, rd, rs1, rs2),
        resolved::Inst::Sll { rd, rs1, rs2 } => word_r(7, 5, rd, rs1, rs2),
        resolved::Inst::Addi { rd, rs1, imm } => word_i(2, 1, rd, rs1, imm as u64),
        resolved::Inst::Subi { rd, rs1, imm } => word_i(2, 2, rd, rs1, imm as u64),
        resolved::Inst::Andi { rd, rs1, imm } => word_i(8, 0, rd, rs1, imm as u64),
        resolved::Inst::Ori { rd, rs1, imm } => word_i(8, 1, rd, rs1, imm as u64),
        resolved::Inst::Xori { rd, rs1, imm } => word_i(8, 2, rd, rs1, imm as u64),
        resolved::Inst::Srli { rd, rs1, imm } => word_i(8, 3, rd, rs1, imm as u64),
        resolved::Inst::Srai { rd, rs1, imm } => word_i(8, 4, rd, rs1, imm as u64),
        resolved::Inst::Slli { rd, rs1, imm } => word_i(8, 5, rd, rs1, imm as u64),
        resolved::Inst::Beq { rd, rs1, rs2, imm } => word_b(3, 0, rd, rs1, rs2, bits25_of_i32(imm)),
        resolved::Inst::Bne { rd, rs1, rs2, imm } => word_b(3, 1, rd, rs1, rs2, bits25_of_i32(imm)),
        resolved::Inst::Blt { rd, rs1, rs2, imm } => word_b(3, 2, rd, rs1, rs2, bits25_of_i32(imm)),
        resolved::Inst::Ble { rd, rs1, rs2, imm } => word_b(3, 3, rd, rs1, rs2, bits25_of_i32(imm)),
        resolved::Inst::Jal { rd, rs1, imm } => word_i(3, 4, rd, rs1, bits32_of_i32(imm)),
        resolved::Inst::Lw { rd, rs1, imm } => word_i(4, 0, rd, rs1, bits32_of_i32(imm)),
        resolved::Inst::Lh { rd, rs1, imm } => word_i(4, 1, rd, rs1, bits32_of_i32(imm)),
        resolved::Inst::Lb { rd, rs1, imm } => word_i(4, 2, rd, rs1, bits32_of_i32(imm)),
        resolved::Inst::Lhu { rd, rs1, imm } => word_i(4, 3, rd, rs1, bits32_of_i32(imm)),
        resolved::Inst::Lbu { rd, rs1, imm } => word_i(4, 4, rd, rs1, bits32_of_i32(imm)),
        resolved::Inst::In { rd, rs1, imm } => word_i(6, 0, rd, rs1, bits32_of_i32(imm)),
        resolved::Inst::Sw { rs1, rs2, imm } => word_i(5, 0, rs2, rs1, bits32_of_i32(imm)),
        resolved::Inst::Sh { rs1, rs2, imm } => word_i(5, 1, rs2, rs1, bits32_of_i32(imm)),
        resolved::Inst::Sb { rs1, rs2, imm } => word_i(5, 2, rs2, rs1, bits32_of_i32(imm)),
        resolved::Inst::Isb { rs1, rs2, imm } => word_i(5, 3, rs2, rs1, bits32_of_i32(imm)),
        resolved::Inst::Out { rs1, rs2, imm } => word_i(6, 1, rs2, rs1, bits32_of_i32(imm)),
    }
}

/// Every instruction word fits 48 bits.
pub proof fn lemma_word_fits(inst: resolved::Inst)
    ensures
        inst_word(inst) < 0x1000000000000,
{
}

fn low32(n: i32) -> (r: u64)
    ensures
        r == bits32_of_i32(n),
{
    if n >= 0 {
        n as u64
    } else {
        ((n as i64) + 0x100000000) as u64
    }
}

fn low25(n: i32) -> (r: u64)
    ensures
        r == bits25_of_i32(n),
    decreases (if n < 0 {
        1int
    } else {
        0int
    }),
{
    if n >= 0 {
        (n as u64) % 0x2000000
    } else {
        let k: i64 = -(n as i64);
        let m: i64 = k % 0x2000000;
        proof {
            let dd = 0x2000000int;
            lemma_fundamental_div_mod(k as int, dd);
            let q = (k as int) / dd;
            let r = (k as int) % dd;
            assert(n as int == dd * (-q - 1) + (dd - r)) by {
                assert(k as int == dd * q + r);
            }
            if r == 0 {
                assert(n as int == dd * (-q) + 0) by {
                    assert(k as int == dd * q);
                }
                lemma_mod_multiples_vanish(-q, 0, dd);
                lemma_small_mod(0, dd as nat);
            } else {
                lemma_mod_multiples_vanish(-q - 1, dd - r, dd);
                lemma_small_mod((dd - r) as nat, dd as nat);
            }
        }
        if m == 0 {
            0
        } else {
            (0x2000000 - m) as u64
        }
    }
}

/// Packs one resolved instruction into its 48-bit word.
pub fn encode_word(inst: &resolved::Inst) -> (w: u64)
    ensures
        w == inst_word(*inst),
        w < 0x1000000000000,
{
    match *inst {
        resolved::Inst::Add { rd, rs1, rs2 } => pack_r(1, 1, rd, rs1, rs2),
        resolved::Inst::Sub { rd, rs1, rs2 } => pack_r(1, 2, rd, rs1, rs2),
        resolved::Inst::And { rd, rs1, rs2 } => pack_r(7, 0, rd, rs1, rs2),
        resolved::Inst::Or { rd, rs1, rs2 } => pack_r(7, 1, rd, rs1, rs2),
        resolved::Inst::Xor { rd, rs1, rs2 } => pack_r(7, 2, rd, rs1, rs2),
        resolved::Inst::Srl { rd, rs1, rs2 } => pack_r(7, 3, rd, rs1, rs2),
        resolved::Inst::Sra { rd, rs1, rs2 } => pack_r(7, 4, rd, rs1, rs2),
        resolved::Inst::Sll { rd, rs1, rs2 } => pack_r(7, 5, rd, rs1, rs2),
        resolved::Inst::Addi { rd, rs1, imm } => pack_i(2, 1, rd, rs1, imm as u64),
        resolved::Inst::Subi { rd, rs1, imm } => pack_i(2, 2, rd, rs1, imm as u64),
        resolved::Inst::Andi { rd, rs1, imm } => pack_i(8, 0, rd, rs1, imm as u64),
        resolved::Inst::Ori { rd, rs1, imm } => pack_i(8, 1, rd, rs1, imm as u64),
        resolved::Inst::Xori { rd, rs1, imm } => pack_i(8, 2, rd, rs1, imm as u64),
        resolved::Inst::Srli { rd, rs1, imm } => pack_i(8, 3, rd, rs1, imm as u64),
        resolved::Inst::Srai { rd, rs1, imm } => pack_i(8, 4, rd, rs1, imm as u64),
        resolved::Inst::Slli { rd, rs1, imm } => pack_i(8, 5, rd, rs1, imm as u64),
        resolved::Inst::Beq { rd, rs1, rs2, imm } => pack_b(3, 0, rd, rs1, rs2, low25(imm)),
        resolved::Inst::Bne { rd, rs1, rs2, imm } => pack_b(3, 1, rd, rs1, rs2, low25(imm)),
        resolved::Inst::Blt { rd, rs1, rs2, imm } => pack_b(3, 2, rd, rs1, rs2, low25(imm)),
        resolved::Inst::Ble { rd, rs1, rs2, imm } => pack_b(3, 3, rd, rs1, rs2, low25(imm)),
        resolved::Inst::Jal { rd, rs1, imm } => pack_i(3, 4, rd, rs1, low32(imm)),
        resolved::Inst::Lw { rd, rs1, imm } => pack_i(4, 0, rd, rs1, low32(imm)),
        resolved::Inst::Lh { rd, rs1, imm } => pack_i(4, 1, rd, rs1, low32(imm)),
        resolved::Inst::Lb { rd, rs1, imm } => pack_i(4, 2, rd, rs1, low32(imm)),
        resolved::Inst::Lhu { rd, rs1, imm } => pack_i(4, 3, rd, rs1, low32(imm)),
        resolved::Inst::Lbu { rd, rs1, imm } => pack_i(4, 4, rd, rs1, low32(imm)),
        resolved::Inst::In { rd, rs1, imm } => pack_i(6, 0, rd, rs1, low32(imm)),
        resolved::Inst::Sw { rs1, rs2, imm } => pack_i(5, 0, rs2, rs1, low32(imm)),
        resolved::Inst::Sh { rs1, rs2, imm } => pack_i(5, 1, rs2, rs1, low32(imm)),
        resolved::Inst::Sb { rs1, rs2, imm } => pack_i(5, 2, rs2, rs1, low32(imm)),
        resolved::Inst::Isb { rs1, rs2, imm } => pack_i(5, 3, rs2, rs1, low32(imm)),
        resolved::Inst::Out { rs1, rs2, imm } => pack_i(6, 1, rs2, rs1, low32(imm)),
    }
}

fn pack_r(op: u64, func: u64, rd: u8, rs1: u8, rs2: u8) -> (w: u64)
    requires
        op < 32,
        func < 8,
    ensures
        w == word_r(op, func, rd, rs1, rs2),
{
    op + func * 0x20 + (((rd as u64) % 32) * 0x100) + (((rs1 as u64) % 32) * 0x2000) + (((
    rs2 as u64) % 32) * 0x40000)
}

fn pack_i(op: u64, func: u64, p: u8, s: u8, imm: u64) -> (w: u64)
    requires
        op < 32,
        func < 8,
        imm < 0x100000000,
    ensures
        w == word_i(op, func, p, s, imm),
{
    op + func * 0x20 + (((p as u64) % 32) * 0x100) + (((s as u64) % 8) * 0x2000) + (imm * 0x10000)
}

fn pack_b(op: u64, func: u64, rd: u8, rs1: u8, rs2: u8, d25: u64) -> (w: u64)
    requires
        op < 32,
        func < 8,
        d25 < 0x2000000,
    ensures
        w == word_b(op, func, rd, rs1, rs2, d25),
{
    op + func * 0x20 + (((rd as u64) % 32) * 0x100) + (((rs1 as u64) % 32) * 0x2000) + (((
    rs2 as u64) % 32) * 0x40000) + (d25 * 0x800000)
}

/// The bit-field extraction lemmas: dividing by a power of two reads a
/// field back out of a packed word.
proof fn lemma_fields_r(op: u64, func: u64, a: u64, b: u64, c: u64)
    by (bit_vector)
    requires
        op < 32,
        func < 8,
        a < 32,
        b < 32,
        c < 32,
    ensures
        ({
            let w = (op + func * 0x20 + a * 0x100 + b * 0x2000 + c * 0x40000) as u64;
            &&& w % 0x20 == op
            &&& (w / 0x20) % 8 == func
            &&& (w / 0x100) % 32 == a
            &&& (w / 0x2000) % 32 == b
            &&& (w / 0x40000) % 32 == c
            &&& w / 0x800000 == 0
            &&& w < 0x1000000000000
        }),
{
}

proof fn lemma_fields_i(op: u64, func: u64, p: u64, s: u64, imm: u64)
    by (bit_vector)
    requires
        op < 32,
        func < 8,
        p < 32,
        s < 8,
        imm < 0x100000000,
    ensures
        ({
            let w = (op + func * 0x20 + p * 0x100 + s * 0x2000 + imm * 0x10000) as u64;
            &&& w % 0x20 == op
            &&& (w / 0x20) % 8 == func
            &&& (w / 0x100) % 32 == p
            &&& (w / 0x2000) % 8 == s
            &&& (w / 0x10000) % 0x100000000 == imm
            &&& w < 0x1000000000000
        }),
{
}

proof fn lemma_fields_b(op: u64, func: u64, a: u64, b: u64, c: u64, d: u64)
    by (bit_vector)
    requires
        op < 32,
        func < 8,
        a < 32,
        b < 32,
        c < 32,
        d < 0x2000000,
    ensures
        ({
            let w = (op + func * 0x20 + a * 0x100 + b * 0x2000 + c * 0x40000 + d * 0x800000) as u64;
            &&& w % 0x20 == op
            &&& (w / 0x20) % 8 == func
            &&& (w / 0x100) % 32 == a
            &&& (w / 0x2000) % 32 == b
            &&& (w / 0x40000) % 32 == c
            &&& (w / 0x800000) % 0x2000000 == d
            &&& w < 0x1000000000000
        }),
{
}

/// The inverse of the word layout: reads the opcode and function
/// selector, then the fields of that format; `None` for a word that no
/// instruction encodes.
#[verifier::opaque]
pub open spec fn decode_word_spec(w: u64) -> Option<resolved::Inst> {
    if w >= 0x1000000000000 {
        None
    } else {
        let op = w % 0x20;
        let func = (w / 0x20) % 8;
        let rd = ((w / 0x100) % 32) as u8;
        let s5 = ((w / 0x2000) % 32) as u8;
        let s3 = ((w / 0x2000) % 8) as u8;
        let rs2 = ((w / 0x40000) % 32) as u8;
        let imm32u = (w / 0x10000) % 0x100000000;
        let immu = imm32u as u32;
        let imms: i32 = if imm32u >= 0x80000000 {
            (imm32u - 0x100000000) as i32
        } else {
            imm32u as i32
        };
        let d25u = (w / 0x800000) % 0x2000000;
        let d25: i32 = if d25u >= 0x1000000 {
            (d25u - 0x2000000) as i32
        } else {
            d25u as i32
        };
        let rfree = w / 0x800000 == 0;
        if op == 1 && rfree && func == 1 {
            Some(resolved::Inst::Add { rd, rs1: s5, rs2 })
        } else if op == 1 && rfree && func == 2 {
            Some(resolved::Inst::Sub { rd, rs1: s5, rs2 })
        } else if op == 7 && rfree && func == 0 {
            Some(resolved::Inst::And { rd, rs1: s5, rs2 })
        } else if op == 7 && rfree && func == 1 {
            Some(resolved::Inst::Or { rd, rs1: s5, rs2 })
        } else if op == 7 && rfree && func == 2 {
            Some(resolved::Inst::Xor { rd, rs1: s5, rs2 })
        } else if op == 7 && rfree && func == 3 {
            Some(resolved::Inst::Srl { rd, rs1: s5, rs2 })
        } else if op == 7 && rfree && func == 4 {
            Some(resolved::Inst::Sra { rd, rs1: s5, rs2 })
        } else if op == 7 && rfree && func == 5 {
            Some(resolved::Inst::Sll { rd, rs1: s5, rs2 })
        } else if op == 2 && func == 1 {
            Some(resolved::Inst::Addi { rd, rs1: s3, imm: immu })
        } else if op == 2 && func == 2 {
            Some(resolved::Inst::Subi { rd, rs1: s3, imm: immu })
        } else if op == 8 && func == 0 {
            Some(resolved::Inst::Andi { rd, rs1: s3, imm: immu })
        } else if op == 8 && func == 1 {
            Some(resolved::Inst::Ori { rd, rs1: s3, imm: immu })
        } else if op == 8 && func == 2 {
            Some(resolved::Inst::Xori { rd, rs1: s3, imm: immu })
        } else if op == 8 && func == 3 {
            Some(resolved::Inst::Srli { rd, rs1: s3, imm: immu })
        } else if op == 8 && func == 4 {
            Some(resolved::Inst::Srai { rd, rs1: s3, imm: immu })
        } else if op == 8 && func == 5 {
            Some(resolved::Inst::Slli { rd, rs1: s3, imm: immu })
        } else if op == 3 && func == 0 {
            Some(resolved::Inst::Beq { rd, rs1: s5, rs2, imm: d25 })
        } else if op == 3 && func == 1 {
            Some(resolved::Inst::Bne { rd, rs1: s5, rs2, imm: d25 })
        } else if op == 3 && func == 2 {
            Some(resolved::Inst::Blt { rd, rs1: s5, rs2, imm: d25 })
        } else if op == 3 && func == 3 {
            Some(resolved::Inst::Ble { rd, rs1: s5, rs2, imm: d25 })
        } else if op == 3 && func == 4 {
            Some(resolved::Inst::Jal { rd, rs1: s3, imm: imms })
        } else if op == 4 && func == 0 {
            Some(resolved::Inst::Lw { rd, rs1: s3, imm: imms })
        } else if op == 4 && func == 1 {
            Some(resolved::Inst::Lh { rd, rs1: s3, imm: imms })
        } else if op == 4 && func == 2 {
            Some(resolved::Inst::Lb { rd, rs1: s3, imm: imms })
        } else if op == 4 && func == 3 {
            Some(resolved::Inst::Lhu { rd, rs1: s3, imm: imms })
        } else if op == 4 && func == 4 {
            Some(resolved::Inst::Lbu { rd, rs1: s3, imm: imms })
        } else if op == 6 && func == 0 {
            Some(resolved::Inst::In { rd, rs1: s3, imm: imms })
        } else if op == 5 && func == 0 {
            Some(resolved::Inst::Sw { rs1: s3, rs2: rd, imm: imms })
        } else if op == 5 && func == 1 {
            Some(resolved::Inst::Sh { rs1: s3, rs2: rd, imm: imms })
        } else if op == 5 && func == 2 {
            Some(resolved::Inst::Sb { rs1: s3, rs2: rd, imm: imms })
        } else if op == 5 && func == 3 {
            Some(resolved::Inst::Isb { rs1: s3, rs2: rd, imm: imms })
        } else if op == 6 && func == 1 {
            Some(resolved::Inst::Out { rs1: s3, rs2: rd, imm: imms })
        } else {
            None
        }
    }
}

/// Unpacks a 48-bit word back into the instruction it encodes, if any.
#[verifier::rlimit(60)]
pub fn decode_word(w: u64) -> (r: Option<resolved::Inst>)
    ensures
        r == decode_word_spec(w),
{
    proof {
        reveal(decode_word_spec);
    }
    if w >= 0x1000000000000 {
        return None;
    }
    let op = w % 0x20;
    let func = (w / 0x20) % 8;
    let rd = ((w / 0x100) % 32) as u8;
    let s5 = ((w / 0x2000) % 32) as u8;
    let s3 = ((w / 0x2000) % 8) as u8;
    let rs2 = ((w / 0x40000) % 32) as u8;
    let imm32u = (w / 0x10000) % 0x100000000;
    let immu = imm32u as u32;
    let imms: i32 = if imm32u >= 0x80000000 {
        ((imm32u as i64) - 0x100000000) as i32
    } else {
        imm32u as i32
    };
    let d25u = (w / 0x800000) % 0x2000000;
    let d25: i32 = if d25u >= 0x1000000 {
        ((d25u as i64) - 0x2000000) as i32
    } else {
        d25u as i32
    };
    let rfree = w / 0x800000 == 0;
    if op == 1 && rfree && func == 1 {
        Some(resolved::Inst::Add { rd, rs1: s5, rs2 })
    } else if op == 1 && rfree && func == 2 {
        Some(resolved::Inst::Sub { rd, rs1: s5, rs2 })
    } else if op == 7 && rfree && func == 0 {
        Some(resolved::Inst::And { rd, rs1: s5, rs2 })
    } else if op == 7 && rfree && func == 1 {
        Some(resolved::Inst::Or { rd, rs1: s5, rs2 })
    } else if op == 7 && rfree && func == 2 {
        Some(resolved::Inst::Xor { rd, rs1: s5, rs2 })
    } else if op == 7 && rfree && func == 3 {
        Some(resolved::Inst::Srl { rd, rs1: s5, rs2 })
    } else if op == 7 && rfree && func == 4 {
        Some(resolved::Inst::Sra { rd, rs1: s5, rs2 })
    } else if op == 7 && rfree && func == 5 {
        Some(resolved::Inst::Sll { rd, rs1: s5, rs2 })
    } else if op == 2 && func == 1 {
        Some(resolved::Inst::Addi { rd, rs1: s3, imm: immu })
    } else if op == 2 && func == 2 {
        Some(resolved::Inst::Subi { rd, rs1: s3, imm: immu })
    } else if op == 8 && func == 0 {
        Some(resolved::Inst::Andi { rd, rs1: s3, imm: immu })
    } else if op == 8 && func == 1 {
        Some(resolved::Inst::Ori { rd, rs1: s3, imm: immu })
    } else if op == 8 && func == 2 {
        Some(resolved::Inst::Xori { rd, rs1: s3, imm: immu })
    } else if op == 8 && func == 3 {
        Some(resolved::Inst::Srli { rd, rs1: s3, imm: immu })
    } else if op == 8 && func == 4 {
        Some(resolved::Inst::Srai { rd, rs1: s3, imm: immu })
    } else if op == 8 && func == 5 {
        Some(resolved::Inst::Slli { rd, rs1: s3, imm: immu })
    } else if op == 3 && func == 0 {
        Some(resolved::Inst::Beq { rd, rs1: s5, rs2, imm: d25 })
    } else if op == 3 && func == 1 {
        Some(resolved::Inst::Bne { rd, rs1: s5, rs2, imm: d25 })
    } else if op == 3 && func == 2 {
        Some(resolved::Inst::Blt { rd, rs1: s5, rs2, imm: d25 })
    } else if op == 3 && func == 3 {
        Some(resolved::Inst::Ble { rd, rs1: s5, rs2, imm: d25 })
    } else if op == 3 && func == 4 {
        Some(resolved::Inst::Jal { rd, rs1: s3, imm: imms })
    } else if op == 4 && func == 0 {
        Some(resolved::Inst::Lw { rd, rs1: s3, imm: imms })
    } else if op == 4 && func == 1 {
        Some(resolved::Inst::Lh { rd, rs1: s3, imm: imms })
    } else if op == 4 && func == 2 {
        Some(resolved::Inst::Lb { rd, rs1: s3, imm: imms })
    } else if op == 4 && func == 3 {
        Some(resolved::Inst::Lhu { rd, rs1: s3, imm: imms })
    } else if op == 4 && func == 4 {
        Some(resolved::Inst::Lbu { rd, rs1: s3, imm: imms })
    } else if op == 6 && func == 0 {
        Some(resolved::Inst::In { rd, rs1: s3, imm: imms })
    } else if op == 5 && func == 0 {
        Some(resolved::Inst::Sw { rs1: s3, rs2: rd, imm: imms })
    } else if op == 5 && func == 1 {
        Some(resolved::Inst::Sh { rs1: s3, rs2: rd, imm: imms })
    } else if op == 5 && func == 2 {
        Some(resolved::Inst::Sb { rs1: s3, rs2: rd, imm: imms })
    } else if op == 5 && func == 3 {
        Some(resolved::Inst::Isb { rs1: s3, rs2: rd, imm: imms })
    } else if op == 6 && func == 1 {
        Some(resolved::Inst::Out { rs1: s3, rs2: rd, imm: imms })
    } else {
        None
    }
}

/// Well-formedness of a resolved instruction: every register field fits
/// the bit width of its slot, and a branch displacement fits the signed
/// 25-bit field. Resolution only produces such instructions from
/// validated programs.
pub open spec fn inst_wf(inst: resolved::Inst) -> bool {
    match inst {
        resolved::Inst::Add { rd, rs1, rs2 } => rd < 32 && rs1 < 32 && rs2 < 32,
        resolved::Inst::Sub { rd, rs1, rs2 } => rd < 32 && rs1 < 32 && rs2 < 32,
        resolved::Inst::And { rd, rs1, rs2 } => rd < 32 && rs1 < 32 && rs2 < 32,
        resolved::Inst::Or { rd, rs1, rs2 } => rd < 32 && rs1 < 32 && rs2 < 32,
        resolved::Inst::Xor { rd, rs1, rs2 } => rd < 32 && rs1 < 32 && rs2 < 32,
        resolved::Inst::Srl { rd, rs1, rs2 } => rd < 32 && rs1 < 32 && rs2 < 32,
        resolved::Inst::Sra { rd, rs1, rs2 } => rd < 32 && rs1 < 32 && rs2 < 32,
        resolved::Inst::Sll { rd, rs1, rs2 } => rd < 32 && rs1 < 32 && rs2 < 32,
        resolved::Inst::Addi { rd, rs1, .. } => rd < 32 && rs1 < 8,
        resolved::Inst::Subi { rd, rs1, .. } => rd < 32 && rs1 < 8,
        resolved::Inst::Andi { rd, rs1, .. } => rd < 32 && rs1 < 8,
        resolved::Inst::Ori { rd, rs1, .. } => rd < 32 && rs1 < 8,
        resolved::Inst::Xori { rd, rs1, .. } => rd < 32 && rs1 < 8,
        resolved::Inst::Srli { rd, rs1, .. } => rd < 32 && rs1 < 8,
        resolved::Inst::Srai { rd, rs1, .. } => rd < 32 && rs1 < 8,
        resolved::Inst::Slli { rd, rs1, .. } => rd < 32 && rs1 < 8,
        resolved::Inst::Beq { rd, rs1, rs2, imm } => rd < 32 && rs1 < 32 && rs2 < 32 && -0x1000000 <= imm <= 0xffffff,
        resolved::Inst::Bne { rd, rs1, rs2, imm } => rd < 32 && rs1 < 32 && rs2 < 32 && -0x1000000 <= imm <= 0xffffff,
        resolved::Inst::Blt { rd, rs1, rs2, imm } => rd < 32 && rs1 < 32 && rs2 < 32 && -0x1000000 <= imm <= 0xffffff,
        resolved::Inst::Ble { rd, rs1, rs2, imm } => rd < 32 && rs1 < 32 && rs2 < 32 && -0x1000000 <= imm <= 0xffffff,
        resolved::Inst::Jal { rd, rs1, .. } => rd < 32 && rs1 < 8,
        resolved::Inst::Lw { rd, rs1, .. } => rd < 32 && rs1 < 8,
        resolved::Inst::Lh { rd, rs1, .. } => rd < 32 && rs1 < 8,
        resolved::Inst::Lb { rd, rs1, .. } => rd < 32 && rs1 < 8,
        resolved::Inst::Lhu { rd, rs1, .. } => rd < 32 && rs1 < 8,
        resolved::Inst::Lbu { rd, rs1, .. } => rd < 32 && rs1 < 8,
        resolved::Inst::In { rd, rs1, .. } => rd < 32 && rs1 < 8,
        resolved::Inst::Sw { rs1, rs2, .. } => rs1 < 8 && rs2 < 32,
        resolved::Inst::Sh { rs1, rs2, .. } => rs1 < 8 && rs2 < 32,
        resolved::Inst::Sb { rs1, rs2, .. } => rs1 < 8 && rs2 < 32,
        resolved::Inst::Out { rs1, rs2, .. } => rs1 < 8 && rs2 < 32,
        resolved::Inst::Isb { rs1, rs2, .. } => rs1 < 8 && rs2 < 32,
    }
}

#[verifier::spinoff_prover]
proof fn rt_add(rd: u8, rs1: u8, rs2: u8)
    requires
        rd < 32,
        rs1 < 32,
        rs2 < 32,
    ensures
        decode_word_spec(word_r(1, 1, rd, rs1, rs2)) == Some(
            resolved::Inst::Add { rd, rs1, rs2 },
        ),
{
    reveal(decode_word_spec);
    lemma_fields_r(1, 1, rd as u64, rs1 as u64, rs2 as u64);
}

#[verifier::spinoff_prover]
proof fn rt_sub(rd: u8, rs1: u8, rs2: u8)
    requires
        rd < 32,
        rs1 < 32,
        rs2 < 32,
    ensures
        decode_word_spec(word_r(1, 2, rd, rs1, rs2)) == Some(
            resolved::Inst::Sub { rd, rs1, rs2 },
        ),
{
    reveal(decode_word_spec);
    lemma_fields_r(1, 2, rd as u64, rs1 as u64, rs2 as u64);
}

#[verifier::spinoff_prover]
proof fn rt_and(rd: u8, rs1: u8, rs2: u8)
    requires
        rd < 32,
        rs1 < 32,
        rs2 < 32,
    ensures
        decode_word_spec(word_r(7, 0, rd, rs1, rs2)) == Some(
            resolved::Inst::And { rd, rs1, rs2 },
        ),
{
    reveal(decode_word_spec);
    lemma_fields_r(7, 0, rd as u64, rs1 as u64, rs2 as u64);
}

#[verifier::spinoff_prover]
proof fn rt_or(rd: u8, rs1: u8, rs2: u8)
    requires
        rd < 32,
        rs1 < 32,
        rs2 < 32,
    ensures
        decode_word_spec(word_r(7, 1, rd, rs1, rs2)) == Some(
            resolved::Inst::Or { rd, rs1, rs2 },
        ),
{
    reveal(decode_word_spec);
    lemma_fields_r(7, 1, rd as u64, rs1 as u64, rs2 as u64);
}

#[verifier::spinoff_prover]
proof fn rt_xor(rd: u8, rs1: u8, rs2: u8)
    requires
        rd < 32,
        rs1 < 32,
        rs2 < 32,
    ensures
        decode_word_spec(word_r(7, 2, rd, rs1, rs2)) == Some(
            resolved::Inst::Xor { rd, rs1, rs2 },
        ),
{
    reveal(decode_word_spec);
    lemma_fields_r(7, 2, rd as u64, rs1 as u64, rs2 as u64);
}

#[verifier::spinoff_prover]
proof fn rt_srl(rd: u8, rs1: u8, rs2: u8)
    requires
        rd < 32,
        rs1 < 32,
        rs2 < 32,
    ensures
        decode_word_spec(word_r(7, 3, rd, rs1, rs2)) == Some(
            resolved::Inst::Srl { rd, rs1, rs2 },
        ),
{
    reveal(decode_word_spec);
    lemma_fields_r(7, 3, rd as u64, rs1 as u64, rs2 as u64);
}

#[verifier::spinoff_prover]
proof fn rt_sra(rd: u8, rs1: u8, rs2: u8)
    requires
        rd < 32,
        rs1 < 32,
        rs2 < 32,
    ensures
        decode_word_spec(word_r(7, 4, rd, rs1, rs2)) == Some(
            resolved::Inst::Sra { rd, rs1, rs2 },
        ),
{
    reveal(decode_word_spec);
    lemma_fields_r(7, 4, rd as u64, rs1 as u64, rs2 as u64);
}

#[verifier::spinoff_prover]
proof fn rt_sll(rd: u8, rs1: u8, rs2: u8)
    requires
        rd < 32,
        rs1 < 32,
        rs2 < 32,
    ensures
        decode_word_spec(word_r(7, 5, rd, rs1, rs2)) == Some(
            resolved::Inst::Sll { rd, rs1, rs2 },
        ),
{
    reveal(decode_word_spec);
    lemma_fields_r(7, 5, rd as u64, rs1 as u64, rs2 as u64);
}

#[verifier::spinoff_prover]
proof fn rt_addi(rd: u8, rs1: u8, imm: u32)
    requires
        rd < 32,
        rs1 < 8,
    ensures
        decode_word_spec(word_i(2, 1, rd, rs1, imm as u64)) == Some(
            resolved::Inst::Addi { rd, rs1, imm },
        ),
{
    reveal(decode_word_spec);
    lemma_fields_i(2, 1, rd as u64, rs1 as u64, imm as u64);
}

#[verifier::spinoff_prover]
proof fn rt_subi(rd: u8, rs1: u8, imm: u32)
    requires
        rd < 32,
        rs1 < 8,
    ensures
        decode_word_spec(word_i(2, 2, rd, rs1, imm as u64)) == Some(
            resolved::Inst::Subi { rd, rs1, imm },
        ),
{
    reveal(decode_word_spec);
    lemma_fields_i(2, 2, rd as u64, rs1 as u64, imm as u64);
}

#[verifier::spinoff_prover]
proof fn rt_andi(rd: u8, rs1: u8, imm: u32)
    requires
        rd < 32,
        rs1 < 8,
    ensures
        decode_word_spec(word_i(8, 0, rd, rs1, imm as u64)) == Some(
            resolved::Inst::Andi { rd, rs1, imm },
        ),
{
    reveal(decode_word_spec);
    lemma_fields_i(8, 0, rd as u64, rs1 as u64, imm as u64);
}

#[verifier::spinoff_prover]
proof fn rt_ori(rd: u8, rs1: u8, imm: u32)
    requires
        rd < 32,
        rs1 < 8,
    ensures
        decode_word_spec(word_i(8, 1, rd, rs1, imm as u64)) == Some(
            resolved::Inst::Ori { rd, rs1, imm },
        ),
{
    reveal(decode_word_spec);
    lemma_fields_i(8, 1, rd as u64, rs1 as u64, imm as u64);
}

#[verifier::spinoff_prover]
proof fn rt_xori(rd: u8, rs1: u8, imm: u32)
    requires
        rd < 32,
        rs1 < 8,
    ensures
        decode_word_spec(word_i(8, 2, rd, rs1, imm as u64)) == Some(
            resolved::Inst::Xori { rd, rs1, imm },
        ),
{
    reveal(decode_word_spec);
    lemma_fields_i(8, 2, rd as u64, rs1 as u64, imm as u64);
}

#[verifier::spinoff_prover]
proof fn rt_srli(rd: u8, rs1: u8, imm: u32)
    requires
        rd < 32,
        rs1 < 8,
    ensures
        decode_word_spec(word_i(8, 3, rd, rs1, imm as u64)) == Some(
            resolved::Inst::Srli { rd, rs1, imm },
        ),
{
    reveal(decode_word_spec);
    lemma_fields_i(8, 3, rd as u64, rs1 as u64, imm as u64);
}

#[verifier::spinoff_prover]
proof fn rt_srai(rd: u8, rs1: u8, imm: u32)
    requires
        rd < 32,
        rs1 < 8,
    ensures
        decode_word_spec(word_i(8, 4, rd, rs1, imm as u64)) == Some(
            resolved::Inst::Srai { rd, rs1, imm },
        ),
{
    reveal(decode_word_spec);
    lemma_fields_i(8, 4, rd as u64, rs1 as u64, imm as u64);
}

#[verifier::spinoff_prover]
proof fn rt_slli(rd: u8, rs1: u8, imm: u32)
    requires
        rd < 32,
        rs1 < 8,
    ensures
        decode_word_spec(word_i(8, 5, rd, rs1, imm as u64)) == Some(
            resolved::Inst::Slli { rd, rs1, imm },
        ),
{
    reveal(decode_word_spec);
    lemma_fields_i(8, 5, rd as u64, rs1 as u64, imm as u64);
}

#[verifier::spinoff_prover]
proof fn rt_beq(rd: u8, rs1: u8, rs2: u8, imm: i32)
    requires
        rd < 32,
        rs1 < 32,
        rs2 < 32,
        -0x1000000 <= imm <= 0xffffff,
    ensures
        decode_word_spec(word_b(3, 0, rd, rs1, rs2, bits25_of_i32(imm))) == Some(
            resolved::Inst::Beq { rd, rs1, rs2, imm },
        ),
{
    let m = 0x2000000int;
    let d = bits25_of_i32(imm);
    if imm >= 0 {
        assert(d == imm);
    } else {
        lemma_mod_multiples_vanish(1, imm as int, m);
        lemma_small_mod((imm + m) as nat, m as nat);
        assert(d == imm + m);
    }
    lemma_fields_b(3, 0, rd as u64, rs1 as u64, rs2 as u64, d);
    reveal(decode_word_spec);
}

#[verifier::spinoff_prover]
proof fn rt_bne(rd: u8, rs1: u8, rs2: u8, imm: i32)
    requires
        rd < 32,
        rs1 < 32,
        rs2 < 32,
        -0x1000000 <= imm <= 0xffffff,
    ensures
        decode_word_spec(word_b(3, 1, rd, rs1, rs2, bits25_of_i32(imm))) == Some(
            resolved::Inst::Bne { rd, rs1, rs2, imm },
        ),
{
    let m = 0x2000000int;
    let d = bits25_of_i32(imm);
    if imm >= 0 {
        assert(d == imm);
    } else {
        lemma_mod_multiples_vanish(1, imm as int, m);
        lemma_small_mod((imm + m) as nat, m as nat);
        assert(d == imm + m);
    }
    lemma_fields_b(3, 1, rd as u64, rs1 as u64, rs2 as u64, d);
    reveal(decode_word_spec);
}

#[verifier::spinoff_prover]
proof fn rt_blt(rd: u8, rs1: u8, rs2: u8, imm: i32)
    requires
        rd < 32,
        rs1 < 32,
        rs2 < 32,
        -0x1000000 <= imm <= 0xffffff,
    ensures
        decode_word_spec(word_b(3, 2, rd, rs1, rs2, bits25_of_i32(imm))) == Some(
            resolved::Inst::Blt { rd, rs1, rs2, imm },
        ),
{
    let m = 0x2000000int;
    let d = bits25_of_i32(imm);
    if imm >= 0 {
        assert(d == imm);
    } else {
        lemma_mod_multiples_vanish(1, imm as int, m);
        lemma_small_mod((imm + m) as nat, m as nat);
        assert(d == imm + m);
    }
    lemma_fields_b(3, 2, rd as u64, rs1 as u64, rs2 as u64, d);
    reveal(decode_word_spec);
}

#[verifier::spinoff_prover]
proof fn rt_ble(rd: u8, rs1: u8, rs2: u8, imm: i32)
    requires
        rd < 32,
        rs1 < 32,
        rs2 < 32,
        -0x1000000 <= imm <= 0xffffff,
    ensures
        decode_word_spec(word_b(3, 3, rd, rs1, rs2, bits25_of_i32(imm))) == Some(
            resolved::Inst::Ble { rd, rs1, rs2, imm },
        ),
{
    let m = 0x2000000int;
    let d = bits25_of_i32(imm);
    if imm >= 0 {
        assert(d == imm);
    } else {
        lemma_mod_multiples_vanish(1, imm as int, m);
        lemma_small_mod((imm + m) as nat, m as nat);
        assert(d == imm + m);
    }
    lemma_fields_b(3, 3, rd as u64, rs1 as u64, rs2 as u64, d);
    reveal(decode_word_spec);
}

#[verifier::spinoff_prover]
proof fn rt_jal(rd: u8, rs1: u8, imm: i32)
    requires
        rd < 32,
        rs1 < 8,
    ensures
        decode_word_spec(word_i(3, 4, rd, rs1, bits32_of_i32(imm))) == Some(
            resolved::Inst::Jal { rd, rs1, imm },
        ),
{
    reveal(decode_word_spec);
    lemma_fields_i(3, 4, rd as u64, rs1 as u64, bits32_of_i32(imm));
}

#[verifier::spinoff_prover]
proof fn rt_lw(rd: u8, rs1: u8, imm: i32)
    requires
        rd < 32,
        rs1 < 8,
    ensures
        decode_word_spec(word_i(4, 0, rd, rs1, bits32_of_i32(imm))) == Some(
            resolved::Inst::Lw { rd, rs1, imm },
        ),
{
    reveal(decode_word_spec);
    lemma_fields_i(4, 0, rd as u64, rs1 as u64, bits32_of_i32(imm));
}

#[verifier::spinoff_prover]
proof fn rt_lh(rd: u8, rs1: u8, imm: i32)
    requires
        rd < 32,
        rs1 < 8,
    ensures
        decode_word_spec(word_i(4, 1, rd, rs1, bits32_of_i32(imm))) == Some(
            resolved::Inst::Lh { rd, rs1, imm },
        ),
{
    reveal(decode_word_spec);
    lemma_fields_i(4, 1, rd as u64, rs1 as u64, bits32_of_i32(imm));
}

#[verifier::spinoff_prover]
proof fn rt_lb(rd: u8, rs1: u8, imm: i32)
    requires
        rd < 32,
        rs1 < 8,
    ensures
        decode_word_spec(word_i(4, 2, rd, rs1, bits32_of_i32(imm))) == Some(
            resolved::Inst::Lb { rd, rs1, imm },
        ),
{
    reveal(decode_word_spec);
    lemma_fields_i(4, 2, rd as u64, rs1 as u64, bits32_of_i32(imm));
}

#[verifier::spinoff_prover]
proof fn rt_lhu(rd: u8, rs1: u8, imm: i32)
    requires
        rd < 32,
        rs1 < 8,
    ensures
        decode_word_spec(word_i(4, 3, rd, rs1, bits32_of_i32(imm))) == Some(
            resolved::Inst::Lhu { rd, rs1, imm },
        ),
{
    reveal(decode_word_spec);
    lemma_fields_i(4, 3, rd as u64, rs1 as u64, bits32_of_i32(imm));
}

#[verifier::spinoff_prover]
proof fn rt_lbu(rd: u8, rs1: u8, imm: i32)
    requires
        rd < 32,
        rs1 < 8,
    ensures
        decode_word_spec(word_i(4, 4, rd, rs1, bits32_of_i32(imm))) == Some(
            resolved::Inst::Lbu { rd, rs1, imm },
        ),
{
    reveal(decode_word_spec);
    lemma_fields_i(4, 4, rd as u64, rs1 as u64, bits32_of_i32(imm));
}

#[verifier::spinoff_prover]
proof fn rt_in(rd: u8, rs1: u8, imm: i32)
    requires
        rd < 32,
        rs1 < 8,
    ensures
        decode_word_spec(word_i(6, 0, rd, rs1, bits32_of_i32(imm))) == Some(
            resolved::Inst::In { rd, rs1, imm },
        ),
{
    reveal(decode_word_spec);
    lemma_fields_i(6, 0, rd as u64, rs1 as u64, bits32_of_i32(imm));
}

#[verifier::spinoff_prover]
proof fn rt_sw(rs1: u8, rs2: u8, imm: i32)
    requires
        rs1 < 8,
        rs2 < 32,
    ensures
        decode_word_spec(word_i(5, 0, rs2, rs1, bits32_of_i32(imm))) == Some(
            resolved::Inst::Sw { rs1, rs2, imm },
        ),
{
    reveal(decode_word_spec);
    lemma_fields_i(5, 0, rs2 as u64, rs1 as u64, bits32_of_i32(imm));
}

#[verifier::spinoff_prover]
proof fn rt_sh(rs1: u8, rs2: u8, imm: i32)
    requires
        rs1 < 8,
        rs2 < 32,
    ensures
        decode_word_spec(word_i(5, 1, rs2, rs1, bits32_of_i32(imm))) == Some(
            resolved::Inst::Sh { rs1, rs2, imm },
        ),
{
    reveal(decode_word_spec);
    lemma_fields_i(5, 1, rs2 as u64, rs1 as u64, bits32_of_i32(imm));
}

#[verifier::spinoff_prover]
proof fn rt_sb(rs1: u8, rs2: u8, imm: i32)
    requires
        rs1 < 8,
        rs2 < 32,
    ensures
        decode_word_spec(word_i(5, 2, rs2, rs1, bits32_of_i32(imm))) == Some(
            resolved::Inst::Sb { rs1, rs2, imm },
        ),
{
    reveal(decode_word_spec);
    lemma_fields_i(5, 2, rs2 as u64, rs1 as u64, bits32_of_i32(imm));
}

#[verifier::spinoff_prover]
proof fn rt_out(rs1: u8, rs2: u8, imm: i32)
    requires
        rs1 < 8,
        rs2 < 32,
    ensures
        decode_word_spec(word_i(6, 1, rs2, rs1, bits32_of_i32(imm))) == Some(
            resolved::Inst::Out { rs1, rs2, imm },
        ),
{
    reveal(decode_word_spec);
    lemma_fields_i(6, 1, rs2 as u64, rs1 as u64, bits32_of_i32(imm));
}

#[verifier::spinoff_prover]
proof fn rt_isb(rs1: u8, rs2: u8, imm: i32)
    requires
        rs1 < 8,
        rs2 < 32,
    ensures
        decode_word_spec(word_i(5, 3, rs2, rs1, bits32_of_i32(imm))) == Some(
            resolved::Inst::Isb { rs1, rs2, imm },
        ),
{
    reveal(decode_word_spec);
    lemma_fields_i(5, 3, rs2 as u64, rs1 as u64, bits32_of_i32(imm));
}

/// Law: decoding the encoded word of any well-formed resolved
/// instruction gives back the same mnemonic and the same field values,
/// for every supported mnemonic.
pub proof fn lemma_word_round_trip(inst: resolved::Inst)
    requires
        inst_wf(inst),
    ensures
        decode_word_spec(inst_word(inst)) == Some(inst),
{
    match inst {
        resolved::Inst::Add { rd, rs1, rs2 } => {
            rt_add(rd, rs1, rs2);
        },
        resolved::Inst::Sub { rd, rs1, rs2 } => {
            rt_sub(rd, rs1, rs2);
        },
        resolved::Inst::And { rd, rs1, rs2 } => {
            rt_and(rd, rs1, rs2);
        },
        resolved::Inst::Or { rd, rs1, rs2 } => {
            rt_or(rd, rs1, rs2);
        },
        resolved::Inst::Xor { rd, rs1, rs2 } => {
            rt_xor(rd, rs1, rs2);
        },
        resolved::Inst::Srl { rd, rs1, rs2 } => {
            rt_srl(rd, rs1, rs2);
        },
        resolved::Inst::Sra { rd, rs1, rs2 } => {
            rt_sra(rd, rs1, rs2);
        },
        resolved::Inst::Sll { rd, rs1, rs2 } => {
            rt_sll(rd, rs1, rs2);
        },
        resolved::Inst::Addi { rd, rs1, imm } => {
            rt_addi(rd, rs1, imm);
        },
        resolved::Inst::Subi { rd, rs1, imm } => {
            rt_subi(rd, rs1, imm);
        },
        resolved::Inst::Andi { rd, rs1, imm } => {
            rt_andi(rd, rs1, imm);
        },
        resolved::Inst::Ori { rd, rs1, imm } => {
            rt_ori(rd, rs1, imm);
        },
        resolved::Inst::Xori { rd, rs1, imm } => {
            rt_xori(rd, rs1, imm);
        },
        resolved::Inst::Srli { rd, rs1, imm } => {
            rt_srli(rd, rs1, imm);
        },
        resolved::Inst::Srai { rd, rs1, imm } => {
            rt_srai(rd, rs1, imm);
        },
        resolved::Inst::Slli { rd, rs1, imm } => {
            rt_slli(rd, rs1, imm);
        },
        resolved::Inst::Beq { rd, rs1, rs2, imm } => {
            rt_beq(rd, rs1, rs2, imm);
        },
        resolved::Inst::Bne { rd, rs1, rs2, imm } => {
            rt_bne(rd, rs1, rs2, imm);
        },
        resolved::Inst::Blt { rd, rs1, rs2, imm } => {
            rt_blt(rd, rs1, rs2, imm);
        },
        resolved::Inst::Ble { rd, rs1, rs2, imm } => {
            rt_ble(rd, rs1, rs2, imm);
        },
        resolved::Inst::Jal { rd, rs1, imm } => {
            rt_jal(rd, rs1, imm);
        },
        resolved::Inst::Lw { rd, rs1, imm } => {
            rt_lw(rd, rs1, imm);
        },
        resolved::Inst::Lh { rd, rs1, imm } => {
            rt_lh(rd, rs1, imm);
        },
        resolved::Inst::Lb { rd, rs1, imm } => {
            rt_lb(rd, rs1, imm);
        },
        resolved::Inst::Lhu { rd, rs1, imm } => {
            rt_lhu(rd, rs1, imm);
        },
        resolved::Inst::Lbu { rd, rs1, imm } => {
            rt_lbu(rd, rs1, imm);
        },
        resolved::Inst::In { rd, rs1, imm } => {
            rt_in(rd, rs1, imm);
        },
        resolved::Inst::Sw { rs1, rs2, imm } => {
            rt_sw(rs1, rs2, imm);
        },
        resolved::Inst::Sh { rs1, rs2, imm } => {
            rt_sh(rs1, rs2, imm);
        },
        resolved::Inst::Sb { rs1, rs2, imm } => {
            rt_sb(rs1, rs2, imm);
        },
        resolved::Inst::Out { rs1, rs2, imm } => {
            rt_out(rs1, rs2, imm);
        },
        resolved::Inst::Isb { rs1, rs2, imm } => {
            rt_isb(rs1, rs2, imm);
        },
    }
}

} // verus!
