//! The resolver: builds the two address tables in spec form, then
//! rewrites every label or literal operand into the concrete numeric
//! field of a [`resolved::Inst`]. Both passes over declarations happen
//! before any operand is rewritten, so forward references resolve.
use vstd::prelude::*;

use crate::dmem::{command_len_v, datas_model, Data, DataV};
use crate::error::{err_model, AsmError, ErrV};
use crate::resolved;
use crate::unresolved::{insts_model, kind_model, value_model, Inst, InstKind, InstKindV, InstV, Value, ValueV};

verus! {

use vstd::arithmetic::div_mod::{lemma_fundamental_div_mod, lemma_mod_multiples_vanish, lemma_small_mod};

/// A signed value reduced to its unsigned 32-bit two's-complement form.
pub open spec fn wrap_u32_spec(n: i64) -> u32 {
    (((n as int) % 0x100000000) as u32)
}

/// Folds a signed value into unsigned 32 bits, wrapping as a cast
/// would.
pub fn wrap_u32(n: i64) -> (r: u32)
    ensures
        r == wrap_u32_spec(n),
{
    let d: i64 = 0x100000000;
    if n >= 0 {
        (n % d) as u32
    } else if n == i64::MIN {
        proof {
            lemma_mod_multiples_vanish(-0x80000000, 0, 0x100000000);
        }
        0
    } else {
        let m = (-n) % d;
        proof {
            let k = (-n) as int;
            let dd = 0x100000000int;
            lemma_fundamental_div_mod(k, dd);
            let q = k / dd;
            let r = k % dd;
            assert(-k == dd * (-q - 1) + (dd - r)) by {
                assert(k == dd * q + r);
            }
            if r == 0 {
                assert(-k == dd * (-q) + 0) by {
                    assert(k == dd * q);
                }
                lemma_mod_multiples_vanish(-q, 0, dd);
                lemma_small_mod(0, dd as nat);
            } else {
                lemma_mod_multiples_vanish(-q - 1, dd - r, dd);
                lemma_small_mod((dd - r) as nat, dd as nat);
            }
        }
        if m == 0 {
            0
        } else {
            (d - m) as u32
        }
    }
}

/// The byte offset where directive `i` begins: the sum of the byte
/// lengths of every directive before it.
pub open spec fn data_offset(datas: Seq<DataV>, i: int) -> nat
    decreases i,
{
    if i <= 0 {
        0
    } else {
        data_offset(datas, i - 1) + command_len_v(datas[i - 1].command)
    }
}

/// No directive emits more than `usize::MAX` bytes, so the offset of
/// directive `i` is at most `i` times that.
pub proof fn lemma_data_offset_bound(datas: Seq<DataV>, i: int)
    requires
        0 <= i,
    ensures
        data_offset(datas, i) <= i * (usize::MAX as nat),
    decreases i,
{
    if i > 0 {
        lemma_data_offset_bound(datas, i - 1);
        assert(command_len_v(datas[i - 1].command) <= usize::MAX as nat);
        assert((i - 1) * (usize::MAX as nat) + (usize::MAX as nat) == i * (usize::MAX as nat))
            by (nonlinear_arith);
    }
}

/// The byte offset the data-label table records for `name`, scanning
/// declarations up to (excluding) position `i`; a repeated label keeps
/// its last declaration, as repeated table insertion would.
pub open spec fn data_addr_from(datas: Seq<DataV>, name: Seq<char>, i: int) -> Option<nat>
    decreases i,
{
    if i <= 0 {
        None
    } else if datas[i - 1].label == Some(name) {
        Some(data_offset(datas, i - 1))
    } else {
        data_addr_from(datas, name, i - 1)
    }
}

/// The byte offset the data-label table records for `name`.
pub open spec fn data_addr_of(datas: Seq<DataV>, name: Seq<char>) -> Option<nat> {
    data_addr_from(datas, name, datas.len() as int)
}

/// The byte address the instruction-label table records for `name`:
/// six bytes per instruction.
pub open spec fn inst_addr_from(insts: Seq<InstV>, name: Seq<char>, i: int) -> Option<nat>
    decreases i,
{
    if i <= 0 {
        None
    } else if insts[i - 1].label == Some(name) {
        Some((6 * (i - 1)) as nat)
    } else {
        inst_addr_from(insts, name, i - 1)
    }
}

pub open spec fn inst_addr_of(insts: Seq<InstV>, name: Seq<char>) -> Option<nat> {
    inst_addr_from(insts, name, insts.len() as int)
}

fn data_addr(datas: &Vec<Data>, name: &String) -> (r: Option<u128>)
    ensures
        match r {
            Some(a) => data_addr_of(datas_model(datas@), name@) == Some(a as nat),
            None => data_addr_of(datas_model(datas@), name@) is None,
        },
{
    let ghost dm = datas_model(datas@);
    let mut off: u128 = 0;
    let mut found: Option<u128> = None;
    let mut i: usize = 0;
    while i < datas.len()
        invariant
            0 <= i <= datas@.len(),
            dm == datas_model(datas@),
            off as nat == data_offset(dm, i as int),
            match found {
                Some(a) => data_addr_from(dm, name@, i as int) == Some(a as nat),
                None => data_addr_from(dm, name@, i as int) is None,
            },
        decreases datas@.len() - i,
    {
        proof {
            assert(dm[i as int] == crate::dmem::data_model(datas@[i as int]));
        }
        let matched = match &datas[i].label {
            Some(l) => l.eq(name),
            None => false,
        };
        if matched {
            found = Some(off);
        }
        let step = datas[i].command.len();
        proof {
            lemma_data_offset_bound(dm, i as int);
            assert(usize::MAX as nat <= 0xffffffffffffffff as nat);
            assert((i as nat) * (usize::MAX as nat) + (usize::MAX as nat) < u128::MAX as nat)
                by (nonlinear_arith)
                requires
                    i as nat <= 0xffffffffffffffff,
                    usize::MAX as nat <= 0xffffffffffffffff,
            ;
        }
        off = off + (step as u128);
        i = i + 1;
    }
    found
}

fn inst_addr(insts: &Vec<Inst>, name: &String) -> (r: Option<u128>)
    ensures
        match r {
            Some(a) => inst_addr_of(insts_model(insts@), name@) == Some(a as nat) && a
                <= 6 * (insts@.len() as u128),
            None => inst_addr_of(insts_model(insts@), name@) is None,
        },
{
    let ghost im = insts_model(insts@);
    let mut found: Option<u128> = None;
    let mut i: usize = 0;
    while i < insts.len()
        invariant
            0 <= i <= insts@.len(),
            im == insts_model(insts@),
            match found {
                Some(a) => inst_addr_from(im, name@, i as int) == Some(a as nat) && a <= 6 * (
                insts@.len() as u128),
                None => inst_addr_from(im, name@, i as int) is None,
            },
        decreases insts@.len() - i,
    {
        proof {
            assert(im[i as int] == crate::unresolved::inst_model(insts@[i as int]));
        }
        let matched = match &insts[i].label {
            Some(l) => l.eq(name),
            None => false,
        };
        if matched {
            proof {
                assert((i as u128) * 6 <= (0xffffffffffffffffu128) * 6) by (nonlinear_arith)
                    requires
                        i as u128 <= 0xffffffffffffffff,
                ;
                assert((i as u128) * 6 <= 6 * (insts@.len() as u128)) by (nonlinear_arith)
                    requires
                        i as u128 <= insts@.len() as u128,
                ;
            }
            found = Some((i as u128) * 6);
        }
        i = i + 1;
    }
    found
}

/// The concrete field an ALU-immediate operand resolves to: a literal
/// wraps to unsigned 32 bits; a label reference resolves to its
/// recorded absolute byte address, truncated the same way.
pub open spec fn resolve_alu_spec(datas: Seq<DataV>, insts: Seq<InstV>, val: ValueV) -> Result<
    u32,
    ErrV,
> {
    match val {
        ValueV::Imm(n) => Ok(wrap_u32_spec(n)),
        ValueV::DataLabel(nm) => match data_addr_of(datas, nm) {
            Some(a) => Ok(((a % 0x100000000) as u32)),
            None => Err(ErrV::UnknownLabel(nm)),
        },
        ValueV::InstLabel(nm) => match inst_addr_of(insts, nm) {
            Some(a) => Ok(((a % 0x100000000) as u32)),
            None => Err(ErrV::UnknownLabel(nm)),
        },
    }
}

fn resolve_alu(datas: &Vec<Data>, insts: &Vec<Inst>, val: &Value) -> (r: Result<u32, AsmError>)
    ensures
        match r {
            Ok(x) => resolve_alu_spec(datas_model(datas@), insts_model(insts@), value_model(*val))
                == Ok::<u32, ErrV>(x),
            Err(e) => resolve_alu_spec(datas_model(datas@), insts_model(insts@), value_model(*val))
                == Err::<u32, ErrV>(err_model(e)),
        },
{
    match val {
        Value::Imm(n) => Ok(wrap_u32(*n)),
        Value::DataLabel(nm) => match data_addr(datas, nm) {
            Some(a) => Ok((a % 0x100000000) as u32),
            None => Err(AsmError::UnknownLabel(nm.clone())),
        },
        Value::InstLabel(nm) => match inst_addr(insts, nm) {
            Some(a) => Ok((a % 0x100000000) as u32),
            None => Err(AsmError::UnknownLabel(nm.clone())),
        },
    }
}

/// The displacement a branch operand resolves to: a literal is used
/// as-is; an instruction label resolves to its address minus the
/// branch's own address, six bytes per instruction. Either way the
/// result must fit the signed 25-bit field; a data label is invalid
/// here.
pub open spec fn resolve_branch_spec(insts: Seq<InstV>, val: ValueV, pos: int, who: Seq<char>) -> Result<
    i32,
    ErrV,
> {
    match val {
        ValueV::Imm(n) => if -0x1000000 <= n <= 0xffffff {
            Ok(n as i32)
        } else {
            Err(ErrV::ImmediateRange(who))
        },
        ValueV::InstLabel(nm) => match inst_addr_of(insts, nm) {
            Some(t) => {
                let d = t - 6 * pos;
                if -0x1000000 <= d <= 0xffffff {
                    Ok(d as i32)
                } else {
                    Err(ErrV::ImmediateRange(nm))
                }
            },
            None => Err(ErrV::UnknownLabel(nm)),
        },
        ValueV::DataLabel(nm) => Err(ErrV::InvalidLabelUsage(nm)),
    }
}

fn resolve_branch(insts: &Vec<Inst>, val: &Value, pos: usize, k: &InstKind) -> (r: Result<
    i32,
    AsmError,
>)
    requires
        pos < insts@.len(),
    ensures
        match r {
            Ok(x) => resolve_branch_spec(
                insts_model(insts@),
                value_model(*val),
                pos as int,
                kind_model(*k).mnemonic_of(),
            ) == Ok::<i32, ErrV>(x),
            Err(e) => resolve_branch_spec(
                insts_model(insts@),
                value_model(*val),
                pos as int,
                kind_model(*k).mnemonic_of(),
            ) == Err::<i32, ErrV>(err_model(e)),
        },
{
    match val {
        Value::Imm(n) => {
            if -0x1000000 <= *n && *n <= 0xffffff {
                Ok(*n as i32)
            } else {
                Err(AsmError::ImmediateRange(k.mnemonic()))
            }
        },
        Value::InstLabel(nm) => match inst_addr(insts, nm) {
            Some(t) => {
                let n = insts.len();
                proof {
                    assert(t <= 6 * (insts@.len() as u128));
                    assert(6 * (insts@.len() as u128) <= 6 * 0xffffffffffffffffu128)
                        by (nonlinear_arith)
                        requires
                            insts@.len() as u128 <= 0xffffffffffffffff,
                    ;
                }
                let ti: i128 = t as i128;
                let pi: i128 = (pos as i128) * 6;
                let d: i128 = ti - pi;
                if -0x1000000 <= d && d <= 0xffffff {
                    Ok(d as i32)
                } else {
                    Err(AsmError::ImmediateRange(nm.clone()))
                }
            },
            None => Err(AsmError::UnknownLabel(nm.clone())),
        },
        Value::DataLabel(nm) => Err(AsmError::InvalidLabelUsage(nm.clone())),
    }
}

/// The resolved form of instruction `i`: register fields pass through,
/// ALU-immediate operands resolve to absolute values, branch operands
/// to relative displacements.
#[verifier::opaque]
pub open spec fn resolve_inst_spec(datas: Seq<DataV>, insts: Seq<InstV>, i: int) -> Result<
    resolved::Inst,
    ErrV,
>
    recommends
        0 <= i < insts.len(),
{
    let k = insts[i].kind;
    match k {
        InstKindV::Add { rd, rs1, rs2 } => Ok(resolved::Inst::Add { rd, rs1, rs2 }),
        InstKindV::Sub { rd, rs1, rs2 } => Ok(resolved::Inst::Sub { rd, rs1, rs2 }),
        InstKindV::And { rd, rs1, rs2 } => Ok(resolved::Inst::And { rd, rs1, rs2 }),
        InstKindV::Or { rd, rs1, rs2 } => Ok(resolved::Inst::Or { rd, rs1, rs2 }),
        InstKindV::Xor { rd, rs1, rs2 } => Ok(resolved::Inst::Xor { rd, rs1, rs2 }),
        InstKindV::Srl { rd, rs1, rs2 } => Ok(resolved::Inst::Srl { rd, rs1, rs2 }),
        InstKindV::Sra { rd, rs1, rs2 } => Ok(resolved::Inst::Sra { rd, rs1, rs2 }),
        InstKindV::Sll { rd, rs1, rs2 } => Ok(resolved::Inst::Sll { rd, rs1, rs2 }),
        InstKindV::Addi { rd, rs1, val } => match resolve_alu_spec(datas, insts, val) {
            Ok(imm) => Ok(resolved::Inst::Addi { rd, rs1, imm }),
            Err(e) => Err(e),
        },
        InstKindV::Subi { rd, rs1, val } => match resolve_alu_spec(datas, insts, val) {
            Ok(imm) => Ok(resolved::Inst::Subi { rd, rs1, imm }),
            Err(e) => Err(e),
        },
        InstKindV::Andi { rd, rs1, val } => match resolve_alu_spec(datas, insts, val) {
            Ok(imm) => Ok(resolved::Inst::Andi { rd, rs1, imm }),
            Err(e) => Err(e),
        },
        InstKindV::Ori { rd, rs1, val } => match resolve_alu_spec(datas, insts, val) {
            Ok(imm) => Ok(resolved::Inst::Ori { rd, rs1, imm }),
            Err(e) => Err(e),
        },
        InstKindV::Xori { rd, rs1, val } => match resolve_alu_spec(datas, insts, val) {
            Ok(imm) => Ok(resolved::Inst::Xori { rd, rs1, imm }),
            Err(e) => Err(e),
        },
        InstKindV::Srli { rd, rs1, val } => match resolve_alu_spec(datas, insts, val) {
            Ok(imm) => Ok(resolved::Inst::Srli { rd, rs1, imm }),
            Err(e) => Err(e),
        },
        InstKindV::Srai { rd, rs1, val } => match resolve_alu_spec(datas, insts, val) {
            Ok(imm) => Ok(resolved::Inst::Srai { rd, rs1, imm }),
            Err(e) => Err(e),
        },
        InstKindV::Slli { rd, rs1, val } => match resolve_alu_spec(datas, insts, val) {
            Ok(imm) => Ok(resolved::Inst::Slli { rd, rs1, imm }),
            Err(e) => Err(e),
        },
        InstKindV::Beq { rd, rs1, rs2, val } => match resolve_branch_spec(
            insts,
            val,
            i,
            k.mnemonic_of(),
        ) {
            Ok(imm) => Ok(resolved::Inst::Beq { rd, rs1, rs2, imm }),
            Err(e) => Err(e),
        },
        InstKindV::Bne { rd, rs1, rs2, val } => match resolve_branch_spec(
            insts,
            val,
            i,
            k.mnemonic_of(),
        ) {
            Ok(imm) => Ok(resolved::Inst::Bne { rd, rs1, rs2, imm }),
            Err(e) => Err(e),
        },
        InstKindV::Blt { rd, rs1, rs2, val } => match resolve_branch_spec(
            insts,
            val,
            i,
            k.mnemonic_of(),
        ) {
            Ok(imm) => Ok(resolved::Inst::Blt { rd, rs1, rs2, imm }),
            Err(e) => Err(e),
        },
        InstKindV::Ble { rd, rs1, rs2, val } => match resolve_branch_spec(
            insts,
            val,
            i,
            k.mnemonic_of(),
        ) {
            Ok(imm) => Ok(resolved::Inst::Ble { rd, rs1, rs2, imm }),
            Err(e) => Err(e),
        },
        InstKindV::Jal { rd, rs1, imm } => Ok(resolved::Inst::Jal { rd, rs1, imm }),
        InstKindV::Lw { rd, rs1, imm } => Ok(resolved::Inst::Lw { rd, rs1, imm }),
        InstKindV::Lh { rd, rs1, imm } => Ok(resolved::Inst::Lh { rd, rs1, imm }),
        InstKindV::Lb { rd, rs1, imm } => Ok(resolved::Inst::Lb { rd, rs1, imm }),
        InstKindV::Lhu { rd, rs1, imm } => Ok(resolved::Inst::Lhu { rd, rs1, imm }),
        InstKindV::Lbu { rd, rs1, imm } => Ok(resolved::Inst::Lbu { rd, rs1, imm }),
        InstKindV::In { rd, rs1, imm } => Ok(resolved::Inst::In { rd, rs1, imm }),
        InstKindV::Sw { rs1, rs2, imm } => Ok(resolved::Inst::Sw { rs1, rs2, imm }),
        InstKindV::Sh { rs1, rs2, imm } => Ok(resolved::Inst::Sh { rs1, rs2, imm }),
        InstKindV::Sb { rs1, rs2, imm } => Ok(resolved::Inst::Sb { rs1, rs2, imm }),
        InstKindV::Out { rs1, rs2, imm } => Ok(resolved::Inst::Out { rs1, rs2, imm }),
        InstKindV::Isb { rs1, rs2, imm } => Ok(resolved::Inst::Isb { rs1, rs2, imm }),
    }
}

#[verifier::rlimit(100)]
#[verifier::spinoff_prover]
fn resolve_inst(datas: &Vec<Data>, insts: &Vec<Inst>, i: usize) -> (r: Result<
    resolved::Inst,
    AsmError,
>)
    requires
        i < insts@.len(),
    ensures
        match r {
            Ok(x) => resolve_inst_spec(datas_model(datas@), insts_model(insts@), i as int)
                == Ok::<resolved::Inst, ErrV>(x),
            Err(e) => resolve_inst_spec(datas_model(datas@), insts_model(insts@), i as int)
                == Err::<resolved::Inst, ErrV>(err_model(e)),
        },
{
    proof {
        reveal(resolve_inst_spec);
        assert(insts_model(insts@)[i as int] == crate::unresolved::inst_model(insts@[i as int]));
    }
    let k = &insts[i].kind;
    match k {
        InstKind::Add { rd, rs1, rs2 } => Ok(resolved::Inst::Add { rd: *rd, rs1: *rs1, rs2: *rs2 }),
        InstKind::Sub { rd, rs1, rs2 } => Ok(resolved::Inst::Sub { rd: *rd, rs1: *rs1, rs2: *rs2 }),
        InstKind::And { rd, rs1, rs2 } => Ok(resolved::Inst::And { rd: *rd, rs1: *rs1, rs2: *rs2 }),
        InstKind::Or { rd, rs1, rs2 } => Ok(resolved::Inst::Or { rd: *rd, rs1: *rs1, rs2: *rs2 }),
        InstKind::Xor { rd, rs1, rs2 } => Ok(resolved::Inst::Xor { rd: *rd, rs1: *rs1, rs2: *rs2 }),
        InstKind::Srl { rd, rs1, rs2 } => Ok(resolved::Inst::Srl { rd: *rd, rs1: *rs1, rs2: *rs2 }),
        InstKind::Sra { rd, rs1, rs2 } => Ok(resolved::Inst::Sra { rd: *rd, rs1: *rs1, rs2: *rs2 }),
        InstKind::Sll { rd, rs1, rs2 } => Ok(resolved::Inst::Sll { rd: *rd, rs1: *rs1, rs2: *rs2 }),
        InstKind::Addi { rd, rs1, val } => match resolve_alu(datas, insts, val) {
            Ok(imm) => Ok(resolved::Inst::Addi { rd: *rd, rs1: *rs1, imm }),
            Err(e) => Err(e),
        },
        InstKind::Subi { rd, rs1, val } => match resolve_alu(datas, insts, val) {
            Ok(imm) => Ok(resolved::Inst::Subi { rd: *rd, rs1: *rs1, imm }),
            Err(e) => Err(e),
        },
        InstKind::Andi { rd, rs1, val } => match resolve_alu(datas, insts, val) {
            Ok(imm) => Ok(resolved::Inst::Andi { rd: *rd, rs1: *rs1, imm }),
            Err(e) => Err(e),
        },
        InstKind::Ori { rd, rs1, val } => match resolve_alu(datas, insts, val) {
            Ok(imm) => Ok(resolved::Inst::Ori { rd: *rd, rs1: *rs1, imm }),
            Err(e) => Err(e),
        },
        InstKind::Xori { rd, rs1, val } => match resolve_alu(datas, insts, val) {
            Ok(imm) => Ok(resolved::Inst::Xori { rd: *rd, rs1: *rs1, imm }),
            Err(e) => Err(e),
        },
        InstKind::Srli { rd, rs1, val } => match resolve_alu(datas, insts, val) {
            Ok(imm) => Ok(resolved::Inst::Srli { rd: *rd, rs1: *rs1, imm }),
            Err(e) => Err(e),
        },
        InstKind::Srai { rd, rs1, val } => match resolve_alu(datas, insts, val) {
            Ok(imm) => Ok(resolved::Inst::Srai { rd: *rd, rs1: *rs1, imm }),
            Err(e) => Err(e),
        },
        InstKind::Slli { rd, rs1, val } => match resolve_alu(datas, insts, val) {
            Ok(imm) => Ok(resolved::Inst::Slli { rd: *rd, rs1: *rs1, imm }),
            Err(e) => Err(e),
        },
        InstKind::Beq { rd, rs1, rs2, val } => match resolve_branch(insts, val, i, k) {
            Ok(imm) => Ok(resolved::Inst::Beq { rd: *rd, rs1: *rs1, rs2: *rs2, imm }),
            Err(e) => Err(e),
        },
        InstKind::Bne { rd, rs1, rs2, val } => match resolve_branch(insts, val, i, k) {
            Ok(imm) => Ok(resolved::Inst::Bne { rd: *rd, rs1: *rs1, rs2: *rs2, imm }),
            Err(e) => Err(e),
        },
        InstKind::Blt { rd, rs1, rs2, val } => match resolve_branch(insts, val, i, k) {
            Ok(imm) => Ok(resolved::Inst::Blt { rd: *rd, rs1: *rs1, rs2: *rs2, imm }),
            Err(e) => Err(e),
        },
        InstKind::Ble { rd, rs1, rs2, val } => match resolve_branch(insts, val, i, k) {
            Ok(imm) => Ok(resolved::Inst::Ble { rd: *rd, rs1: *rs1, rs2: *rs2, imm }),
            Err(e) => Err(e),
        },
        InstKind::Jal { rd, rs1, imm } => Ok(resolved::Inst::Jal { rd: *rd, rs1: *rs1, imm: *imm }),
        InstKind::Lw { rd, rs1, imm } => Ok(resolved::Inst::Lw { rd: *rd, rs1: *rs1, imm: *imm }),
        InstKind::Lh { rd, rs1, imm } => Ok(resolved::Inst::Lh { rd: *rd, rs1: *rs1, imm: *imm }),
        InstKind::Lb { rd, rs1, imm } => Ok(resolved::Inst::Lb { rd: *rd, rs1: *rs1, imm: *imm }),
        InstKind::Lhu { rd, rs1, imm } => Ok(resolved::Inst::Lhu { rd: *rd, rs1: *rs1, imm: *imm }),
        InstKind::Lbu { rd, rs1, imm } => Ok(resolved::Inst::Lbu { rd: *rd, rs1: *rs1, imm: *imm }),
        InstKind::In { rd, rs1, imm } => Ok(resolved::Inst::In { rd: *rd, rs1: *rs1, imm: *imm }),
        InstKind::Sw { rs1, rs2, imm } => Ok(resolved::Inst::Sw { rs1: *rs1, rs2: *rs2, imm: *imm }),
        InstKind::Sh { rs1, rs2, imm } => Ok(resolved::Inst::Sh { rs1: *rs1, rs2: *rs2, imm: *imm }),
        InstKind::Sb { rs1, rs2, imm } => Ok(resolved::Inst::Sb { rs1: *rs1, rs2: *rs2, imm: *imm }),
        InstKind::Out { rs1, rs2, imm } => Ok(resolved::Inst::Out { rs1: *rs1, rs2: *rs2, imm: *imm }),
        InstKind::Isb { rs1, rs2, imm } => Ok(resolved::Inst::Isb { rs1: *rs1, rs2: *rs2, imm: *imm }),
    }
}

/// The resolved instruction list from position `i` on; no partial
/// results, the first failure aborts.
pub open spec fn resolve_from(datas: Seq<DataV>, insts: Seq<InstV>, i: int) -> Result<
    Seq<resolved::Inst>,
    ErrV,
>
    decreases insts.len() - i,
{
    if i < 0 || i >= insts.len() {
        Ok(Seq::<resolved::Inst>::empty())
    } else {
        match resolve_inst_spec(datas, insts, i) {
            Ok(ri) => match resolve_from(datas, insts, i + 1) {
                Ok(rest) => Ok(seq![ri] + rest),
                Err(e) => Err(e),
            },
            Err(e) => Err(e),
        }
    }
}

/// The resolved program: every instruction of `insts` rewritten over
/// the two label tables of `datas` and `insts`.
pub open spec fn resolve_spec(datas: Seq<DataV>, insts: Seq<InstV>) -> Result<
    Seq<resolved::Inst>,
    ErrV,
> {
    resolve_from(datas, insts, 0)
}

/// Resolves every instruction, rewriting label references into absolute
/// addresses and branch displacements.
pub fn resolve(datas: &Vec<Data>, insts: Vec<Inst>) -> (r: Result<Vec<resolved::Inst>, AsmError>)
    ensures
        match r {
            Ok(v) => resolve_spec(datas_model(datas@), insts_model(insts@)) == Ok::<
                Seq<resolved::Inst>,
                ErrV,
            >(v@),
            Err(e) => resolve_spec(datas_model(datas@), insts_model(insts@)) == Err::<
                Seq<resolved::Inst>,
                ErrV,
            >(err_model(e)),
        },
{
    let ghost dm = datas_model(datas@);
    let ghost im = insts_model(insts@);
    let mut out: Vec<resolved::Inst> = Vec::new();
    let mut i: usize = 0;
    while i < insts.len()
        invariant
            0 <= i <= insts@.len(),
            dm == datas_model(datas@),
            im == insts_model(insts@),
            resolve_from(dm, im, 0) == (match resolve_from(dm, im, i as int) {
                Ok(rest) => Ok::<Seq<resolved::Inst>, ErrV>(out@ + rest),
                Err(e) => Err::<Seq<resolved::Inst>, ErrV>(e),
            }),
        decreases insts@.len() - i,
    {
        let ghost old_out = out@;
        match resolve_inst(datas, &insts, i) {
            Ok(ri) => {
                out.push(ri);
                proof {
                    if resolve_from(dm, im, i + 1) is Ok {
                        assert((old_out + (seq![ri] + resolve_from(dm, im, i + 1)->Ok_0)) =~= (out@
                            + resolve_from(dm, im, i + 1)->Ok_0));
                    }
                }
            },
            Err(e) => {
                return Err(e);
            },
        }
        i = i + 1;
    }
    proof {
        assert(out@ + Seq::<resolved::Inst>::empty() =~= out@);
    }
    Ok(out)
}

/// Law: the offset the data-label table records is the cumulative sum
/// of the byte lengths of every directive that precedes the labelled
/// one; a label declared twice keeps its last declaration.
pub proof fn lemma_data_table_offsets(datas: Seq<DataV>, name: Seq<char>)
    requires
        data_addr_of(datas, name) is Some,
    ensures
        exists|i: int|
            0 <= i < datas.len() && datas[i].label == Some(name) && data_addr_of(datas, name)
                == Some(data_offset(datas, i)),
{
    lemma_data_addr_witness(datas, name, datas.len() as int);
}

proof fn lemma_data_addr_witness(datas: Seq<DataV>, name: Seq<char>, j: int)
    requires
        0 <= j <= datas.len(),
        data_addr_from(datas, name, j) is Some,
    ensures
        exists|i: int|
            0 <= i < j && datas[i].label == Some(name) && data_addr_from(datas, name, j) == Some(
                data_offset(datas, i),
            ),
    decreases j,
{
    if j > 0 {
        if datas[j - 1].label == Some(name) {
            assert(0 <= j - 1 < j && datas[j - 1].label == Some(name) && data_addr_from(
                datas,
                name,
                j,
            ) == Some(data_offset(datas, j - 1)));
        } else {
            lemma_data_addr_witness(datas, name, j - 1);
            let i = choose|i: int|
                0 <= i < j - 1 && datas[i].label == Some(name) && data_addr_from(datas, name, j - 1)
                    == Some(data_offset(datas, i));
            assert(0 <= i < j && datas[i].label == Some(name) && data_addr_from(datas, name, j)
                == Some(data_offset(datas, i)));
        }
    }
}

/// Law: a branch whose operand is an instruction label resolves to the
/// displacement `target address - 6 * own index`, and any displacement
/// outside the signed 25-bit interval is an immediate-range error, for
/// literal and resolved operands alike.
pub proof fn lemma_branch_displacement(insts: Seq<InstV>, nm: Seq<char>, pos: int, who: Seq<char>)
    requires
        inst_addr_of(insts, nm) is Some,
    ensures
        ({
            let t = inst_addr_of(insts, nm)->0;
            let d = t - 6 * pos;
            if -0x1000000 <= d <= 0xffffff {
                resolve_branch_spec(insts, ValueV::InstLabel(nm), pos, who) == Ok::<i32, ErrV>(
                    d as i32,
                )
            } else {
                resolve_branch_spec(insts, ValueV::InstLabel(nm), pos, who) == Err::<i32, ErrV>(
                    ErrV::ImmediateRange(nm),
                )
            }
        }),
{
}

/// Law: a data label standing as a branch operand never resolves; the
/// resolver rejects it with an invalid-label-usage error.
pub proof fn lemma_resolve_rejects_branch_data_label(
    datas: Seq<DataV>,
    insts: Seq<InstV>,
    i: int,
    nm: Seq<char>,
)
    requires
        0 <= i < insts.len(),
        insts[i].kind.is_branch(),
        insts[i].kind.value_operand() == Some(ValueV::DataLabel(nm)),
    ensures
        resolve_inst_spec(datas, insts, i) == Err::<resolved::Inst, ErrV>(
            ErrV::InvalidLabelUsage(nm),
        ),
{
    reveal(resolve_inst_spec);
}

} // verus!
