//! The validator: four independent, fail-fast passes over the parsed
//! program. Each returns the first violation it finds: label existence,
//! label usage by format, register ranges per format, and immediate
//! ranges.
use vstd::prelude::*;

use crate::dmem::{datas_model, Data, DataV};
use crate::error::{err_model, AsmError, ErrV};
use crate::unresolved::{insts_model, kind_model, value_model, Inst, InstKind, InstKindV, InstV, Value, ValueV};

verus! {

/// Whether some directive declares the data label `name`.
pub open spec fn has_data_label(datas: Seq<DataV>, name: Seq<char>) -> bool {
    exists|i: int| 0 <= i < datas.len() && datas[i].label == Some(name)
}

/// Whether some instruction declares the instruction label `name`.
pub open spec fn has_inst_label(insts: Seq<InstV>, name: Seq<char>) -> bool {
    exists|i: int| 0 <= i < insts.len() && insts[i].label == Some(name)
}

fn contains_data_label(datas: &Vec<Data>, name: &String) -> (r: bool)
    ensures
        r == has_data_label(datas_model(datas@), name@),
{
    let ghost m = datas_model(datas@);
    let mut i: usize = 0;
    while i < datas.len()
        invariant
            0 <= i <= datas@.len(),
            m == datas_model(datas@),
            forall|j: int| 0 <= j < i ==> m[j].label != Some(name@),
        decreases datas@.len() - i,
    {
        proof {
            assert(m[i as int] == crate::dmem::data_model(datas@[i as int]));
        }
        match &datas[i].label {
            Some(l) => {
                if l.eq(name) {
                    return true;
                }
            },
            None => {},
        }
        i = i + 1;
    }
    false
}

fn contains_inst_label(insts: &Vec<Inst>, name: &String) -> (r: bool)
    ensures
        r == has_inst_label(insts_model(insts@), name@),
{
    let ghost m = insts_model(insts@);
    let mut i: usize = 0;
    while i < insts.len()
        invariant
            0 <= i <= insts@.len(),
            m == insts_model(insts@),
            forall|j: int| 0 <= j < i ==> m[j].label != Some(name@),
        decreases insts@.len() - i,
    {
        proof {
            assert(m[i as int] == crate::unresolved::inst_model(insts@[i as int]));
        }
        match &insts[i].label {
            Some(l) => {
                if l.eq(name) {
                    return true;
                }
            },
            None => {},
        }
        i = i + 1;
    }
    false
}

/// The value operand of the ALU-immediate and branch families, by
/// reference; `None` for every other format.
fn value_operand_ref(k: &InstKind) -> (r: Option<&Value>)
    ensures
        match r {
            Some(v) => kind_model(*k).value_operand() == Some(value_model(*v)),
            None => kind_model(*k).value_operand() is None,
        },
{
    match k {
            InstKind::Addi { val, .. } => Some(val),
            InstKind::Subi { val, .. } => Some(val),
            InstKind::Andi { val, .. } => Some(val),
            InstKind::Ori { val, .. } => Some(val),
            InstKind::Xori { val, .. } => Some(val),
            InstKind::Srli { val, .. } => Some(val),
            InstKind::Srai { val, .. } => Some(val),
            InstKind::Slli { val, .. } => Some(val),
            InstKind::Beq { val, .. } => Some(val),
            InstKind::Bne { val, .. } => Some(val),
            InstKind::Blt { val, .. } => Some(val),
            InstKind::Ble { val, .. } => Some(val),
        _ => None,
    }
}

fn is_branch_kind(k: &InstKind) -> (r: bool)
    ensures
        r == kind_model(*k).is_branch(),
{
    match k {
        InstKind::Beq { .. } => true,
        InstKind::Bne { .. } => true,
        InstKind::Blt { .. } => true,
        InstKind::Ble { .. } => true,
        _ => false,
    }
}

/// Label existence from position `i` on: every referenced label must be
/// declared in its own namespace.
pub open spec fn check_label_exists_from(datas: Seq<DataV>, insts: Seq<InstV>, i: int) -> Result<
    (),
    ErrV,
>
    decreases insts.len() - i,
{
    if i < 0 || i >= insts.len() {
        Ok(())
    } else {
        match insts[i].kind.value_operand() {
            Some(ValueV::DataLabel(n)) => if !has_data_label(datas, n) {
                Err(ErrV::UnknownLabel(n))
            } else {
                check_label_exists_from(datas, insts, i + 1)
            },
            Some(ValueV::InstLabel(n)) => if !has_inst_label(insts, n) {
                Err(ErrV::UnknownLabel(n))
            } else {
                check_label_exists_from(datas, insts, i + 1)
            },
            _ => check_label_exists_from(datas, insts, i + 1),
        }
    }
}

fn check_label_exists(datas: &Vec<Data>, insts: &Vec<Inst>) -> (r: Result<(), AsmError>)
    ensures
        match r {
            Ok(_) => check_label_exists_from(datas_model(datas@), insts_model(insts@), 0) is Ok,
            Err(e) => check_label_exists_from(datas_model(datas@), insts_model(insts@), 0) == Err::<
                (),
                ErrV,
            >(err_model(e)),
        },
{
    let ghost dm = datas_model(datas@);
    let ghost im = insts_model(insts@);
    let mut i: usize = 0;
    while i < insts.len()
        invariant
            0 <= i <= insts@.len(),
            dm == datas_model(datas@),
            im == insts_model(insts@),
            check_label_exists_from(dm, im, 0) == check_label_exists_from(dm, im, i as int),
        decreases insts@.len() - i,
    {
        proof {
            assert(im[i as int] == crate::unresolved::inst_model(insts@[i as int]));
        }
        match value_operand_ref(&insts[i].kind) {
            Some(Value::DataLabel(n)) => {
                if !contains_data_label(datas, n) {
                    return Err(AsmError::UnknownLabel(n.clone()));
                }
            },
            Some(Value::InstLabel(n)) => {
                if !contains_inst_label(insts, n) {
                    return Err(AsmError::UnknownLabel(n.clone()));
                }
            },
            _ => {},
        }
        i = i + 1;
    }
    Ok(())
}

/// Label usage from position `i` on: a branch operand may reference an
/// instruction label, never a data label.
pub open spec fn check_label_usage_from(insts: Seq<InstV>, i: int) -> Result<(), ErrV>
    decreases insts.len() - i,
{
    if i < 0 || i >= insts.len() {
        Ok(())
    } else if insts[i].kind.is_branch() && (match insts[i].kind.value_operand() {
        Some(ValueV::DataLabel(_)) => true,
        _ => false,
    }) {
        Err(
            ErrV::InvalidLabelUsage(
                match insts[i].kind.value_operand() {
                    Some(ValueV::DataLabel(n)) => n,
                    _ => Seq::<char>::empty(),
                },
            ),
        )
    } else {
        check_label_usage_from(insts, i + 1)
    }
}

fn check_label_usage(insts: &Vec<Inst>) -> (r: Result<(), AsmError>)
    ensures
        match r {
            Ok(_) => check_label_usage_from(insts_model(insts@), 0) is Ok,
            Err(e) => check_label_usage_from(insts_model(insts@), 0) == Err::<(), ErrV>(
                err_model(e),
            ),
        },
{
    let ghost im = insts_model(insts@);
    let mut i: usize = 0;
    while i < insts.len()
        invariant
            0 <= i <= insts@.len(),
            im == insts_model(insts@),
            check_label_usage_from(im, 0) == check_label_usage_from(im, i as int),
        decreases insts@.len() - i,
    {
        proof {
            assert(im[i as int] == crate::unresolved::inst_model(insts@[i as int]));
        }
        if is_branch_kind(&insts[i].kind) {
            match value_operand_ref(&insts[i].kind) {
                Some(Value::DataLabel(n)) => {
                    return Err(AsmError::InvalidLabelUsage(n.clone()));
                },
                _ => {},
            }
        }
        i = i + 1;
    }
    Ok(())
}

/// Whether every register field of `k` fits the bit width its format
/// gives that slot: a 5-bit slot holds 0 to 31, a 3-bit slot 0 to 7.
pub open spec fn reg_ok(k: InstKindV) -> bool {
    match k {
            InstKindV::Add { rd, rs1, rs2 } => rd <= 31 && rs1 <= 31 && rs2 <= 31,
            InstKindV::Sub { rd, rs1, rs2 } => rd <= 31 && rs1 <= 31 && rs2 <= 31,
            InstKindV::And { rd, rs1, rs2 } => rd <= 31 && rs1 <= 31 && rs2 <= 31,
            InstKindV::Or { rd, rs1, rs2 } => rd <= 31 && rs1 <= 31 && rs2 <= 31,
            InstKindV::Xor { rd, rs1, rs2 } => rd <= 31 && rs1 <= 31 && rs2 <= 31,
            InstKindV::Srl { rd, rs1, rs2 } => rd <= 31 && rs1 <= 31 && rs2 <= 31,
            InstKindV::Sra { rd, rs1, rs2 } => rd <= 31 && rs1 <= 31 && rs2 <= 31,
            InstKindV::Sll { rd, rs1, rs2 } => rd <= 31 && rs1 <= 31 && rs2 <= 31,
            InstKindV::Addi { rd, rs1, .. } => rd <= 31 && rs1 <= 7,
            InstKindV::Subi { rd, rs1, .. } => rd <= 31 && rs1 <= 7,
            InstKindV::Andi { rd, rs1, .. } => rd <= 31 && rs1 <= 7,
            InstKindV::Ori { rd, rs1, .. } => rd <= 31 && rs1 <= 7,
            InstKindV::Xori { rd, rs1, .. } => rd <= 31 && rs1 <= 7,
            InstKindV::Srli { rd, rs1, .. } => rd <= 31 && rs1 <= 7,
            InstKindV::Srai { rd, rs1, .. } => rd <= 31 && rs1 <= 7,
            InstKindV::Slli { rd, rs1, .. } => rd <= 31 && rs1 <= 7,
            InstKindV::Beq { rd, rs1, rs2, .. } => rd <= 31 && rs1 <= 31 && rs2 <= 31,
            InstKindV::Bne { rd, rs1, rs2, .. } => rd <= 31 && rs1 <= 31 && rs2 <= 31,
            InstKindV::Blt { rd, rs1, rs2, .. } => rd <= 31 && rs1 <= 31 && rs2 <= 31,
            InstKindV::Ble { rd, rs1, rs2, .. } => rd <= 31 && rs1 <= 31 && rs2 <= 31,
            InstKindV::Jal { rd, rs1, .. } => rd <= 31 && rs1 <= 7,
            InstKindV::Lw { rd, rs1, .. } => rd <= 31 && rs1 <= 7,
            InstKindV::Lh { rd, rs1, .. } => rd <= 31 && rs1 <= 7,
            InstKindV::Lb { rd, rs1, .. } => rd <= 31 && rs1 <= 7,
            InstKindV::Lhu { rd, rs1, .. } => rd <= 31 && rs1 <= 7,
            InstKindV::Lbu { rd, rs1, .. } => rd <= 31 && rs1 <= 7,
            InstKindV::In { rd, rs1, .. } => rd <= 31 && rs1 <= 7,
            InstKindV::Sw { rs1, rs2, .. } => rs1 <= 7 && rs2 <= 31,
            InstKindV::Sh { rs1, rs2, .. } => rs1 <= 7 && rs2 <= 31,
            InstKindV::Sb { rs1, rs2, .. } => rs1 <= 7 && rs2 <= 31,
            InstKindV::Out { rs1, rs2, .. } => rs1 <= 7 && rs2 <= 31,
            InstKindV::Isb { rs1, rs2, .. } => rs1 <= 7 && rs2 <= 31,
    }
}

fn regs_ok(k: &InstKind) -> (r: bool)
    ensures
        r == reg_ok(kind_model(*k)),
{
    match k {
            InstKind::Add { rd, rs1, rs2 } => *rd <= 31 && *rs1 <= 31 && *rs2 <= 31,
            InstKind::Sub { rd, rs1, rs2 } => *rd <= 31 && *rs1 <= 31 && *rs2 <= 31,
            InstKind::And { rd, rs1, rs2 } => *rd <= 31 && *rs1 <= 31 && *rs2 <= 31,
            InstKind::Or { rd, rs1, rs2 } => *rd <= 31 && *rs1 <= 31 && *rs2 <= 31,
            InstKind::Xor { rd, rs1, rs2 } => *rd <= 31 && *rs1 <= 31 && *rs2 <= 31,
            InstKind::Srl { rd, rs1, rs2 } => *rd <= 31 && *rs1 <= 31 && *rs2 <= 31,
            InstKind::Sra { rd, rs1, rs2 } => *rd <= 31 && *rs1 <= 31 && *rs2 <= 31,
            InstKind::Sll { rd, rs1, rs2 } => *rd <= 31 && *rs1 <= 31 && *rs2 <= 31,
            InstKind::Addi { rd, rs1, .. } => *rd <= 31 && *rs1 <= 7,
            InstKind::Subi { rd, rs1, .. } => *rd <= 31 && *rs1 <= 7,
            InstKind::Andi { rd, rs1, .. } => *rd <= 31 && *rs1 <= 7,
            InstKind::Ori { rd, rs1, .. } => *rd <= 31 && *rs1 <= 7,
            InstKind::Xori { rd, rs1, .. } => *rd <= 31 && *rs1 <= 7,
            InstKind::Srli { rd, rs1, .. } => *rd <= 31 && *rs1 <= 7,
            InstKind::Srai { rd, rs1, .. } => *rd <= 31 && *rs1 <= 7,
            InstKind::Slli { rd, rs1, .. } => *rd <= 31 && *rs1 <= 7,
            InstKind::Beq { rd, rs1, rs2, .. } => *rd <= 31 && *rs1 <= 31 && *rs2 <= 31,
            InstKind::Bne { rd, rs1, rs2, .. } => *rd <= 31 && *rs1 <= 31 && *rs2 <= 31,
            InstKind::Blt { rd, rs1, rs2, .. } => *rd <= 31 && *rs1 <= 31 && *rs2 <= 31,
            InstKind::Ble { rd, rs1, rs2, .. } => *rd <= 31 && *rs1 <= 31 && *rs2 <= 31,
            InstKind::Jal { rd, rs1, .. } => *rd <= 31 && *rs1 <= 7,
            InstKind::Lw { rd, rs1, .. } => *rd <= 31 && *rs1 <= 7,
            InstKind::Lh { rd, rs1, .. } => *rd <= 31 && *rs1 <= 7,
            InstKind::Lb { rd, rs1, .. } => *rd <= 31 && *rs1 <= 7,
            InstKind::Lhu { rd, rs1, .. } => *rd <= 31 && *rs1 <= 7,
            InstKind::Lbu { rd, rs1, .. } => *rd <= 31 && *rs1 <= 7,
            InstKind::In { rd, rs1, .. } => *rd <= 31 && *rs1 <= 7,
            InstKind::Sw { rs1, rs2, .. } => *rs1 <= 7 && *rs2 <= 31,
            InstKind::Sh { rs1, rs2, .. } => *rs1 <= 7 && *rs2 <= 31,
            InstKind::Sb { rs1, rs2, .. } => *rs1 <= 7 && *rs2 <= 31,
            InstKind::Out { rs1, rs2, .. } => *rs1 <= 7 && *rs2 <= 31,
            InstKind::Isb { rs1, rs2, .. } => *rs1 <= 7 && *rs2 <= 31,
    }
}

/// Register ranges from position `i` on.
pub open spec fn check_reg_range_from(insts: Seq<InstV>, i: int) -> Result<(), ErrV>
    decreases insts.len() - i,
{
    if i < 0 || i >= insts.len() {
        Ok(())
    } else if !reg_ok(insts[i].kind) {
        Err(ErrV::RegisterRange(insts[i].kind.mnemonic_of()))
    } else {
        check_reg_range_from(insts, i + 1)
    }
}

fn check_reg_range(insts: &Vec<Inst>) -> (r: Result<(), AsmError>)
    ensures
        match r {
            Ok(_) => check_reg_range_from(insts_model(insts@), 0) is Ok,
            Err(e) => check_reg_range_from(insts_model(insts@), 0) == Err::<(), ErrV>(
                err_model(e),
            ),
        },
{
    let ghost im = insts_model(insts@);
    let mut i: usize = 0;
    while i < insts.len()
        invariant
            0 <= i <= insts@.len(),
            im == insts_model(insts@),
            check_reg_range_from(im, 0) == check_reg_range_from(im, i as int),
        decreases insts@.len() - i,
    {
        proof {
            assert(im[i as int] == crate::unresolved::inst_model(insts@[i as int]));
        }
        if !regs_ok(&insts[i].kind) {
            return Err(AsmError::RegisterRange(insts[i].kind.mnemonic()));
        }
        i = i + 1;
    }
    Ok(())
}

/// Whether a literal value operand fits its field: an unsigned 32-bit
/// value for the ALU-immediate family, a signed 25-bit displacement for
/// the branch family. Label operands are range-checked after resolution.
pub open spec fn value_ok(k: InstKindV) -> bool {
    match k.value_operand() {
        Some(ValueV::Imm(n)) => if k.is_branch() {
            -0x1000000 <= n <= 0xffffff
        } else {
            0 <= n <= 0xffffffff
        },
        _ => true,
    }
}

/// Immediate ranges from position `i` on.
pub open spec fn check_value_range_from(insts: Seq<InstV>, i: int) -> Result<(), ErrV>
    decreases insts.len() - i,
{
    if i < 0 || i >= insts.len() {
        Ok(())
    } else if !value_ok(insts[i].kind) {
        Err(ErrV::ImmediateRange(insts[i].kind.mnemonic_of()))
    } else {
        check_value_range_from(insts, i + 1)
    }
}

fn check_value_range(insts: &Vec<Inst>) -> (r: Result<(), AsmError>)
    ensures
        match r {
            Ok(_) => check_value_range_from(insts_model(insts@), 0) is Ok,
            Err(e) => check_value_range_from(insts_model(insts@), 0) == Err::<(), ErrV>(
                err_model(e),
            ),
        },
{
    let ghost im = insts_model(insts@);
    let mut i: usize = 0;
    while i < insts.len()
        invariant
            0 <= i <= insts@.len(),
            im == insts_model(insts@),
            check_value_range_from(im, 0) == check_value_range_from(im, i as int),
        decreases insts@.len() - i,
    {
        proof {
            assert(im[i as int] == crate::unresolved::inst_model(insts@[i as int]));
        }
        let bad = {
            let branch = is_branch_kind(&insts[i].kind);
            match value_operand_ref(&insts[i].kind) {
                Some(Value::Imm(n)) => {
                    if branch {
                        !(-0x1000000 <= *n && *n <= 0xffffff)
                    } else {
                        !(0 <= *n && *n <= 0xffffffff)
                    }
                },
                _ => false,
            }
        };
        if bad {
            return Err(AsmError::ImmediateRange(insts[i].kind.mnemonic()));
        }
        i = i + 1;
    }
    Ok(())
}

/// The whole validation: the four passes in order, first violation
/// first.
pub open spec fn check_spec(datas: Seq<DataV>, insts: Seq<InstV>) -> Result<(), ErrV> {
    match check_label_exists_from(datas, insts, 0) {
        Ok(_) => match check_label_usage_from(insts, 0) {
            Ok(_) => match check_reg_range_from(insts, 0) {
                Ok(_) => check_value_range_from(insts, 0),
                Err(e) => Err(e),
            },
            Err(e) => Err(e),
        },
        Err(e) => Err(e),
    }
}

/// Validates the parsed program: label existence, label usage, register
/// ranges, immediate ranges, in that order, failing on the first
/// violation.
pub fn check(datas: &Vec<Data>, insts: &Vec<Inst>) -> (r: Result<(), AsmError>)
    ensures
        match r {
            Ok(_) => check_spec(datas_model(datas@), insts_model(insts@)) is Ok,
            Err(e) => check_spec(datas_model(datas@), insts_model(insts@)) == Err::<(), ErrV>(
                err_model(e),
            ),
        },
{
    match check_label_exists(datas, insts) {
        Ok(_) => {},
        Err(e) => {
            return Err(e);
        },
    }
    match check_label_usage(insts) {
        Ok(_) => {},
        Err(e) => {
            return Err(e);
        },
    }
    match check_reg_range(insts) {
        Ok(_) => {},
        Err(e) => {
            return Err(e);
        },
    }
    check_value_range(insts)
}

proof fn lemma_usage_scan_ok(insts: Seq<InstV>, i: int, j: int)
    requires
        check_label_usage_from(insts, i) is Ok,
        0 <= i <= j < insts.len(),
    ensures
        !(insts[j].kind.is_branch() && insts[j].kind.value_operand() matches Some(
            ValueV::DataLabel(_),
        )),
    decreases j - i,
{
    if i < j {
        lemma_usage_scan_ok(insts, i + 1, j);
    }
}

/// Law: a program that passes validation carries no data-label operand
/// on any branch instruction; a data label standing where a branch
/// expects its target is always rejected, never silently accepted.
pub proof fn lemma_check_no_branch_data_label(datas: Seq<DataV>, insts: Seq<InstV>)
    requires
        check_spec(datas, insts) is Ok,
    ensures
        forall|j: int|
            0 <= j < insts.len() ==> !(#[trigger] insts[j].kind.is_branch()
                && insts[j].kind.value_operand() matches Some(ValueV::DataLabel(_))),
{
    assert forall|j: int|
        0 <= j < insts.len() implies !(#[trigger] insts[j].kind.is_branch()
        && insts[j].kind.value_operand() matches Some(ValueV::DataLabel(_))) by {
        lemma_usage_scan_ok(insts, 0, j);
    }
}

proof fn lemma_reg_scan_ok(insts: Seq<InstV>, i: int, j: int)
    requires
        check_reg_range_from(insts, i) is Ok,
        0 <= i <= j < insts.len(),
    ensures
        reg_ok(insts[j].kind),
    decreases j - i,
{
    if i < j {
        lemma_reg_scan_ok(insts, i + 1, j);
    }
}

/// Law: a program that passes validation has every register field
/// within the bit width of its slot; an index 8 in a 3-bit slot or 32
/// in a 5-bit slot is always rejected.
pub proof fn lemma_check_register_ranges(datas: Seq<DataV>, insts: Seq<InstV>)
    requires
        check_spec(datas, insts) is Ok,
    ensures
        forall|j: int| 0 <= j < insts.len() ==> #[trigger] reg_ok(insts[j].kind),
{
    assert forall|j: int| 0 <= j < insts.len() implies #[trigger] reg_ok(insts[j].kind) by {
        lemma_reg_scan_ok(insts, 0, j);
    }
}

proof fn lemma_value_scan_ok(insts: Seq<InstV>, i: int, j: int)
    requires
        check_value_range_from(insts, i) is Ok,
        0 <= i <= j < insts.len(),
    ensures
        value_ok(insts[j].kind),
    decreases j - i,
{
    if i < j {
        lemma_value_scan_ok(insts, i + 1, j);
    }
}

/// Law: a program that passes validation has every literal value
/// operand within its field: an ALU immediate fits unsigned 32 bits and
/// a literal branch displacement fits the signed 25-bit interval.
pub proof fn lemma_check_value_ranges(datas: Seq<DataV>, insts: Seq<InstV>)
    requires
        check_spec(datas, insts) is Ok,
    ensures
        forall|j: int| 0 <= j < insts.len() ==> #[trigger] value_ok(insts[j].kind),
{
    assert forall|j: int| 0 <= j < insts.len() implies #[trigger] value_ok(insts[j].kind) by {
        lemma_value_scan_ok(insts, 0, j);
    }
}

proof fn lemma_exists_scan_ok(datas: Seq<DataV>, insts: Seq<InstV>, i: int, j: int)
    requires
        check_label_exists_from(datas, insts, i) is Ok,
        0 <= i <= j < insts.len(),
    ensures
        (insts[j].kind.value_operand() matches Some(ValueV::DataLabel(n)) ==> has_data_label(
            datas,
            n,
        )),
        (insts[j].kind.value_operand() matches Some(ValueV::InstLabel(n)) ==> has_inst_label(
            insts,
            n,
        )),
    decreases j - i,
{
    if i < j {
        lemma_exists_scan_ok(datas, insts, i + 1, j);
    }
}

/// Law: a program that passes validation references only labels that
/// are declared in their own namespace.
pub proof fn lemma_check_labels_exist(datas: Seq<DataV>, insts: Seq<InstV>)
    requires
        check_spec(datas, insts) is Ok,
    ensures
        forall|j: int|
            0 <= j < insts.len() ==> ((#[trigger] insts[j].kind.value_operand()) matches Some(
                ValueV::DataLabel(n),
            ) ==> has_data_label(datas, n)),
        forall|j: int|
            0 <= j < insts.len() ==> ((#[trigger] insts[j].kind.value_operand()) matches Some(
                ValueV::InstLabel(n),
            ) ==> has_inst_label(insts, n)),
{
    assert forall|j: int| 0 <= j < insts.len() implies ((#[trigger] insts[j].kind.value_operand())
        matches Some(ValueV::DataLabel(n)) ==> has_data_label(datas, n)) && ((
    insts[j].kind.value_operand()) matches Some(ValueV::InstLabel(n)) ==> has_inst_label(
        insts,
        n,
    )) by {
        lemma_exists_scan_ok(datas, insts, 0, j);
    }
}

} // verus!
