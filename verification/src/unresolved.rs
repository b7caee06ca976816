//! Instructions as the parser produces them: register fields are
//! concrete, but a value operand may still be a literal or a label
//! reference that resolution will rewrite.
use vstd::prelude::*;

verus! {

/// A value operand: a data-label reference, an instruction-label
/// reference, or a signed literal.
#[derive(Debug)]
pub enum Value {
    DataLabel(String),
    InstLabel(String),
    Imm(i64),
}

/// The mathematical shape of a [`Value`].
pub enum ValueV {
    DataLabel(Seq<char>),
    InstLabel(Seq<char>),
    Imm(i64),
}

pub open spec fn value_model(v: Value) -> ValueV {
    match v {
        Value::DataLabel(s) => ValueV::DataLabel(s@),
        Value::InstLabel(s) => ValueV::InstLabel(s@),
        Value::Imm(n) => ValueV::Imm(n),
    }
}

/// One instruction kind per mnemonic, carrying its format's fields.
#[derive(Debug)]
pub enum InstKind {
    Add { rd: u8, rs1: u8, rs2: u8 },
    Sub { rd: u8, rs1: u8, rs2: u8 },
    And { rd: u8, rs1: u8, rs2: u8 },
    Or { rd: u8, rs1: u8, rs2: u8 },
    Xor { rd: u8, rs1: u8, rs2: u8 },
    Srl { rd: u8, rs1: u8, rs2: u8 },
    Sra { rd: u8, rs1: u8, rs2: u8 },
    Sll { rd: u8, rs1: u8, rs2: u8 },
    Addi { rd: u8, rs1: u8, val: Value },
    Subi { rd: u8, rs1: u8, val: Value },
    Andi { rd: u8, rs1: u8, val: Value },
    Ori { rd: u8, rs1: u8, val: Value },
    Xori { rd: u8, rs1: u8, val: Value },
    Srli { rd: u8, rs1: u8, val: Value },
    Srai { rd: u8, rs1: u8, val: Value },
    Slli { rd: u8, rs1: u8, val: Value },
    Beq { rd: u8, rs1: u8, rs2: u8, val: Value },
    Bne { rd: u8, rs1: u8, rs2: u8, val: Value },
    Blt { rd: u8, rs1: u8, rs2: u8, val: Value },
    Ble { rd: u8, rs1: u8, rs2: u8, val: Value },
    Jal { rd: u8, rs1: u8, imm: i32 },
    Lw { rd: u8, rs1: u8, imm: i32 },
    Lh { rd: u8, rs1: u8, imm: i32 },
    Lb { rd: u8, rs1: u8, imm: i32 },
    Lhu { rd: u8, rs1: u8, imm: i32 },
    Lbu { rd: u8, rs1: u8, imm: i32 },
    In { rd: u8, rs1: u8, imm: i32 },
    Sw { rs1: u8, rs2: u8, imm: i32 },
    Sh { rs1: u8, rs2: u8, imm: i32 },
    Sb { rs1: u8, rs2: u8, imm: i32 },
    Out { rs1: u8, rs2: u8, imm: i32 },
    Isb { rs1: u8, rs2: u8, imm: i32 },
}

/// The mathematical shape of an [`InstKind`].
pub enum InstKindV {
    Add { rd: u8, rs1: u8, rs2: u8 },
    Sub { rd: u8, rs1: u8, rs2: u8 },
    And { rd: u8, rs1: u8, rs2: u8 },
    Or { rd: u8, rs1: u8, rs2: u8 },
    Xor { rd: u8, rs1: u8, rs2: u8 },
    Srl { rd: u8, rs1: u8, rs2: u8 },
    Sra { rd: u8, rs1: u8, rs2: u8 },
    Sll { rd: u8, rs1: u8, rs2: u8 },
    Addi { rd: u8, rs1: u8, val: ValueV },
    Subi { rd: u8, rs1: u8, val: ValueV },
    Andi { rd: u8, rs1: u8, val: ValueV },
    Ori { rd: u8, rs1: u8, val: ValueV },
    Xori { rd: u8, rs1: u8, val: ValueV },
    Srli { rd: u8, rs1: u8, val: ValueV },
    Srai { rd: u8, rs1: u8, val: ValueV },
    Slli { rd: u8, rs1: u8, val: ValueV },
    Beq { rd: u8, rs1: u8, rs2: u8, val: ValueV },
    Bne { rd: u8, rs1: u8, rs2: u8, val: ValueV },
    Blt { rd: u8, rs1: u8, rs2: u8, val: ValueV },
    Ble { rd: u8, rs1: u8, rs2: u8, val: ValueV },
    Jal { rd: u8, rs1: u8, imm: i32 },
    Lw { rd: u8, rs1: u8, imm: i32 },
    Lh { rd: u8, rs1: u8, imm: i32 },
    Lb { rd: u8, rs1: u8, imm: i32 },
    Lhu { rd: u8, rs1: u8, imm: i32 },
    Lbu { rd: u8, rs1: u8, imm: i32 },
    In { rd: u8, rs1: u8, imm: i32 },
    Sw { rs1: u8, rs2: u8, imm: i32 },
    Sh { rs1: u8, rs2: u8, imm: i32 },
    Sb { rs1: u8, rs2: u8, imm: i32 },
    Out { rs1: u8, rs2: u8, imm: i32 },
    Isb { rs1: u8, rs2: u8, imm: i32 },
}

pub open spec fn kind_model(k: InstKind) -> InstKindV {
    match k {
        InstKind::Add { rd, rs1, rs2 } => InstKindV::Add { rd, rs1, rs2 },
        InstKind::Sub { rd, rs1, rs2 } => InstKindV::Sub { rd, rs1, rs2 },
        InstKind::And { rd, rs1, rs2 } => InstKindV::And { rd, rs1, rs2 },
        InstKind::Or { rd, rs1, rs2 } => InstKindV::Or { rd, rs1, rs2 },
        InstKind::Xor { rd, rs1, rs2 } => InstKindV::Xor { rd, rs1, rs2 },
        InstKind::Srl { rd, rs1, rs2 } => InstKindV::Srl { rd, rs1, rs2 },
        InstKind::Sra { rd, rs1, rs2 } => InstKindV::Sra { rd, rs1, rs2 },
        InstKind::Sll { rd, rs1, rs2 } => InstKindV::Sll { rd, rs1, rs2 },
        InstKind::Addi { rd, rs1, val } => InstKindV::Addi { rd, rs1, val: value_model(val) },
        InstKind::Subi { rd, rs1, val } => InstKindV::Subi { rd, rs1, val: value_model(val) },
        InstKind::Andi { rd, rs1, val } => InstKindV::Andi { rd, rs1, val: value_model(val) },
        InstKind::Ori { rd, rs1, val } => InstKindV::Ori { rd, rs1, val: value_model(val) },
        InstKind::Xori { rd, rs1, val } => InstKindV::Xori { rd, rs1, val: value_model(val) },
        InstKind::Srli { rd, rs1, val } => InstKindV::Srli { rd, rs1, val: value_model(val) },
        InstKind::Srai { rd, rs1, val } => InstKindV::Srai { rd, rs1, val: value_model(val) },
        InstKind::Slli { rd, rs1, val } => InstKindV::Slli { rd, rs1, val: value_model(val) },
        InstKind::Beq { rd, rs1, rs2, val } => InstKindV::Beq {
            rd,
            rs1,
            rs2,
            val: value_model(val),
        },
        InstKind::Bne { rd, rs1, rs2, val } => InstKindV::Bne {
            rd,
            rs1,
            rs2,
            val: value_model(val),
        },
        InstKind::Blt { rd, rs1, rs2, val } => InstKindV::Blt {
            rd,
            rs1,
            rs2,
            val: value_model(val),
        },
        InstKind::Ble { rd, rs1, rs2, val } => InstKindV::Ble {
            rd,
            rs1,
            rs2,
            val: value_model(val),
        },
        InstKind::Jal { rd, rs1, imm } => InstKindV::Jal { rd, rs1, imm },
        InstKind::Lw { rd, rs1, imm } => InstKindV::Lw { rd, rs1, imm },
        InstKind::Lh { rd, rs1, imm } => InstKindV::Lh { rd, rs1, imm },
        InstKind::Lb { rd, rs1, imm } => InstKindV::Lb { rd, rs1, imm },
        InstKind::Lhu { rd, rs1, imm } => InstKindV::Lhu { rd, rs1, imm },
        InstKind::Lbu { rd, rs1, imm } => InstKindV::Lbu { rd, rs1, imm },
        InstKind::In { rd, rs1, imm } => InstKindV::In { rd, rs1, imm },
        InstKind::Sw { rs1, rs2, imm } => InstKindV::Sw { rs1, rs2, imm },
        InstKind::Sh { rs1, rs2, imm } => InstKindV::Sh { rs1, rs2, imm },
        InstKind::Sb { rs1, rs2, imm } => InstKindV::Sb { rs1, rs2, imm },
        InstKind::Out { rs1, rs2, imm } => InstKindV::Out { rs1, rs2, imm },
        InstKind::Isb { rs1, rs2, imm } => InstKindV::Isb { rs1, rs2, imm },
    }
}

/// One unresolved instruction with its optional label.
#[derive(Debug)]
pub struct Inst {
    pub kind: InstKind,
    pub label: Option<String>,
}

/// The mathematical shape of an unresolved [`Inst`].
pub struct InstV {
    pub kind: InstKindV,
    pub label: Option<Seq<char>>,
}

pub open spec fn inst_model(i: Inst) -> InstV {
    InstV {
        kind: kind_model(i.kind),
        label: match i.label {
            Some(s) => Some(s@),
            None => None,
        },
    }
}

pub open spec fn insts_model(v: Seq<Inst>) -> Seq<InstV> {
    v.map_values(|i: Inst| inst_model(i))
}

impl InstKindV {
    /// The value operand of the ALU-immediate and branch families;
    /// `None` for every other format.
    pub open spec fn value_operand(self) -> Option<ValueV> {
        match self {
            InstKindV::Addi { val, .. } => Some(val),
            InstKindV::Subi { val, .. } => Some(val),
            InstKindV::Andi { val, .. } => Some(val),
            InstKindV::Ori { val, .. } => Some(val),
            InstKindV::Xori { val, .. } => Some(val),
            InstKindV::Srli { val, .. } => Some(val),
            InstKindV::Srai { val, .. } => Some(val),
            InstKindV::Slli { val, .. } => Some(val),
            InstKindV::Beq { val, .. } => Some(val),
            InstKindV::Bne { val, .. } => Some(val),
            InstKindV::Blt { val, .. } => Some(val),
            InstKindV::Ble { val, .. } => Some(val),
            _ => None,
        }
    }

    /// Whether this is a branch-family instruction.
    pub open spec fn is_branch(self) -> bool {
        match self {
            InstKindV::Beq { .. } => true,
            InstKindV::Bne { .. } => true,
            InstKindV::Blt { .. } => true,
            InstKindV::Ble { .. } => true,
            _ => false,
        }
    }
}

impl InstKindV {
    /// The textual mnemonic of this instruction kind.
    pub open spec fn mnemonic_of(self) -> Seq<char> {
        match self {
            InstKindV::Add { .. } => "add"@,
            InstKindV::Sub { .. } => "sub"@,
            InstKindV::And { .. } => "and"@,
            InstKindV::Or { .. } => "or"@,
            InstKindV::Xor { .. } => "xor"@,
            InstKindV::Srl { .. } => "srl"@,
            InstKindV::Sra { .. } => "sra"@,
            InstKindV::Sll { .. } => "sll"@,
            InstKindV::Addi { .. } => "addi"@,
            InstKindV::Subi { .. } => "subi"@,
            InstKindV::Andi { .. } => "andi"@,
            InstKindV::Ori { .. } => "ori"@,
            InstKindV::Xori { .. } => "xori"@,
            InstKindV::Srli { .. } => "srli"@,
            InstKindV::Srai { .. } => "srai"@,
            InstKindV::Slli { .. } => "slli"@,
            InstKindV::Beq { .. } => "beq"@,
            InstKindV::Bne { .. } => "bne"@,
            InstKindV::Blt { .. } => "blt"@,
            InstKindV::Ble { .. } => "ble"@,
            InstKindV::Jal { .. } => "jal"@,
            InstKindV::Lw { .. } => "lw"@,
            InstKindV::Lh { .. } => "lh"@,
            InstKindV::Lb { .. } => "lb"@,
            InstKindV::Lhu { .. } => "lhu"@,
            InstKindV::Lbu { .. } => "lbu"@,
            InstKindV::In { .. } => "in"@,
            InstKindV::Sw { .. } => "sw"@,
            InstKindV::Sh { .. } => "sh"@,
            InstKindV::Sb { .. } => "sb"@,
            InstKindV::Out { .. } => "out"@,
            InstKindV::Isb { .. } => "isb"@,
        }
    }
}

impl InstKind {
    /// The textual mnemonic of this instruction kind.
    pub fn mnemonic(&self) -> (r: String)
        ensures
            r@ == kind_model(*self).mnemonic_of(),
    {
        match self {
            InstKind::Add { .. } => String::from_str("add"),
            InstKind::Sub { .. } => String::from_str("sub"),
            InstKind::And { .. } => String::from_str("and"),
            InstKind::Or { .. } => String::from_str("or"),
            InstKind::Xor { .. } => String::from_str("xor"),
            InstKind::Srl { .. } => String::from_str("srl"),
            InstKind::Sra { .. } => String::from_str("sra"),
            InstKind::Sll { .. } => String::from_str("sll"),
            InstKind::Addi { .. } => String::from_str("addi"),
            InstKind::Subi { .. } => String::from_str("subi"),
            InstKind::Andi { .. } => String::from_str("andi"),
            InstKind::Ori { .. } => String::from_str("ori"),
            InstKind::Xori { .. } => String::from_str("xori"),
            InstKind::Srli { .. } => String::from_str("srli"),
            InstKind::Srai { .. } => String::from_str("srai"),
            InstKind::Slli { .. } => String::from_str("slli"),
            InstKind::Beq { .. } => String::from_str("beq"),
            InstKind::Bne { .. } => String::from_str("bne"),
            InstKind::Blt { .. } => String::from_str("blt"),
            InstKind::Ble { .. } => String::from_str("ble"),
            InstKind::Jal { .. } => String::from_str("jal"),
            InstKind::Lw { .. } => String::from_str("lw"),
            InstKind::Lh { .. } => String::from_str("lh"),
            InstKind::Lb { .. } => String::from_str("lb"),
            InstKind::Lhu { .. } => String::from_str("lhu"),
            InstKind::Lbu { .. } => String::from_str("lbu"),
            InstKind::In { .. } => String::from_str("in"),
            InstKind::Sw { .. } => String::from_str("sw"),
            InstKind::Sh { .. } => String::from_str("sh"),
            InstKind::Sb { .. } => String::from_str("sb"),
            InstKind::Out { .. } => String::from_str("out"),
            InstKind::Isb { .. } => String::from_str("isb"),
        }
    }
}

} // verus!
