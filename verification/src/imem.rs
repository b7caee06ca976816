//! The instruction parser. A line `@name` declares a label for the next
//! instruction; every other line is classified by its surface syntax:
//! branch form `kind rd, (rs1, rs2) -> operand`, assignment form
//! `kind rd = rs1, operand`, indexed load `kind rd = rs1[imm]`, indexed
//! store `kind rs1[imm] = rs2`, and jump form `kind rd, rs1[imm]`.
use vstd::prelude::*;

use crate::error::{err_model, AsmError, ErrV};
use crate::numbers::{digits_spec, parse_digits, parse_number, parse_number_spec};
use crate::text::{
    chars_of, clean_lines, clean_lines_spec, find_char, find_char_spec, find_pair, find_pair_spec,
    find_space, find_space_spec, remove_char, remove_char_spec, split_char, split_char_spec,
    string_of, strip_spaces, strip_spaces_spec, subvec, text_eq, trim, trim_spec,
};
use crate::unresolved::{
    inst_model, insts_model, kind_model, value_model, Inst, InstKind, InstKindV, InstV, Value,
    ValueV,
};

verus! {

/// The views of a list of character vectors.
pub open spec fn views(v: Seq<Vec<char>>) -> Seq<Seq<char>> {
    v.map_values(|p: Vec<char>| p@)
}

/// A register operand: `r` followed by a decimal index that fits a byte.
pub open spec fn parse_reg_spec(s: Seq<char>) -> Result<u8, ErrV> {
    if s.len() >= 2 && s[0] == 'r' {
        match digits_spec(s.skip(1), 10) {
            Some(m) => if m <= 255 {
                Ok(m as u8)
            } else {
                Err(ErrV::Syntax(s))
            },
            None => Err(ErrV::Syntax(s)),
        }
    } else {
        Err(ErrV::Syntax(s))
    }
}

fn parse_reg(v: &Vec<char>) -> (r: Result<u8, AsmError>)
    ensures
        match r {
            Ok(x) => parse_reg_spec(v@) == Ok::<u8, ErrV>(x),
            Err(e) => parse_reg_spec(v@) == Err::<u8, ErrV>(err_model(e)),
        },
{
    let n = v.len();
    if n >= 2 && v[0] == 'r' {
        proof {
            assert(v@.skip(1) =~= v@.subrange(1, n as int));
        }
        match parse_digits(v, 1, n, 10) {
            Some(m) => {
                if m <= 255 {
                    Ok(m as u8)
                } else {
                    Err(AsmError::Syntax(string_of(v)))
                }
            },
            None => Err(AsmError::Syntax(string_of(v))),
        }
    } else {
        Err(AsmError::Syntax(string_of(v)))
    }
}

/// An index offset operand: a signed literal that must fit the 32-bit
/// field of the load, store, and jump formats.
pub open spec fn parse_imm_spec(s: Seq<char>) -> Result<i32, ErrV> {
    match parse_number_spec(s) {
        Some(n) => if -0x80000000 <= n <= 0x7fffffff {
            Ok(n as i32)
        } else {
            Err(ErrV::ImmediateRange(s))
        },
        None => Err(ErrV::Syntax(s)),
    }
}

fn parse_imm(v: &Vec<char>) -> (r: Result<i32, AsmError>)
    ensures
        match r {
            Ok(x) => parse_imm_spec(v@) == Ok::<i32, ErrV>(x),
            Err(e) => parse_imm_spec(v@) == Err::<i32, ErrV>(err_model(e)),
        },
{
    match parse_number(v) {
        Some(n) => {
            if -0x80000000 <= n && n <= 0x7fffffff {
                Ok(n as i32)
            } else {
                Err(AsmError::ImmediateRange(string_of(v)))
            }
        },
        None => Err(AsmError::Syntax(string_of(v))),
    }
}

/// A value operand: a numeric literal first; failing that, a `$`-sigiled
/// data-label or `@`-sigiled instruction-label reference; anything else
/// is a syntax error.
pub open spec fn parse_value_spec(s: Seq<char>) -> Result<ValueV, ErrV> {
    match parse_number_spec(s) {
        Some(n) => Ok(ValueV::Imm(n)),
        None => if s.len() >= 2 && s[0] == '$' {
            Ok(ValueV::DataLabel(s.skip(1)))
        } else if s.len() >= 2 && s[0] == '@' {
            Ok(ValueV::InstLabel(s.skip(1)))
        } else {
            Err(ErrV::Syntax(s))
        },
    }
}

fn parse_value(v: &Vec<char>) -> (r: Result<Value, AsmError>)
    ensures
        match r {
            Ok(x) => parse_value_spec(v@) == Ok::<ValueV, ErrV>(value_model(x)),
            Err(e) => parse_value_spec(v@) == Err::<ValueV, ErrV>(err_model(e)),
        },
{
    match parse_number(v) {
        Some(n) => Ok(Value::Imm(n)),
        None => {
            let n = v.len();
            if n >= 2 && v[0] == '$' {
                let name = subvec(v, 1, n);
                proof {
                    assert(v@.skip(1) =~= v@.subrange(1, n as int));
                }
                Ok(Value::DataLabel(string_of(&name)))
            } else if n >= 2 && v[0] == '@' {
                let name = subvec(v, 1, n);
                proof {
                    assert(v@.skip(1) =~= v@.subrange(1, n as int));
                }
                Ok(Value::InstLabel(string_of(&name)))
            } else {
                Err(AsmError::Syntax(string_of(v)))
            }
        },
    }
}

/// Three register operands, as the R format takes.
pub open spec fn args_rrr_spec(kind: Seq<char>, args: Seq<Seq<char>>) -> Result<(u8, u8, u8), ErrV> {
    if args.len() != 3 {
        Err(ErrV::Syntax(kind))
    } else {
        match parse_reg_spec(args[0]) {
            Ok(a) => match parse_reg_spec(args[1]) {
                Ok(b) => match parse_reg_spec(args[2]) {
                    Ok(c) => Ok((a, b, c)),
                    Err(e) => Err(e),
                },
                Err(e) => Err(e),
            },
            Err(e) => Err(e),
        }
    }
}

fn args_rrr(kind: &Vec<char>, args: &Vec<Vec<char>>) -> (r: Result<(u8, u8, u8), AsmError>)
    ensures
        match r {
            Ok(t) => args_rrr_spec(kind@, views(args@)) == Ok::<(u8, u8, u8), ErrV>(t),
            Err(e) => args_rrr_spec(kind@, views(args@)) == Err::<(u8, u8, u8), ErrV>(err_model(e)),
        },
{
    proof {
        assert(views(args@).len() == args@.len());
    }
    if args.len() != 3 {
        return Err(AsmError::Syntax(string_of(kind)));
    }
    proof {
        assert(views(args@)[0] == args@[0]@);
        assert(views(args@)[1] == args@[1]@);
        assert(views(args@)[2] == args@[2]@);
    }
    let a = match parse_reg(&args[0]) {
        Ok(x) => x,
        Err(e) => {
            return Err(e);
        },
    };
    let b = match parse_reg(&args[1]) {
        Ok(x) => x,
        Err(e) => {
            return Err(e);
        },
    };
    let c = match parse_reg(&args[2]) {
        Ok(x) => x,
        Err(e) => {
            return Err(e);
        },
    };
    Ok((a, b, c))
}

/// Two registers and a value operand, as the ALU-immediate format takes.
pub open spec fn args_rrv_spec(kind: Seq<char>, args: Seq<Seq<char>>) -> Result<
    (u8, u8, ValueV),
    ErrV,
> {
    if args.len() != 3 {
        Err(ErrV::Syntax(kind))
    } else {
        match parse_reg_spec(args[0]) {
            Ok(a) => match parse_reg_spec(args[1]) {
                Ok(b) => match parse_value_spec(args[2]) {
                    Ok(v) => Ok((a, b, v)),
                    Err(e) => Err(e),
                },
                Err(e) => Err(e),
            },
            Err(e) => Err(e),
        }
    }
}

fn args_rrv(kind: &Vec<char>, args: &Vec<Vec<char>>) -> (r: Result<(u8, u8, Value), AsmError>)
    ensures
        match r {
            Ok(t) => args_rrv_spec(kind@, views(args@)) == Ok::<(u8, u8, ValueV), ErrV>(
                (t.0, t.1, value_model(t.2)),
            ),
            Err(e) => args_rrv_spec(kind@, views(args@)) == Err::<(u8, u8, ValueV), ErrV>(
                err_model(e),
            ),
        },
{
    proof {
        assert(views(args@).len() == args@.len());
    }
    if args.len() != 3 {
        return Err(AsmError::Syntax(string_of(kind)));
    }
    proof {
        assert(views(args@)[0] == args@[0]@);
        assert(views(args@)[1] == args@[1]@);
        assert(views(args@)[2] == args@[2]@);
    }
    let a = match parse_reg(&args[0]) {
        Ok(x) => x,
        Err(e) => {
            return Err(e);
        },
    };
    let b = match parse_reg(&args[1]) {
        Ok(x) => x,
        Err(e) => {
            return Err(e);
        },
    };
    let v = match parse_value(&args[2]) {
        Ok(x) => x,
        Err(e) => {
            return Err(e);
        },
    };
    Ok((a, b, v))
}

/// Three registers and a value operand, as the branch format takes.
pub open spec fn args_rrrv_spec(kind: Seq<char>, args: Seq<Seq<char>>) -> Result<
    (u8, u8, u8, ValueV),
    ErrV,
> {
    if args.len() != 4 {
        Err(ErrV::Syntax(kind))
    } else {
        match parse_reg_spec(args[0]) {
            Ok(a) => match parse_reg_spec(args[1]) {
                Ok(b) => match parse_reg_spec(args[2]) {
                    Ok(c) => match parse_value_spec(args[3]) {
                        Ok(v) => Ok((a, b, c, v)),
                        Err(e) => Err(e),
                    },
                    Err(e) => Err(e),
                },
                Err(e) => Err(e),
            },
            Err(e) => Err(e),
        }
    }
}

fn args_rrrv(kind: &Vec<char>, args: &Vec<Vec<char>>) -> (r: Result<(u8, u8, u8, Value), AsmError>)
    ensures
        match r {
            Ok(t) => args_rrrv_spec(kind@, views(args@)) == Ok::<(u8, u8, u8, ValueV), ErrV>(
                (t.0, t.1, t.2, value_model(t.3)),
            ),
            Err(e) => args_rrrv_spec(kind@, views(args@)) == Err::<(u8, u8, u8, ValueV), ErrV>(
                err_model(e),
            ),
        },
{
    proof {
        assert(views(args@).len() == args@.len());
    }
    if args.len() != 4 {
        return Err(AsmError::Syntax(string_of(kind)));
    }
    proof {
        assert(views(args@)[0] == args@[0]@);
        assert(views(args@)[1] == args@[1]@);
        assert(views(args@)[2] == args@[2]@);
        assert(views(args@)[3] == args@[3]@);
    }
    let a = match parse_reg(&args[0]) {
        Ok(x) => x,
        Err(e) => {
            return Err(e);
        },
    };
    let b = match parse_reg(&args[1]) {
        Ok(x) => x,
        Err(e) => {
            return Err(e);
        },
    };
    let c = match parse_reg(&args[2]) {
        Ok(x) => x,
        Err(e) => {
            return Err(e);
        },
    };
    let v = match parse_value(&args[3]) {
        Ok(x) => x,
        Err(e) => {
            return Err(e);
        },
    };
    Ok((a, b, c, v))
}

/// Two registers and an index offset, as the load and jump formats take.
pub open spec fn args_rri_spec(kind: Seq<char>, args: Seq<Seq<char>>) -> Result<
    (u8, u8, i32),
    ErrV,
> {
    if args.len() != 3 {
        Err(ErrV::Syntax(kind))
    } else {
        match parse_reg_spec(args[0]) {
            Ok(a) => match parse_reg_spec(args[1]) {
                Ok(b) => match parse_imm_spec(args[2]) {
                    Ok(n) => Ok((a, b, n)),
                    Err(e) => Err(e),
                },
                Err(e) => Err(e),
            },
            Err(e) => Err(e),
        }
    }
}

fn args_rri(kind: &Vec<char>, args: &Vec<Vec<char>>) -> (r: Result<(u8, u8, i32), AsmError>)
    ensures
        match r {
            Ok(t) => args_rri_spec(kind@, views(args@)) == Ok::<(u8, u8, i32), ErrV>(t),
            Err(e) => args_rri_spec(kind@, views(args@)) == Err::<(u8, u8, i32), ErrV>(
                err_model(e),
            ),
        },
{
    proof {
        assert(views(args@).len() == args@.len());
    }
    if args.len() != 3 {
        return Err(AsmError::Syntax(string_of(kind)));
    }
    proof {
        assert(views(args@)[0] == args@[0]@);
        assert(views(args@)[1] == args@[1]@);
        assert(views(args@)[2] == args@[2]@);
    }
    let a = match parse_reg(&args[0]) {
        Ok(x) => x,
        Err(e) => {
            return Err(e);
        },
    };
    let b = match parse_reg(&args[1]) {
        Ok(x) => x,
        Err(e) => {
            return Err(e);
        },
    };
    let n = match parse_imm(&args[2]) {
        Ok(x) => x,
        Err(e) => {
            return Err(e);
        },
    };
    Ok((a, b, n))
}

/// A register, an index offset, and a register, as the store format
/// takes them from `rs1[imm] = rs2`.
pub open spec fn args_rir_spec(kind: Seq<char>, args: Seq<Seq<char>>) -> Result<
    (u8, i32, u8),
    ErrV,
> {
    if args.len() != 3 {
        Err(ErrV::Syntax(kind))
    } else {
        match parse_reg_spec(args[0]) {
            Ok(a) => match parse_imm_spec(args[1]) {
                Ok(n) => match parse_reg_spec(args[2]) {
                    Ok(b) => Ok((a, n, b)),
                    Err(e) => Err(e),
                },
                Err(e) => Err(e),
            },
            Err(e) => Err(e),
        }
    }
}

fn args_rir(kind: &Vec<char>, args: &Vec<Vec<char>>) -> (r: Result<(u8, i32, u8), AsmError>)
    ensures
        match r {
            Ok(t) => args_rir_spec(kind@, views(args@)) == Ok::<(u8, i32, u8), ErrV>(t),
            Err(e) => args_rir_spec(kind@, views(args@)) == Err::<(u8, i32, u8), ErrV>(
                err_model(e),
            ),
        },
{
    proof {
        assert(views(args@).len() == args@.len());
    }
    if args.len() != 3 {
        return Err(AsmError::Syntax(string_of(kind)));
    }
    proof {
        assert(views(args@)[0] == args@[0]@);
        assert(views(args@)[1] == args@[1]@);
        assert(views(args@)[2] == args@[2]@);
    }
    let a = match parse_reg(&args[0]) {
        Ok(x) => x,
        Err(e) => {
            return Err(e);
        },
    };
    let n = match parse_imm(&args[1]) {
        Ok(x) => x,
        Err(e) => {
            return Err(e);
        },
    };
    let b = match parse_reg(&args[2]) {
        Ok(x) => x,
        Err(e) => {
            return Err(e);
        },
    };
    Ok((a, n, b))
}

/// The instruction one mnemonic and its operand texts describe; an
/// unrecognised mnemonic is its own error.
#[verifier::opaque]
pub open spec fn parse_inst_spec(kind: Seq<char>, args: Seq<Seq<char>>) -> Result<InstKindV, ErrV> {
    if kind == "add"@ {
        match args_rrr_spec(kind, args) {
            Ok((rd, rs1, rs2)) => Ok(InstKindV::Add { rd, rs1, rs2 }),
            Err(e) => Err(e),
        }
    } else if kind == "sub"@ {
        match args_rrr_spec(kind, args) {
            Ok((rd, rs1, rs2)) => Ok(InstKindV::Sub { rd, rs1, rs2 }),
            Err(e) => Err(e),
        }
    } else if kind == "and"@ {
        match args_rrr_spec(kind, args) {
            Ok((rd, rs1, rs2)) => Ok(InstKindV::And { rd, rs1, rs2 }),
            Err(e) => Err(e),
        }
    } else if kind == "or"@ {
        match args_rrr_spec(kind, args) {
            Ok((rd, rs1, rs2)) => Ok(InstKindV::Or { rd, rs1, rs2 }),
            Err(e) => Err(e),
        }
    } else if kind == "xor"@ {
        match args_rrr_spec(kind, args) {
            Ok((rd, rs1, rs2)) => Ok(InstKindV::Xor { rd, rs1, rs2 }),
            Err(e) => Err(e),
        }
    } else if kind == "srl"@ {
        match args_rrr_spec(kind, args) {
            Ok((rd, rs1, rs2)) => Ok(InstKindV::Srl { rd, rs1, rs2 }),
            Err(e) => Err(e),
        }
    } else if kind == "sra"@ {
        match args_rrr_spec(kind, args) {
            Ok((rd, rs1, rs2)) => Ok(InstKindV::Sra { rd, rs1, rs2 }),
            Err(e) => Err(e),
        }
    } else if kind == "sll"@ {
        match args_rrr_spec(kind, args) {
            Ok((rd, rs1, rs2)) => Ok(InstKindV::Sll { rd, rs1, rs2 }),
            Err(e) => Err(e),
        }
    } else if kind == "addi"@ {
        match args_rrv_spec(kind, args) {
            Ok((rd, rs1, val)) => Ok(InstKindV::Addi { rd, rs1, val }),
            Err(e) => Err(e),
        }
    } else if kind == "subi"@ {
        match args_rrv_spec(kind, args) {
            Ok((rd, rs1, val)) => Ok(InstKindV::Subi { rd, rs1, val }),
            Err(e) => Err(e),
        }
    } else if kind == "andi"@ {
        match args_rrv_spec(kind, args) {
            Ok((rd, rs1, val)) => Ok(InstKindV::Andi { rd, rs1, val }),
            Err(e) => Err(e),
        }
    } else if kind == "ori"@ {
        match args_rrv_spec(kind, args) {
            Ok((rd, rs1, val)) => Ok(InstKindV::Ori { rd, rs1, val }),
            Err(e) => Err(e),
        }
    } else if kind == "xori"@ {
        match args_rrv_spec(kind, args) {
            Ok((rd, rs1, val)) => Ok(InstKindV::Xori { rd, rs1, val }),
            Err(e) => Err(e),
        }
    } else if kind == "srli"@ {
        match args_rrv_spec(kind, args) {
            Ok((rd, rs1, val)) => Ok(InstKindV::Srli { rd, rs1, val }),
            Err(e) => Err(e),
        }
    } else if kind == "srai"@ {
        match args_rrv_spec(kind, args) {
            Ok((rd, rs1, val)) => Ok(InstKindV::Srai { rd, rs1, val }),
            Err(e) => Err(e),
        }
    } else if kind == "slli"@ {
        match args_rrv_spec(kind, args) {
            Ok((rd, rs1, val)) => Ok(InstKindV::Slli { rd, rs1, val }),
            Err(e) => Err(e),
        }
    } else if kind == "beq"@ {
        match args_rrrv_spec(kind, args) {
            Ok((rd, rs1, rs2, val)) => Ok(InstKindV::Beq { rd, rs1, rs2, val }),
            Err(e) => Err(e),
        }
    } else if kind == "bne"@ {
        match args_rrrv_spec(kind, args) {
            Ok((rd, rs1, rs2, val)) => Ok(InstKindV::Bne { rd, rs1, rs2, val }),
            Err(e) => Err(e),
        }
    } else if kind == "blt"@ {
        match args_rrrv_spec(kind, args) {
            Ok((rd, rs1, rs2, val)) => Ok(InstKindV::Blt { rd, rs1, rs2, val }),
            Err(e) => Err(e),
        }
    } else if kind == "ble"@ {
        match args_rrrv_spec(kind, args) {
            Ok((rd, rs1, rs2, val)) => Ok(InstKindV::Ble { rd, rs1, rs2, val }),
            Err(e) => Err(e),
        }
    } else if kind == "jal"@ {
        match args_rri_spec(kind, args) {
            Ok((rd, rs1, imm)) => Ok(InstKindV::Jal { rd, rs1, imm }),
            Err(e) => Err(e),
        }
    } else if kind == "lw"@ {
        match args_rri_spec(kind, args) {
            Ok((rd, rs1, imm)) => Ok(InstKindV::Lw { rd, rs1, imm }),
            Err(e) => Err(e),
        }
    } else if kind == "lh"@ {
        match args_rri_spec(kind, args) {
            Ok((rd, rs1, imm)) => Ok(InstKindV::Lh { rd, rs1, imm }),
            Err(e) => Err(e),
        }
    } else if kind == "lb"@ {
        match args_rri_spec(kind, args) {
            Ok((rd, rs1, imm)) => Ok(InstKindV::Lb { rd, rs1, imm }),
            Err(e) => Err(e),
        }
    } else if kind == "lhu"@ {
        match args_rri_spec(kind, args) {
            Ok((rd, rs1, imm)) => Ok(InstKindV::Lhu { rd, rs1, imm }),
            Err(e) => Err(e),
        }
    } else if kind == "lbu"@ {
        match args_rri_spec(kind, args) {
            Ok((rd, rs1, imm)) => Ok(InstKindV::Lbu { rd, rs1, imm }),
            Err(e) => Err(e),
        }
    } else if kind == "in"@ {
        match args_rri_spec(kind, args) {
            Ok((rd, rs1, imm)) => Ok(InstKindV::In { rd, rs1, imm }),
            Err(e) => Err(e),
        }
    } else if kind == "sw"@ {
        match args_rir_spec(kind, args) {
            Ok((rs1, imm, rs2)) => Ok(InstKindV::Sw { rs1, rs2, imm }),
            Err(e) => Err(e),
        }
    } else if kind == "sh"@ {
        match args_rir_spec(kind, args) {
            Ok((rs1, imm, rs2)) => Ok(InstKindV::Sh { rs1, rs2, imm }),
            Err(e) => Err(e),
        }
    } else if kind == "sb"@ {
        match args_rir_spec(kind, args) {
            Ok((rs1, imm, rs2)) => Ok(InstKindV::Sb { rs1, rs2, imm }),
            Err(e) => Err(e),
        }
    } else if kind == "out"@ {
        match args_rir_spec(kind, args) {
            Ok((rs1, imm, rs2)) => Ok(InstKindV::Out { rs1, rs2, imm }),
            Err(e) => Err(e),
        }
    } else if kind == "isb"@ {
        match args_rir_spec(kind, args) {
            Ok((rs1, imm, rs2)) => Ok(InstKindV::Isb { rs1, rs2, imm }),
            Err(e) => Err(e),
        }
    } else {
        Err(ErrV::UnknownMnemonic(kind))
    }
}

#[verifier::rlimit(60)]
fn parse_inst(kind: &Vec<char>, args: &Vec<Vec<char>>) -> (r: Result<InstKind, AsmError>)
    ensures
        match r {
            Ok(k) => parse_inst_spec(kind@, views(args@)) == Ok::<InstKindV, ErrV>(kind_model(k)),
            Err(e) => parse_inst_spec(kind@, views(args@)) == Err::<InstKindV, ErrV>(err_model(e)),
        },
{
    proof {
        reveal(parse_inst_spec);
    }
    if text_eq(kind, "add") {
        match args_rrr(kind, args) {
            Ok((rd, rs1, rs2)) => Ok(InstKind::Add { rd, rs1, rs2 }),
            Err(e) => Err(e),
        }
    } else if text_eq(kind, "sub") {
        match args_rrr(kind, args) {
            Ok((rd, rs1, rs2)) => Ok(InstKind::Sub { rd, rs1, rs2 }),
            Err(e) => Err(e),
        }
    } else if text_eq(kind, "and") {
        match args_rrr(kind, args) {
            Ok((rd, rs1, rs2)) => Ok(InstKind::And { rd, rs1, rs2 }),
            Err(e) => Err(e),
        }
    } else if text_eq(kind, "or") {
        match args_rrr(kind, args) {
            Ok((rd, rs1, rs2)) => Ok(InstKind::Or { rd, rs1, rs2 }),
            Err(e) => Err(e),
        }
    } else if text_eq(kind, "xor") {
        match args_rrr(kind, args) {
            Ok((rd, rs1, rs2)) => Ok(InstKind::Xor { rd, rs1, rs2 }),
            Err(e) => Err(e),
        }
    } else if text_eq(kind, "srl") {
        match args_rrr(kind, args) {
            Ok((rd, rs1, rs2)) => Ok(InstKind::Srl { rd, rs1, rs2 }),
            Err(e) => Err(e),
        }
    } else if text_eq(kind, "sra") {
        match args_rrr(kind, args) {
            Ok((rd, rs1, rs2)) => Ok(InstKind::Sra { rd, rs1, rs2 }),
            Err(e) => Err(e),
        }
    } else if text_eq(kind, "sll") {
        match args_rrr(kind, args) {
            Ok((rd, rs1, rs2)) => Ok(InstKind::Sll { rd, rs1, rs2 }),
            Err(e) => Err(e),
        }
    } else if text_eq(kind, "addi") {
        match args_rrv(kind, args) {
            Ok((rd, rs1, val)) => Ok(InstKind::Addi { rd, rs1, val }),
            Err(e) => Err(e),
        }
    } else if text_eq(kind, "subi") {
        match args_rrv(kind, args) {
            Ok((rd, rs1, val)) => Ok(InstKind::Subi { rd, rs1, val }),
            Err(e) => Err(e),
        }
    } else if text_eq(kind, "andi") {
        match args_rrv(kind, args) {
            Ok((rd, rs1, val)) => Ok(InstKind::Andi { rd, rs1, val }),
            Err(e) => Err(e),
        }
    } else if text_eq(kind, "ori") {
        match args_rrv(kind, args) {
            Ok((rd, rs1, val)) => Ok(InstKind::Ori { rd, rs1, val }),
            Err(e) => Err(e),
        }
    } else if text_eq(kind, "xori") {
        match args_rrv(kind, args) {
            Ok((rd, rs1, val)) => Ok(InstKind::Xori { rd, rs1, val }),
            Err(e) => Err(e),
        }
    } else if text_eq(kind, "srli") {
        match args_rrv(kind, args) {
            Ok((rd, rs1, val)) => Ok(InstKind::Srli { rd, rs1, val }),
            Err(e) => Err(e),
        }
    } else if text_eq(kind, "srai") {
        match args_rrv(kind, args) {
            Ok((rd, rs1, val)) => Ok(InstKind::Srai { rd, rs1, val }),
            Err(e) => Err(e),
        }
    } else if text_eq(kind, "slli") {
        match args_rrv(kind, args) {
            Ok((rd, rs1, val)) => Ok(InstKind::Slli { rd, rs1, val }),
            Err(e) => Err(e),
        }
    } else if text_eq(kind, "beq") {
        match args_rrrv(kind, args) {
            Ok((rd, rs1, rs2, val)) => Ok(InstKind::Beq { rd, rs1, rs2, val }),
            Err(e) => Err(e),
        }
    } else if text_eq(kind, "bne") {
        match args_rrrv(kind, args) {
            Ok((rd, rs1, rs2, val)) => Ok(InstKind::Bne { rd, rs1, rs2, val }),
            Err(e) => Err(e),
        }
    } else if text_eq(kind, "blt") {
        match args_rrrv(kind, args) {
            Ok((rd, rs1, rs2, val)) => Ok(InstKind::Blt { rd, rs1, rs2, val }),
            Err(e) => Err(e),
        }
    } else if text_eq(kind, "ble") {
        match args_rrrv(kind, args) {
            Ok((rd, rs1, rs2, val)) => Ok(InstKind::Ble { rd, rs1, rs2, val }),
            Err(e) => Err(e),
        }
    } else if text_eq(kind, "jal") {
        match args_rri(kind, args) {
            Ok((rd, rs1, imm)) => Ok(InstKind::Jal { rd, rs1, imm }),
            Err(e) => Err(e),
        }
    } else if text_eq(kind, "lw") {
        match args_rri(kind, args) {
            Ok((rd, rs1, imm)) => Ok(InstKind::Lw { rd, rs1, imm }),
            Err(e) => Err(e),
        }
    } else if text_eq(kind, "lh") {
        match args_rri(kind, args) {
            Ok((rd, rs1, imm)) => Ok(InstKind::Lh { rd, rs1, imm }),
            Err(e) => Err(e),
        }
    } else if text_eq(kind, "lb") {
        match args_rri(kind, args) {
            Ok((rd, rs1, imm)) => Ok(InstKind::Lb { rd, rs1, imm }),
            Err(e) => Err(e),
        }
    } else if text_eq(kind, "lhu") {
        match args_rri(kind, args) {
            Ok((rd, rs1, imm)) => Ok(InstKind::Lhu { rd, rs1, imm }),
            Err(e) => Err(e),
        }
    } else if text_eq(kind, "lbu") {
        match args_rri(kind, args) {
            Ok((rd, rs1, imm)) => Ok(InstKind::Lbu { rd, rs1, imm }),
            Err(e) => Err(e),
        }
    } else if text_eq(kind, "in") {
        match args_rri(kind, args) {
            Ok((rd, rs1, imm)) => Ok(InstKind::In { rd, rs1, imm }),
            Err(e) => Err(e),
        }
    } else if text_eq(kind, "sw") {
        match args_rir(kind, args) {
            Ok((rs1, imm, rs2)) => Ok(InstKind::Sw { rs1, rs2, imm }),
            Err(e) => Err(e),
        }
    } else if text_eq(kind, "sh") {
        match args_rir(kind, args) {
            Ok((rs1, imm, rs2)) => Ok(InstKind::Sh { rs1, rs2, imm }),
            Err(e) => Err(e),
        }
    } else if text_eq(kind, "sb") {
        match args_rir(kind, args) {
            Ok((rs1, imm, rs2)) => Ok(InstKind::Sb { rs1, rs2, imm }),
            Err(e) => Err(e),
        }
    } else if text_eq(kind, "out") {
        match args_rir(kind, args) {
            Ok((rs1, imm, rs2)) => Ok(InstKind::Out { rs1, rs2, imm }),
            Err(e) => Err(e),
        }
    } else if text_eq(kind, "isb") {
        match args_rir(kind, args) {
            Ok((rs1, imm, rs2)) => Ok(InstKind::Isb { rs1, rs2, imm }),
            Err(e) => Err(e),
        }
    } else {
        Err(AsmError::UnknownMnemonic(string_of(kind)))
    }
}

/// The instruction of one cleaned line, split at its `->`, `=`, or `,`
/// seam and classified by which bracketing the two sides carry.
#[verifier::opaque]
pub open spec fn parse_parts_spec(l: Seq<char>, lhs: Seq<char>, rhs: Seq<char>) -> Result<
    InstKindV,
    ErrV,
> {
    let lhs_t = trim_spec(lhs);
    let (kind, tail) = match find_space_spec(lhs_t, 0) {
        Some(i) => (lhs_t.take(i), lhs_t.skip(i)),
        None => (lhs_t, Seq::<char>::empty()),
    };
    let lrest = strip_spaces_spec(tail);
    if find_char_spec(lrest, 0, '(') is Some {
        let ps = split_char_spec(lrest, ',');
        if ps.len() < 3 {
            Err(ErrV::Syntax(l))
        } else {
            parse_inst_spec(
                kind,
                seq![
                    ps[0],
                    remove_char_spec(ps[1], '('),
                    remove_char_spec(ps[2], ')'),
                    trim_spec(rhs),
                ],
            )
        }
    } else if find_char_spec(lrest, 0, '[') is Some {
        let ps = split_char_spec(lrest, '[');
        if ps.len() < 2 {
            Err(ErrV::Syntax(l))
        } else {
            parse_inst_spec(kind, seq![ps[0], remove_char_spec(ps[1], ']'), trim_spec(rhs)])
        }
    } else if find_char_spec(rhs, 0, '[') is Some {
        let ps = split_char_spec(rhs, '[');
        if ps.len() < 2 {
            Err(ErrV::Syntax(l))
        } else {
            parse_inst_spec(
                kind,
                seq![lrest, trim_spec(ps[0]), remove_char_spec(trim_spec(ps[1]), ']')],
            )
        }
    } else {
        let ps = split_char_spec(rhs, ',');
        if ps.len() < 2 {
            Err(ErrV::Syntax(l))
        } else {
            parse_inst_spec(kind, seq![lrest, trim_spec(ps[0]), trim_spec(ps[1])])
        }
    }
}

#[verifier::rlimit(100)]
#[verifier::spinoff_prover]
fn parse_parts(l: &Vec<char>, lhs: &Vec<char>, rhs: &Vec<char>) -> (r: Result<InstKind, AsmError>)
    ensures
        match r {
            Ok(k) => parse_parts_spec(l@, lhs@, rhs@) == Ok::<InstKindV, ErrV>(kind_model(k)),
            Err(e) => parse_parts_spec(l@, lhs@, rhs@) == Err::<InstKindV, ErrV>(err_model(e)),
        },
{
    proof {
        reveal(parse_parts_spec);
    }
    let lhs_t = trim(lhs);
    let (kind, tail) = match find_space(&lhs_t, 0) {
        Some(i) => {
            let kind = subvec(&lhs_t, 0, i);
            let tail = subvec(&lhs_t, i, lhs_t.len());
            proof {
                assert(lhs_t@.take(i as int) == lhs_t@.subrange(0, i as int));
                assert(lhs_t@.skip(i as int) == lhs_t@.subrange(i as int, lhs_t@.len() as int));
            }
            (kind, tail)
        },
        None => {
            let kind = subvec(&lhs_t, 0, lhs_t.len());
            proof {
                assert(lhs_t@.subrange(0, lhs_t@.len() as int) =~= lhs_t@);
            }
            (kind, Vec::<char>::new())
        },
    };
    let lrest = strip_spaces(&tail);
    if find_char(&lrest, 0, '(').is_some() {
        let ps = split_char(&lrest, ',');
        let ghost pv = ps@.map_values(|p: Vec<char>| p@);
        if ps.len() < 3 {
            return Err(AsmError::Syntax(string_of(l)));
        }
        proof {
            assert(pv[0] == ps@[0]@);
            assert(pv[1] == ps@[1]@);
            assert(pv[2] == ps@[2]@);
        }
        let a0 = subvec(&ps[0], 0, ps[0].len());
        let a1 = remove_char(&ps[1], '(');
        let a2 = remove_char(&ps[2], ')');
        let a3 = trim(rhs);
        proof {
            assert(ps@[0]@.subrange(0, ps@[0]@.len() as int) =~= ps@[0]@);
        }
        let mut args: Vec<Vec<char>> = Vec::new();
        args.push(a0);
        args.push(a1);
        args.push(a2);
        args.push(a3);
        proof {
            assert(views(args@) =~= seq![
                pv[0],
                remove_char_spec(pv[1], '('),
                remove_char_spec(pv[2], ')'),
                trim_spec(rhs@),
            ]);
        }
        parse_inst(&kind, &args)
    } else if find_char(&lrest, 0, '[').is_some() {
        let ps = split_char(&lrest, '[');
        let ghost pv = ps@.map_values(|p: Vec<char>| p@);
        if ps.len() < 2 {
            return Err(AsmError::Syntax(string_of(l)));
        }
        proof {
            assert(pv[0] == ps@[0]@);
            assert(pv[1] == ps@[1]@);
        }
        let a0 = subvec(&ps[0], 0, ps[0].len());
        let a1 = remove_char(&ps[1], ']');
        let a2 = trim(rhs);
        proof {
            assert(ps@[0]@.subrange(0, ps@[0]@.len() as int) =~= ps@[0]@);
        }
        let mut args: Vec<Vec<char>> = Vec::new();
        args.push(a0);
        args.push(a1);
        args.push(a2);
        proof {
            assert(views(args@) =~= seq![pv[0], remove_char_spec(pv[1], ']'), trim_spec(rhs@)]);
        }
        parse_inst(&kind, &args)
    } else if find_char(rhs, 0, '[').is_some() {
        let ps = split_char(rhs, '[');
        let ghost pv = ps@.map_values(|p: Vec<char>| p@);
        if ps.len() < 2 {
            return Err(AsmError::Syntax(string_of(l)));
        }
        proof {
            assert(pv[0] == ps@[0]@);
            assert(pv[1] == ps@[1]@);
        }
        let a0 = subvec(&lrest, 0, lrest.len());
        let a1 = trim(&ps[0]);
        let t1 = trim(&ps[1]);
        let a2 = remove_char(&t1, ']');
        proof {
            assert(lrest@.subrange(0, lrest@.len() as int) =~= lrest@);
        }
        let mut args: Vec<Vec<char>> = Vec::new();
        args.push(a0);
        args.push(a1);
        args.push(a2);
        proof {
            assert(views(args@) =~= seq![
                lrest@,
                trim_spec(pv[0]),
                remove_char_spec(trim_spec(pv[1]), ']'),
            ]);
        }
        parse_inst(&kind, &args)
    } else {
        let ps = split_char(rhs, ',');
        let ghost pv = ps@.map_values(|p: Vec<char>| p@);
        if ps.len() < 2 {
            return Err(AsmError::Syntax(string_of(l)));
        }
        proof {
            assert(pv[0] == ps@[0]@);
            assert(pv[1] == ps@[1]@);
        }
        let a0 = subvec(&lrest, 0, lrest.len());
        let a1 = trim(&ps[0]);
        let a2 = trim(&ps[1]);
        proof {
            assert(lrest@.subrange(0, lrest@.len() as int) =~= lrest@);
        }
        let mut args: Vec<Vec<char>> = Vec::new();
        args.push(a0);
        args.push(a1);
        args.push(a2);
        proof {
            assert(views(args@) =~= seq![lrest@, trim_spec(pv[0]), trim_spec(pv[1])]);
        }
        parse_inst(&kind, &args)
    }
}

/// The instruction one cleaned line describes: branch lines split at
/// `->`, assignment and indexed lines at `=`, jump lines at the first
/// comma; a line with none of those seams is malformed.
#[verifier::opaque]
pub open spec fn parse_line_spec(l: Seq<char>) -> Result<InstKindV, ErrV> {
    match find_pair_spec(l, 0, '-', '>') {
        Some(p) => parse_parts_spec(l, l.take(p), l.skip(p + 2)),
        None => match find_char_spec(l, 0, '=') {
            Some(p) => parse_parts_spec(l, l.take(p), l.skip(p + 1)),
            None => match find_char_spec(l, 0, ',') {
                Some(p) => parse_parts_spec(l, l.take(p), l.skip(p + 1)),
                None => Err(ErrV::Syntax(l)),
            },
        },
    }
}

fn parse_line(l: &Vec<char>) -> (r: Result<InstKind, AsmError>)
    ensures
        match r {
            Ok(k) => parse_line_spec(l@) == Ok::<InstKindV, ErrV>(kind_model(k)),
            Err(e) => parse_line_spec(l@) == Err::<InstKindV, ErrV>(err_model(e)),
        },
{
    proof {
        reveal(parse_line_spec);
    }
    let n = l.len();
    if let Some(p) = find_pair(l, '-', '>') {
        let lhs = subvec(l, 0, p);
        let rhs = subvec(l, p + 2, n);
        proof {
            assert(l@.take(p as int) == l@.subrange(0, p as int));
            assert(l@.skip(p + 2) == l@.subrange(p + 2, n as int));
        }
        parse_parts(l, &lhs, &rhs)
    } else if let Some(p) = find_char(l, 0, '=') {
        let lhs = subvec(l, 0, p);
        let rhs = subvec(l, p + 1, n);
        proof {
            assert(l@.take(p as int) == l@.subrange(0, p as int));
            assert(l@.skip(p + 1) == l@.subrange(p + 1, n as int));
        }
        parse_parts(l, &lhs, &rhs)
    } else if let Some(p) = find_char(l, 0, ',') {
        let lhs = subvec(l, 0, p);
        let rhs = subvec(l, p + 1, n);
        proof {
            assert(l@.take(p as int) == l@.subrange(0, p as int));
            assert(l@.skip(p + 1) == l@.subrange(p + 1, n as int));
        }
        parse_parts(l, &lhs, &rhs)
    } else {
        Err(AsmError::Syntax(string_of(l)))
    }
}

/// The instruction list of a sequence of cleaned lines, threading the
/// pending label an `@` line declares.
pub open spec fn parse_insts_lines_spec(
    lines: Seq<Seq<char>>,
    pending: Option<Seq<char>>,
) -> Result<Seq<InstV>, ErrV>
    decreases lines.len(),
{
    if lines.len() == 0 {
        Ok(Seq::<InstV>::empty())
    } else {
        let l = lines[0];
        if l.len() > 0 && l[0] == '@' {
            parse_insts_lines_spec(lines.drop_first(), Some(l.skip(1)))
        } else {
            match parse_line_spec(l) {
                Ok(k) => match parse_insts_lines_spec(lines.drop_first(), None) {
                    Ok(rest) => Ok(seq![InstV { kind: k, label: pending }] + rest),
                    Err(e) => Err(e),
                },
                Err(e) => Err(e),
            }
        }
    }
}

/// The instruction list the instruction-segment source text describes.
pub open spec fn parse_insts_spec(s: Seq<char>) -> Result<Seq<InstV>, ErrV> {
    parse_insts_lines_spec(clean_lines_spec(s), None)
}

/// Parses the instruction segment into its unresolved instruction list.
pub fn parse(program: &str) -> (r: Result<Vec<Inst>, AsmError>)
    ensures
        match r {
            Ok(v) => parse_insts_spec(program@) == Ok::<Seq<InstV>, ErrV>(insts_model(v@)),
            Err(e) => parse_insts_spec(program@) == Err::<Seq<InstV>, ErrV>(err_model(e)),
        },
{
    let chars = chars_of(program);
    let lines = clean_lines(&chars);
    let ghost line_views = lines@.map_values(|p: Vec<char>| p@);
    let mut out: Vec<Inst> = Vec::new();
    let mut pending: Option<Vec<char>> = None;
    let mut i: usize = 0;
    proof {
        assert(line_views.skip(0) =~= line_views);
        assert(insts_model(out@) =~= Seq::<InstV>::empty());
    }
    while i < lines.len()
        invariant
            0 <= i <= lines@.len(),
            line_views == lines@.map_values(|p: Vec<char>| p@),
            line_views == clean_lines_spec(program@),
            parse_insts_lines_spec(line_views, None) == (match parse_insts_lines_spec(
                line_views.skip(i as int),
                crate::dmem::pending_model(pending),
            ) {
                Ok(rest) => Ok::<Seq<InstV>, ErrV>(insts_model(out@) + rest),
                Err(e) => Err::<Seq<InstV>, ErrV>(e),
            }),
        decreases lines@.len() - i,
    {
        let ghost old_out = out@;
        let ghost old_pending = crate::dmem::pending_model(pending);
        let line = &lines[i];
        proof {
            assert(line_views.skip(i as int).drop_first() =~= line_views.skip(i + 1));
            assert(line_views[i as int] == lines@[i as int]@);
            assert(line_views.skip(i as int)[0] == line_views[i as int]);
        }
        if line.len() > 0 && line[0] == '@' {
            let name = subvec(line, 1, line.len());
            proof {
                assert(line_views[i as int].skip(1) =~= line@.subrange(1, line@.len() as int));
            }
            pending = Some(name);
        } else {
            match parse_line(line) {
                Ok(k) => {
                    let lbl: Option<String> = match pending.take() {
                        Some(p) => Some(string_of(&p)),
                        None => None,
                    };
                    out.push(Inst { kind: k, label: lbl });
                    proof {
                        assert(insts_model(out@) =~= insts_model(old_out).push(
                            inst_model(out@.last()),
                        ));
                        if parse_insts_lines_spec(line_views.skip(i + 1), None) is Ok {
                            assert((insts_model(old_out) + (seq![
                                InstV { kind: kind_model(k), label: old_pending },
                            ] + parse_insts_lines_spec(line_views.skip(i + 1), None)->Ok_0))
                                =~= (insts_model(out@) + parse_insts_lines_spec(
                                line_views.skip(i + 1),
                                None,
                            )->Ok_0));
                        }
                    }
                },
                Err(e) => {
                    return Err(e);
                },
            }
        }
        i = i + 1;
    }
    proof {
        assert(line_views.skip(lines@.len() as int) =~= Seq::<Seq<char>>::empty());
        assert(insts_model(out@) + Seq::<InstV>::empty() =~= insts_model(out@));
    }
    Ok(out)
}

} // verus!


