//! The data segment: directive types and the data parser.
//!
//! A directive line is `<command> <operand>[, <operand>]*`; a line `$name`
//! declares a label that attaches to the first directive the next line
//! produces. Commands: `byte1`, `byte2`, `byte4`, `byte6`, `char`,
//! `string`.
use vstd::prelude::*;

use crate::error::{err_model, AsmError, ErrV};
use crate::numbers::{parse_number, parse_number_spec};
use crate::text::{
    chars_of, clean_lines, clean_lines_spec, find_space, find_space_spec, split_char,
    split_char_spec, string_of, subvec, text_eq, trim, trim_spec,
};

verus! {

use vstd::utf8::encode_utf8;

/// One data directive: the bytes one operand emits, with an optional
/// label naming its first byte's offset.
#[derive(Debug)]
pub struct Data {
    pub label: Option<String>,
    pub command: Command,
}

/// The command tag of a data directive, carrying the operand's value in
/// the matching width.
#[derive(Debug)]
pub enum Command {
    Byte1(u8),
    Byte2(u16),
    Byte4(u32),
    Byte6(u64),
    Char(char),
    String(String),
}

/// The mathematical shape of a [`Command`]: the same variants with the
/// stored text as a character sequence.
pub enum CommandV {
    Byte1(u8),
    Byte2(u16),
    Byte4(u32),
    Byte6(u64),
    Char(char),
    Str(Seq<char>),
}

/// The mathematical shape of a [`Data`] directive.
pub struct DataV {
    pub label: Option<Seq<char>>,
    pub command: CommandV,
}

pub open spec fn command_model(c: Command) -> CommandV {
    match c {
        Command::Byte1(n) => CommandV::Byte1(n),
        Command::Byte2(n) => CommandV::Byte2(n),
        Command::Byte4(n) => CommandV::Byte4(n),
        Command::Byte6(n) => CommandV::Byte6(n),
        Command::Char(c) => CommandV::Char(c),
        Command::String(s) => CommandV::Str(s@),
    }
}

pub open spec fn label_model(l: Option<String>) -> Option<Seq<char>> {
    match l {
        Some(s) => Some(s@),
        None => None,
    }
}

pub open spec fn data_model(d: Data) -> DataV {
    DataV { label: label_model(d.label), command: command_model(d.command) }
}

pub open spec fn datas_model(v: Seq<Data>) -> Seq<DataV> {
    v.map_values(|d: Data| data_model(d))
}

pub open spec fn pending_model(p: Option<Vec<char>>) -> Option<Seq<char>> {
    match p {
        Some(v) => Some(v@),
        None => None,
    }
}

/// The count of bytes a directive emits: the numeric widths are fixed, a
/// `char` is one byte, and a string is its UTF-8 bytes plus one
/// terminating zero (saturating at `usize::MAX`, which no real string
/// reaches).
pub open spec fn command_len_v(c: CommandV) -> nat {
    match c {
        CommandV::Byte1(_) => 1,
        CommandV::Byte2(_) => 2,
        CommandV::Byte4(_) => 4,
        CommandV::Byte6(_) => 6,
        CommandV::Char(_) => 1,
        CommandV::Str(s) => if encode_utf8(s).len() + 1 <= usize::MAX {
            (encode_utf8(s).len() + 1) as nat
        } else {
            usize::MAX as nat
        },
    }
}

impl Clone for Command {
    fn clone(&self) -> (r: Command)
        ensures
            command_model(r) == command_model(*self),
    {
        match self {
            Command::Byte1(n) => Command::Byte1(*n),
            Command::Byte2(n) => Command::Byte2(*n),
            Command::Byte4(n) => Command::Byte4(*n),
            Command::Byte6(n) => Command::Byte6(*n),
            Command::Char(c) => Command::Char(*c),
            Command::String(s) => Command::String(s.clone()),
        }
    }
}

impl Command {
    /// The count of bytes this directive emits.
    pub fn len(&self) -> (r: usize)
        ensures
            r as nat == command_len_v(command_model(*self)),
    {
        match self {
            Command::Byte1(_) => 1,
            Command::Byte2(_) => 2,
            Command::Byte4(_) => 4,
            Command::Byte6(_) => 6,
            Command::Char(_) => 1,
            Command::String(s) => {
                let b: &[u8] = s.as_str().as_bytes();
                let n = b.len();
                if n < usize::MAX {
                    n + 1
                } else {
                    usize::MAX
                }
            },
        }
    }
}

/// Folds a signed value into the unsigned two's-complement form of an
/// 8-bit byte; the accepted interval is `i8::MIN ..= u8::MAX`.
pub open spec fn parse_u8_spec(s: Seq<char>) -> Result<u8, ErrV> {
    match parse_number_spec(s) {
        Some(n) => if -128 <= n <= 255 {
            Ok((if n >= 0 {
                n as int
            } else {
                n + 256
            }) as u8)
        } else {
            Err(ErrV::Syntax(s))
        },
        None => Err(ErrV::Syntax(s)),
    }
}

pub fn parse_u8(v: &Vec<char>) -> (r: Result<u8, AsmError>)
    ensures
        match r {
            Ok(x) => parse_u8_spec(v@) == Ok::<u8, ErrV>(x),
            Err(e) => parse_u8_spec(v@) == Err::<u8, ErrV>(err_model(e)),
        },
{
    match parse_number(v) {
        Some(n) => {
            if -128 <= n && n <= 255 {
                if n >= 0 {
                    Ok(n as u8)
                } else {
                    Ok((n + 256) as u8)
                }
            } else {
                Err(AsmError::Syntax(string_of(v)))
            }
        },
        None => Err(AsmError::Syntax(string_of(v))),
    }
}

/// Folds a signed value into 16-bit two's complement; interval
/// `i16::MIN ..= u16::MAX`.
pub open spec fn parse_u16_spec(s: Seq<char>) -> Result<u16, ErrV> {
    match parse_number_spec(s) {
        Some(n) => if -0x8000 <= n <= 0xffff {
            Ok((if n >= 0 {
                n as int
            } else {
                n + 0x10000
            }) as u16)
        } else {
            Err(ErrV::Syntax(s))
        },
        None => Err(ErrV::Syntax(s)),
    }
}

pub fn parse_u16(v: &Vec<char>) -> (r: Result<u16, AsmError>)
    ensures
        match r {
            Ok(x) => parse_u16_spec(v@) == Ok::<u16, ErrV>(x),
            Err(e) => parse_u16_spec(v@) == Err::<u16, ErrV>(err_model(e)),
        },
{
    match parse_number(v) {
        Some(n) => {
            if -0x8000 <= n && n <= 0xffff {
                if n >= 0 {
                    Ok(n as u16)
                } else {
                    Ok((n + 0x10000) as u16)
                }
            } else {
                Err(AsmError::Syntax(string_of(v)))
            }
        },
        None => Err(AsmError::Syntax(string_of(v))),
    }
}

/// Folds a signed value into 32-bit two's complement; interval
/// `i32::MIN ..= u32::MAX`.
pub open spec fn parse_u32_spec(s: Seq<char>) -> Result<u32, ErrV> {
    match parse_number_spec(s) {
        Some(n) => if -0x80000000 <= n <= 0xffffffff {
            Ok((if n >= 0 {
                n as int
            } else {
                n + 0x100000000
            }) as u32)
        } else {
            Err(ErrV::Syntax(s))
        },
        None => Err(ErrV::Syntax(s)),
    }
}

pub fn parse_u32(v: &Vec<char>) -> (r: Result<u32, AsmError>)
    ensures
        match r {
            Ok(x) => parse_u32_spec(v@) == Ok::<u32, ErrV>(x),
            Err(e) => parse_u32_spec(v@) == Err::<u32, ErrV>(err_model(e)),
        },
{
    match parse_number(v) {
        Some(n) => {
            if -0x80000000 <= n && n <= 0xffffffff {
                if n >= 0 {
                    Ok(n as u32)
                } else {
                    Ok((n + 0x100000000) as u32)
                }
            } else {
                Err(AsmError::Syntax(string_of(v)))
            }
        },
        None => Err(AsmError::Syntax(string_of(v))),
    }
}

/// Folds a signed value into 48-bit two's complement; interval
/// `-(2^47) ..= 2^48 - 1`.
pub open spec fn parse_u48_spec(s: Seq<char>) -> Result<u64, ErrV> {
    match parse_number_spec(s) {
        Some(n) => if -0x800000000000 <= n <= 0xffffffffffff {
            Ok((if n >= 0 {
                n as int
            } else {
                n + 0x1000000000000
            }) as u64)
        } else {
            Err(ErrV::Syntax(s))
        },
        None => Err(ErrV::Syntax(s)),
    }
}

pub fn parse_u48(v: &Vec<char>) -> (r: Result<u64, AsmError>)
    ensures
        match r {
            Ok(x) => parse_u48_spec(v@) == Ok::<u64, ErrV>(x),
            Err(e) => parse_u48_spec(v@) == Err::<u64, ErrV>(err_model(e)),
        },
{
    match parse_number(v) {
        Some(n) => {
            if -0x800000000000 <= n && n <= 0xffffffffffff {
                if n >= 0 {
                    Ok(n as u64)
                } else {
                    Ok((n + 0x1000000000000) as u64)
                }
            } else {
                Err(AsmError::Syntax(string_of(v)))
            }
        },
        None => Err(AsmError::Syntax(string_of(v))),
    }
}

/// A `char` operand: exactly one character wrapped in one pair of single
/// quotes.
pub open spec fn parse_char_spec(s: Seq<char>) -> Result<char, ErrV> {
    if s.len() == 3 && s[0] == '\'' && s[2] == '\'' {
        Ok(s[1])
    } else {
        Err(ErrV::Syntax(s))
    }
}

pub fn parse_char(v: &Vec<char>) -> (r: Result<char, AsmError>)
    ensures
        match r {
            Ok(x) => parse_char_spec(v@) == Ok::<char, ErrV>(x),
            Err(e) => parse_char_spec(v@) == Err::<char, ErrV>(err_model(e)),
        },
{
    if v.len() == 3 && v[0] == '\'' && v[2] == '\'' {
        Ok(v[1])
    } else {
        Err(AsmError::Syntax(string_of(v)))
    }
}

/// A `string` operand: text wrapped in double quotes, stored without
/// them.
pub open spec fn parse_string_spec(s: Seq<char>) -> Result<Seq<char>, ErrV> {
    if s.len() >= 2 && s[0] == '"' && s.last() == '"' {
        Ok(s.subrange(1, s.len() - 1))
    } else {
        Err(ErrV::Syntax(s))
    }
}

pub fn parse_string(v: &Vec<char>) -> (r: Result<String, AsmError>)
    ensures
        match r {
            Ok(x) => parse_string_spec(v@) == Ok::<Seq<char>, ErrV>(x@),
            Err(e) => parse_string_spec(v@) == Err::<Seq<char>, ErrV>(err_model(e)),
        },
{
    if v.len() >= 2 && v[0] == '"' && v[v.len() - 1] == '"' {
        let inner = subvec(v, 1, v.len() - 1);
        Ok(string_of(&inner))
    } else {
        Err(AsmError::Syntax(string_of(v)))
    }
}

/// One operand read under the line's command word.
pub open spec fn parse_operand_spec(cmd: Seq<char>, arg: Seq<char>) -> Result<CommandV, ErrV> {
    if cmd == "byte1"@ {
        match parse_u8_spec(arg) {
            Ok(n) => Ok(CommandV::Byte1(n)),
            Err(e) => Err(e),
        }
    } else if cmd == "byte2"@ {
        match parse_u16_spec(arg) {
            Ok(n) => Ok(CommandV::Byte2(n)),
            Err(e) => Err(e),
        }
    } else if cmd == "byte4"@ {
        match parse_u32_spec(arg) {
            Ok(n) => Ok(CommandV::Byte4(n)),
            Err(e) => Err(e),
        }
    } else if cmd == "byte6"@ {
        match parse_u48_spec(arg) {
            Ok(n) => Ok(CommandV::Byte6(n)),
            Err(e) => Err(e),
        }
    } else if cmd == "char"@ {
        match parse_char_spec(arg) {
            Ok(c) => Ok(CommandV::Char(c)),
            Err(e) => Err(e),
        }
    } else if cmd == "string"@ {
        match parse_string_spec(arg) {
            Ok(s) => Ok(CommandV::Str(s)),
            Err(e) => Err(e),
        }
    } else {
        Err(ErrV::UnknownDataCommand(cmd))
    }
}

pub fn parse_operand(cmd: &Vec<char>, arg: &Vec<char>) -> (r: Result<Command, AsmError>)
    ensures
        match r {
            Ok(c) => parse_operand_spec(cmd@, arg@) == Ok::<CommandV, ErrV>(command_model(c)),
            Err(e) => parse_operand_spec(cmd@, arg@) == Err::<CommandV, ErrV>(err_model(e)),
        },
{
    if text_eq(cmd, "byte1") {
        match parse_u8(arg) {
            Ok(n) => Ok(Command::Byte1(n)),
            Err(e) => Err(e),
        }
    } else if text_eq(cmd, "byte2") {
        match parse_u16(arg) {
            Ok(n) => Ok(Command::Byte2(n)),
            Err(e) => Err(e),
        }
    } else if text_eq(cmd, "byte4") {
        match parse_u32(arg) {
            Ok(n) => Ok(Command::Byte4(n)),
            Err(e) => Err(e),
        }
    } else if text_eq(cmd, "byte6") {
        match parse_u48(arg) {
            Ok(n) => Ok(Command::Byte6(n)),
            Err(e) => Err(e),
        }
    } else if text_eq(cmd, "char") {
        match parse_char(arg) {
            Ok(c) => Ok(Command::Char(c)),
            Err(e) => Err(e),
        }
    } else if text_eq(cmd, "string") {
        match parse_string(arg) {
            Ok(s) => Ok(Command::String(s)),
            Err(e) => Err(e),
        }
    } else {
        Err(AsmError::UnknownDataCommand(string_of(cmd)))
    }
}

/// The commands of one directive line's comma-separated operands, first
/// bad operand first.
pub open spec fn parse_operands_spec(cmd: Seq<char>, args: Seq<Seq<char>>) -> Result<
    Seq<CommandV>,
    ErrV,
>
    decreases args.len(),
{
    if args.len() == 0 {
        Ok(Seq::<CommandV>::empty())
    } else {
        match parse_operand_spec(cmd, trim_spec(args[0])) {
            Ok(c) => match parse_operands_spec(cmd, args.drop_first()) {
                Ok(rest) => Ok(seq![c] + rest),
                Err(e) => Err(e),
            },
            Err(e) => Err(e),
        }
    }
}

/// One cleaned directive line: the command word up to the first
/// whitespace, then the operands split on commas.
pub open spec fn parse_data_line_spec(l: Seq<char>) -> Result<Seq<CommandV>, ErrV> {
    let (cmd, rest) = match find_space_spec(l, 0) {
        Some(i) => (l.take(i), trim_spec(l.skip(i))),
        None => (l, Seq::<char>::empty()),
    };
    parse_operands_spec(cmd, split_char_spec(rest, ','))
}

fn parse_data_line(l: &Vec<char>) -> (r: Result<Vec<Command>, AsmError>)
    ensures
        match r {
            Ok(v) => parse_data_line_spec(l@) == Ok::<Seq<CommandV>, ErrV>(
                v@.map_values(|c: Command| command_model(c)),
            ),
            Err(e) => parse_data_line_spec(l@) == Err::<Seq<CommandV>, ErrV>(err_model(e)),
        },
{
    let (cmd, rest) = match find_space(l, 0) {
        Some(i) => {
            let cmd = subvec(l, 0, i);
            let tail = subvec(l, i, l.len());
            let rest = trim(&tail);
            proof {
                assert(l@.take(i as int) == l@.subrange(0, i as int));
                assert(l@.skip(i as int) == l@.subrange(i as int, l@.len() as int));
            }
            (cmd, rest)
        },
        None => {
            let cmd = subvec(l, 0, l.len());
            proof {
                assert(l@.subrange(0, l@.len() as int) =~= l@);
            }
            (cmd, Vec::<char>::new())
        },
    };
    proof {
        assert(parse_data_line_spec(l@) == parse_operands_spec(cmd@, split_char_spec(rest@, ',')));
    }
    let args = split_char(&rest, ',');
    let ghost args_views = args@.map_values(|p: Vec<char>| p@);
    let mut out: Vec<Command> = Vec::new();
    let mut i: usize = 0;
    proof {
        assert(args_views.skip(0) =~= args_views);
        assert(out@.map_values(|c: Command| command_model(c)) =~= Seq::<CommandV>::empty());
    }
    while i < args.len()
        invariant
            0 <= i <= args@.len(),
            args_views == args@.map_values(|p: Vec<char>| p@),
            parse_data_line_spec(l@) == parse_operands_spec(cmd@, args_views),
            parse_operands_spec(cmd@, args_views) == (match parse_operands_spec(
                cmd@,
                args_views.skip(i as int),
            ) {
                Ok(rest_cmds) => Ok::<Seq<CommandV>, ErrV>(
                    out@.map_values(|c: Command| command_model(c)) + rest_cmds,
                ),
                Err(e) => Err::<Seq<CommandV>, ErrV>(e),
            }),
        decreases args@.len() - i,
    {
        let ghost old_out = out@;
        let arg = trim(&args[i]);
        proof {
            assert(args_views.skip(i as int).drop_first() =~= args_views.skip(i + 1));
            assert(args_views[i as int] == args@[i as int]@);
            assert(args_views.skip(i as int)[0] == args_views[i as int]);
            assert(trim_spec(args_views.skip(i as int)[0]) == arg@);
        }
        match parse_operand(&cmd, &arg) {
            Ok(c) => {
                out.push(c);
                proof {
                    assert(out@.map_values(|c: Command| command_model(c)) =~= old_out.map_values(
                        |c: Command| command_model(c),
                    ).push(command_model(c)));
                    if parse_operands_spec(cmd@, args_views.skip(i + 1)) is Ok {
                        assert(old_out.map_values(|c: Command| command_model(c)) + (seq![
                            command_model(c),
                        ] + parse_operands_spec(cmd@, args_views.skip(i + 1))->Ok_0)
                            =~= out@.map_values(|c: Command| command_model(c))
                            + parse_operands_spec(cmd@, args_views.skip(i + 1))->Ok_0);
                    }
                }
            },
            Err(e) => {
                return Err(e);
            },
        }
        i = i + 1;
    }
    proof {
        assert(args_views.skip(args@.len() as int) =~= Seq::<Seq<char>>::empty());
        assert(out@.map_values(|c: Command| command_model(c)) + Seq::<CommandV>::empty()
            =~= out@.map_values(|c: Command| command_model(c)));
    }
    Ok(out)
}

/// The directives a line's commands become, the pending label attached to
/// the first.
pub open spec fn attach_label(pending: Option<Seq<char>>, cmds: Seq<CommandV>) -> Seq<DataV> {
    Seq::new(
        cmds.len(),
        |i: int|
            DataV {
                label: if i == 0 {
                    pending
                } else {
                    None
                },
                command: cmds[i],
            },
    )
}

/// The directive list of a sequence of cleaned lines, threading the
/// pending label a `$` line declares.
pub open spec fn parse_data_lines_spec(lines: Seq<Seq<char>>, pending: Option<Seq<char>>) -> Result<
    Seq<DataV>,
    ErrV,
>
    decreases lines.len(),
{
    if lines.len() == 0 {
        Ok(Seq::<DataV>::empty())
    } else {
        let l = lines[0];
        if l.len() > 0 && l[0] == '$' {
            parse_data_lines_spec(lines.drop_first(), Some(l.skip(1)))
        } else {
            match parse_data_line_spec(l) {
                Ok(cmds) => match parse_data_lines_spec(lines.drop_first(), None) {
                    Ok(rest) => Ok(attach_label(pending, cmds) + rest),
                    Err(e) => Err(e),
                },
                Err(e) => Err(e),
            }
        }
    }
}

/// The directive list the data-segment source text describes.
pub open spec fn parse_data_spec(s: Seq<char>) -> Result<Seq<DataV>, ErrV> {
    parse_data_lines_spec(clean_lines_spec(s), None)
}

/// Parses the data segment into its directive list.
pub fn parse(program: &str) -> (r: Result<Vec<Data>, AsmError>)
    ensures
        match r {
            Ok(v) => parse_data_spec(program@) == Ok::<Seq<DataV>, ErrV>(datas_model(v@)),
            Err(e) => parse_data_spec(program@) == Err::<Seq<DataV>, ErrV>(err_model(e)),
        },
{
    let chars = chars_of(program);
    let lines = clean_lines(&chars);
    let ghost line_views = lines@.map_values(|p: Vec<char>| p@);
    let mut out: Vec<Data> = Vec::new();
    let mut pending: Option<Vec<char>> = None;
    let mut i: usize = 0;
    proof {
        assert(line_views.skip(0) =~= line_views);
        assert(datas_model(out@) =~= Seq::<DataV>::empty());
    }
    while i < lines.len()
        invariant
            0 <= i <= lines@.len(),
            line_views == lines@.map_values(|p: Vec<char>| p@),
            line_views == clean_lines_spec(program@),
            parse_data_lines_spec(line_views, None) == (match parse_data_lines_spec(
                line_views.skip(i as int),
                pending_model(pending),
            ) {
                Ok(rest) => Ok::<Seq<DataV>, ErrV>(datas_model(out@) + rest),
                Err(e) => Err::<Seq<DataV>, ErrV>(e),
            }),
        decreases lines@.len() - i,
    {
        let ghost old_out = out@;
        let ghost old_pending = pending_model(pending);
        let line = &lines[i];
        proof {
            assert(line_views.skip(i as int).drop_first() =~= line_views.skip(i + 1));
            assert(line_views[i as int] == lines@[i as int]@);
            assert(line_views.skip(i as int)[0] == line_views[i as int]);
        }
        if line.len() > 0 && line[0] == '$' {
            let name = subvec(line, 1, line.len());
            proof {
                assert(line_views[i as int].skip(1) =~= line@.subrange(1, line@.len() as int));
            }
            pending = Some(name);
        } else {
            match parse_data_line(line) {
                Ok(cmds) => {
                    let ghost cmds_model = cmds@.map_values(|c: Command| command_model(c));
                    let mut k: usize = 0;
                    let ghost out_before = out@;
                    while k < cmds.len()
                        invariant
                            0 <= k <= cmds@.len(),
                            cmds_model == cmds@.map_values(|c: Command| command_model(c)),
                            k == 0 ==> out@ == out_before && pending_model(pending)
                                == old_pending,
                            k > 0 ==> pending is None && datas_model(out@) == datas_model(
                                out_before,
                            ) + attach_label(old_pending, cmds_model.take(k as int)),
                        decreases cmds@.len() - k,
                    {
                        let ghost out_pre = out@;
                        let c = cmds[k].clone();
                        let lbl: Option<String> = if k == 0 {
                            match pending.take() {
                                Some(p) => Some(string_of(&p)),
                                None => None,
                            }
                        } else {
                            None
                        };
                        out.push(Data { label: lbl, command: c });
                        proof {
                            assert(command_model(cmds@[k as int]) == cmds_model[k as int]);
                            assert(datas_model(out@) =~= datas_model(out_pre).push(
                                data_model(out@.last()),
                            ));
                            assert(datas_model(out@) =~= datas_model(out_before) + attach_label(
                                old_pending,
                                cmds_model.take(k + 1),
                            ));
                        }
                        k = k + 1;
                    }
                    proof {
                        assert(cmds_model.take(cmds@.len() as int) =~= cmds_model);
                        if cmds@.len() == 0 {
                            assert(attach_label(old_pending, cmds_model) =~= Seq::<DataV>::empty());
                            assert(datas_model(out@) =~= datas_model(out_before) + attach_label(
                                old_pending,
                                cmds_model,
                            ));
                        }
                    }
                    if cmds.len() == 0 {
                        pending = None;
                    }
                    proof {
                        if parse_data_lines_spec(line_views.skip(i + 1), None) is Ok {
                            assert((datas_model(old_out) + (attach_label(old_pending, cmds_model)
                                + parse_data_lines_spec(line_views.skip(i + 1), None)->Ok_0))
                                =~= (datas_model(out@) + parse_data_lines_spec(
                                line_views.skip(i + 1),
                                None,
                            )->Ok_0));
                        }
                    }
                },
                Err(e) => {
                    return Err(e);
                },
            }
        }
        i = i + 1;
    }
    proof {
        assert(line_views.skip(lines@.len() as int) =~= Seq::<Seq<char>>::empty());
        assert(datas_model(out@) + Seq::<DataV>::empty() =~= datas_model(out@));
    }
    Ok(out)
}

} // verus!
