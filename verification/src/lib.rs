//! A two-segment assembler for a 48-bit instruction set: source text is
//! split at a `===` line into a data segment and an instruction segment,
//! parsed, validated, resolved against its label tables, and encoded as
//! chunked hexadecimal text.
pub mod check;
pub mod codec;
pub mod convert;
pub mod dmem;
pub mod error;
pub mod expr;
pub mod imem;
pub mod numbers;
pub mod resolve;
pub mod resolved;
pub mod text;
pub mod unresolved;

use vstd::prelude::*;

use crate::check::check_spec;
use crate::convert::{command_convert_spec, inst_convert_spec};
use crate::error::{err_model, AsmError, ErrV};
use crate::imem::parse_insts_spec;
use crate::resolve::resolve_spec;
use crate::text::{chars_of, split_char, split_char_spec, string_of, text_eq};

verus! {

/// Lines joined back into one text with a newline between each pair.
pub open spec fn join_lines_spec(lines: Seq<Seq<char>>) -> Seq<char>
    decreases lines.len(),
{
    if lines.len() == 0 {
        Seq::<char>::empty()
    } else if lines.len() == 1 {
        lines[0]
    } else {
        lines[0] + seq!['\n'] + join_lines_spec(lines.drop_first())
    }
}

/// The first line that is exactly `===`, at or after position `i`.
pub open spec fn find_separator_spec(lines: Seq<Seq<char>>, i: int) -> Option<int>
    decreases lines.len() - i,
{
    if i < 0 || i >= lines.len() {
        None
    } else if lines[i] == "==="@ {
        Some(i)
    } else {
        find_separator_spec(lines, i + 1)
    }
}

/// Both rendered images of a source text: parse the two segments,
/// validate, resolve, and encode, failing fast on the first violation.
pub open spec fn assemble_spec(program: Seq<char>, chunk: nat) -> Result<
    (Seq<char>, Seq<char>),
    ErrV,
> {
    let lines = split_char_spec(program, '\n');
    match find_separator_spec(lines, 0) {
        None => Err(ErrV::Syntax("==="@)),
        Some(p) => {
            let dtext = join_lines_spec(lines.take(p));
            let itext = join_lines_spec(lines.skip(p + 1));
            match crate::dmem::parse_data_spec(dtext) {
                Err(e) => Err(e),
                Ok(datas) => match parse_insts_spec(itext) {
                    Err(e) => Err(e),
                    Ok(insts) => match check_spec(datas, insts) {
                        Err(e) => Err(e),
                        Ok(_) => match resolve_spec(datas, insts) {
                            Err(e) => Err(e),
                            Ok(rinsts) => Ok(
                                (
                                    command_convert_spec(datas, chunk),
                                    inst_convert_spec(rinsts, chunk),
                                ),
                            ),
                        },
                    },
                },
            }
        },
    }
}

fn join_lines(lines: &Vec<Vec<char>>, from: usize, to: usize) -> (r: Vec<char>)
    requires
        from <= to <= lines@.len(),
    ensures
        r@ == join_lines_spec(
            lines@.map_values(|p: Vec<char>| p@).subrange(from as int, to as int),
        ),
{
    let ghost lv = lines@.map_values(|p: Vec<char>| p@);
    let mut out: Vec<char> = Vec::new();
    let mut i: usize = from;
    while i < to
        invariant
            from <= i <= to <= lines@.len(),
            lv == lines@.map_values(|p: Vec<char>| p@),
            i == from ==> out@ == Seq::<char>::empty(),
            from < i < to ==> join_lines_spec(lv.subrange(from as int, to as int)) == out@
                + seq!['\n'] + join_lines_spec(lv.subrange(i as int, to as int)),
            from < i && i == to ==> out@ == join_lines_spec(lv.subrange(from as int, to as int)),
        decreases to - i,
    {
        let ghost entry_out = out@;
        if i > from {
            out.push('\n');
        }
        let line = &lines[i];
        let mut k: usize = 0;
        let ghost base = out@;
        while k < line.len()
            invariant
                0 <= k <= line@.len(),
                out@ == base + line@.subrange(0, k as int),
            decreases line@.len() - k,
        {
            out.push(line[k]);
            k = k + 1;
            proof {
                assert(out@ =~= base + line@.subrange(0, k as int));
            }
        }
        proof {
            assert(line@.subrange(0, line@.len() as int) =~= line@);
            assert(lv[i as int] == lines@[i as int]@);
            let cur = lv.subrange(i as int, to as int);
            assert(cur[0] == lv[i as int]);
            if i + 1 < to {
                assert(cur.drop_first() =~= lv.subrange(i + 1, to as int));
                assert(join_lines_spec(cur) == cur[0] + seq!['\n'] + join_lines_spec(
                    lv.subrange(i + 1, to as int),
                ));
            } else {
                assert(cur.len() == 1);
                assert(join_lines_spec(cur) == cur[0]);
            }
            if i == from {
                assert(out@ =~= Seq::<char>::empty() + line@);
                assert(out@ =~= cur[0]);
                if i + 1 < to {
                    assert(join_lines_spec(lv.subrange(from as int, to as int)) =~= out@
                        + seq!['\n'] + join_lines_spec(lv.subrange(i + 1, to as int)));
                } else {
                    assert(out@ =~= join_lines_spec(lv.subrange(from as int, to as int)));
                }
            } else {
                assert(join_lines_spec(lv.subrange(from as int, to as int)) == entry_out
                    + seq!['\n'] + join_lines_spec(cur));
                assert(out@ =~= entry_out + seq!['\n'] + cur[0]);
                if i + 1 < to {
                    assert(join_lines_spec(lv.subrange(from as int, to as int)) =~= out@
                        + seq!['\n'] + join_lines_spec(lv.subrange(i + 1, to as int)));
                } else {
                    assert(join_lines_spec(lv.subrange(from as int, to as int)) =~= out@);
                }
            }
        }
        i = i + 1;
    }
    proof {
        if from == to {
            assert(lv.subrange(from as int, to as int).len() == 0);
            assert(out@ =~= join_lines_spec(lv.subrange(from as int, to as int)));
        }
    }
    out
}

/// Assembles one source text into its two rendered images, the data
/// image and the instruction image, at the given chunk size.
#[verifier::rlimit(100)]
#[verifier::spinoff_prover]
pub fn assemble(program: &str, chunk_size: usize) -> (r: Result<(String, String), AsmError>)
    requires
        chunk_size >= 1,
    ensures
        match r {
            Ok(p) => assemble_spec(program@, chunk_size as nat) == Ok::<
                (Seq<char>, Seq<char>),
                ErrV,
            >((p.0@, p.1@)),
            Err(e) => assemble_spec(program@, chunk_size as nat) == Err::<
                (Seq<char>, Seq<char>),
                ErrV,
            >(err_model(e)),
        },
{
    let chars = chars_of(program);
    let lines = split_char(&chars, '\n');
    let ghost lv = lines@.map_values(|p: Vec<char>| p@);
    let mut sep: Option<usize> = None;
    let mut i: usize = 0;
    while i < lines.len() && sep.is_none()
        invariant
            0 <= i <= lines@.len(),
            lv == lines@.map_values(|p: Vec<char>| p@),
            match sep {
                None => find_separator_spec(lv, 0) == find_separator_spec(lv, i as int),
                Some(p) => find_separator_spec(lv, 0) == Some(p as int) && p < lines@.len(),
            },
        decreases lines@.len() - i, (if sep is None { 1int } else { 0int }),
    {
        proof {
            assert(lv[i as int] == lines@[i as int]@);
        }
        if text_eq(&lines[i], "===") {
            sep = Some(i);
        } else {
            i = i + 1;
        }
    }
    let p = match sep {
        Some(p) => p,
        None => {
            let marker = chars_of("===");
            return Err(AsmError::Syntax(string_of(&marker)));
        },
    };
    proof {
        assert(lv.take(p as int) =~= lv.subrange(0, p as int));
        assert(lv.skip(p + 1) =~= lv.subrange(p + 1, lv.len() as int));
    }
    let dchars = join_lines(&lines, 0, p);
    let ichars = join_lines(&lines, p + 1, lines.len());
    let dtext = string_of(&dchars);
    let itext = string_of(&ichars);
    let datas = match dmem::parse(dtext.as_str()) {
        Ok(v) => v,
        Err(e) => {
            return Err(e);
        },
    };
    let insts = match imem::parse(itext.as_str()) {
        Ok(v) => v,
        Err(e) => {
            return Err(e);
        },
    };
    match check::check(&datas, &insts) {
        Ok(_) => {},
        Err(e) => {
            return Err(e);
        },
    }
    let rinsts = match resolve::resolve(&datas, insts) {
        Ok(v) => v,
        Err(e) => {
            return Err(e);
        },
    };
    convert::convert(datas, rinsts, chunk_size)
}

/// Law: assembly is deterministic. The rendered images are a function
/// of the source text and the chunk size alone, so assembling the same
/// program twice yields byte-identical output.
pub proof fn lemma_assemble_deterministic(p1: Seq<char>, p2: Seq<char>, chunk1: nat, chunk2: nat)
    requires
        p1 == p2,
        chunk1 == chunk2,
    ensures
        assemble_spec(p1, chunk1) == assemble_spec(p2, chunk2),
{
}

} // verus!
