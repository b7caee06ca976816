//! The encoder: expands directives and resolved instructions to raw
//! bytes, pads to a whole number of chunks, and renders each chunk as
//! uppercase hexadecimal, reversed byte order within a chunk, one chunk
//! per line.
use vstd::prelude::*;

use crate::codec::{encode_word, inst_word};
use crate::dmem::{datas_model, CommandV, Data, DataV};
use crate::error::AsmError;
use crate::resolved;
use crate::text::string_of;

verus! {

use vstd::arithmetic::div_mod::lemma_fundamental_div_mod;
use vstd::utf8::encode_utf8;

/// The single byte a `char` directive emits: the low byte of its code
/// point.
pub open spec fn char_byte(c: char) -> u8 {
    (((c as u32) % 256) as u8)
}

/// The raw bytes one directive emits: multi-byte numeric commands
/// little-endian, a string as its UTF-8 bytes followed by one zero
/// byte.
pub open spec fn command_bytes(c: CommandV) -> Seq<u8> {
    match c {
        CommandV::Byte1(n) => seq![n],
        CommandV::Byte2(n) => seq![(n % 256) as u8, ((n / 0x100) % 256) as u8],
        CommandV::Byte4(n) => seq![
            (n % 256) as u8,
            ((n / 0x100) % 256) as u8,
            ((n / 0x10000) % 256) as u8,
            ((n / 0x1000000) % 256) as u8,
        ],
        CommandV::Byte6(n) => seq![
            (n % 256) as u8,
            ((n / 0x100) % 256) as u8,
            ((n / 0x10000) % 256) as u8,
            ((n / 0x1000000) % 256) as u8,
            ((n / 0x100000000) % 256) as u8,
            ((n / 0x10000000000) % 256) as u8,
        ],
        CommandV::Char(c) => seq![char_byte(c)],
        CommandV::Str(s) => encode_utf8(s) + seq![0u8],
    }
}

/// The data image: each directive's bytes in declaration order.
pub open spec fn datas_bytes(datas: Seq<DataV>) -> Seq<u8>
    decreases datas.len(),
{
    if datas.len() == 0 {
        Seq::<u8>::empty()
    } else {
        command_bytes(datas[0].command) + datas_bytes(datas.drop_first())
    }
}

/// A 48-bit word as six little-endian bytes.
pub open spec fn word_bytes(w: u64) -> Seq<u8> {
    seq![
        (w % 256) as u8,
        ((w / 0x100) % 256) as u8,
        ((w / 0x10000) % 256) as u8,
        ((w / 0x1000000) % 256) as u8,
        ((w / 0x100000000) % 256) as u8,
        ((w / 0x10000000000) % 256) as u8,
    ]
}

/// The instruction image: each instruction's word bytes in order.
pub open spec fn insts_bytes(insts: Seq<resolved::Inst>) -> Seq<u8>
    decreases insts.len(),
{
    if insts.len() == 0 {
        Seq::<u8>::empty()
    } else {
        word_bytes(inst_word(insts[0])) + insts_bytes(insts.drop_first())
    }
}

/// How many zero bytes bring `len` up to a whole number of chunks.
pub open spec fn pad_len(len: nat, chunk: nat) -> nat {
    if chunk == 0 || len % chunk == 0 {
        0
    } else {
        (chunk - (len % chunk)) as nat
    }
}

/// The byte image padded with zeros to a whole number of chunks.
pub open spec fn padded(bytes: Seq<u8>, chunk: nat) -> Seq<u8> {
    bytes + Seq::<u8>::new(pad_len(bytes.len(), chunk), |i: int| 0u8)
}

/// Law: with a positive chunk size, the padded image is a whole number
/// of chunks long, it begins with the unpadded bytes, and every padding
/// byte is zero.
pub proof fn lemma_padding(bytes: Seq<u8>, chunk: nat)
    requires
        chunk >= 1,
    ensures
        padded(bytes, chunk).len() % chunk == 0,
        padded(bytes, chunk).take(bytes.len() as int) == bytes,
        forall|i: int|
            bytes.len() <= i < padded(bytes, chunk).len() ==> padded(bytes, chunk)[i] == 0,
{
    let p = padded(bytes, chunk);
    assert(p.take(bytes.len() as int) =~= bytes);
    if bytes.len() % chunk != 0 {
        lemma_fundamental_div_mod(bytes.len() as int, chunk as int);
        assert(p.len() == (bytes.len() / chunk + 1) * chunk) by (nonlinear_arith)
            requires
                chunk >= 1,
                p.len() == bytes.len() + chunk - (bytes.len() % chunk),
                bytes.len() == (bytes.len() / chunk) * chunk + bytes.len() % chunk,
        ;
        assert((((bytes.len() / chunk + 1) * chunk) as int) % (chunk as int) == 0)
            by (nonlinear_arith)
            requires
                chunk >= 1,
        ;
    }
}

/// One uppercase hexadecimal digit.
pub open spec fn hex_digit(n: u8) -> char {
    if n == 0 {
        '0'
    } else if n == 1 {
        '1'
    } else if n == 2 {
        '2'
    } else if n == 3 {
        '3'
    } else if n == 4 {
        '4'
    } else if n == 5 {
        '5'
    } else if n == 6 {
        '6'
    } else if n == 7 {
        '7'
    } else if n == 8 {
        '8'
    } else if n == 9 {
        '9'
    } else if n == 10 {
        'A'
    } else if n == 11 {
        'B'
    } else if n == 12 {
        'C'
    } else if n == 13 {
        'D'
    } else if n == 14 {
        'E'
    } else {
        'F'
    }
}

/// One byte as two uppercase hexadecimal digits.
pub open spec fn byte_hex(b: u8) -> Seq<char> {
    seq![hex_digit(b / 16), hex_digit(b % 16)]
}

/// One chunk rendered: bytes in reverse order, two digits each, no
/// separator.
pub open spec fn chunk_hex(chunk: Seq<u8>) -> Seq<char>
    decreases chunk.len(),
{
    if chunk.len() == 0 {
        Seq::<char>::empty()
    } else {
        byte_hex(chunk.last()) + chunk_hex(chunk.drop_last())
    }
}

/// The whole image rendered: one chunk per line, joined by newlines.
pub open spec fn render_spec(bytes: Seq<u8>, chunk: nat) -> Seq<char>
    decreases bytes.len(),
{
    if chunk == 0 || bytes.len() == 0 {
        Seq::<char>::empty()
    } else if bytes.len() <= chunk {
        chunk_hex(bytes)
    } else {
        chunk_hex(bytes.take(chunk as int)) + seq!['\n'] + render_spec(
            bytes.skip(chunk as int),
            chunk,
        )
    }
}

fn hex_char(n: u8) -> (r: char)
    requires
        n < 16,
    ensures
        r == hex_digit(n),
{
    if n == 0 {
        '0'
    } else if n == 1 {
        '1'
    } else if n == 2 {
        '2'
    } else if n == 3 {
        '3'
    } else if n == 4 {
        '4'
    } else if n == 5 {
        '5'
    } else if n == 6 {
        '6'
    } else if n == 7 {
        '7'
    } else if n == 8 {
        '8'
    } else if n == 9 {
        '9'
    } else if n == 10 {
        'A'
    } else if n == 11 {
        'B'
    } else if n == 12 {
        'C'
    } else if n == 13 {
        'D'
    } else if n == 14 {
        'E'
    } else {
        'F'
    }
}

/// Renders padded bytes as chunked uppercase hexadecimal text.
fn render_hex(bytes: &Vec<u8>, chunk: usize) -> (r: Vec<char>)
    requires
        chunk >= 1,
        bytes@.len() % (chunk as nat) == 0,
    ensures
        r@ == render_spec(bytes@, chunk as nat),
{
    let len = bytes.len();
    let mut out: Vec<char> = Vec::new();
    let mut i: usize = 0;
    let ghost t = (len as int) / (chunk as int);
    proof {
        lemma_fundamental_div_mod(len as int, chunk as int);
    }
    let ghost mut j: int = 0;
    while i < len
        invariant
            chunk >= 1,
            len == bytes@.len(),
            (len as nat) % (chunk as nat) == 0,
            len == t * chunk,
            i == j * chunk,
            0 <= j <= t,
            i <= len,
            i == 0 ==> out@ == Seq::<char>::empty(),
            0 < i < len ==> render_spec(bytes@, chunk as nat) == out@ + seq!['\n'] + render_spec(
                bytes@.skip(i as int),
                chunk as nat,
            ),
            i > 0 && i == len ==> out@ == render_spec(bytes@, chunk as nat),
        decreases len - i,
    {
        proof {
            assert(j < t) by (nonlinear_arith)
                requires
                    i == j * chunk,
                    len == t * chunk,
                    i < len,
                    chunk >= 1,
            ;
            assert(i + chunk <= len) by (nonlinear_arith)
                requires
                    i == j * chunk,
                    len == t * chunk,
                    j < t,
                    chunk >= 1,
            ;
        }
        let ghost entry_out = out@;
        if i > 0 {
            out.push('\n');
        }
        let ghost base = out@;
        let ghost s = bytes@.subrange(i as int, i + chunk);
        proof {
            assert(s.take(chunk as int) =~= s);
        }
        let mut k: usize = i + chunk;
        while k > i
            invariant
                i <= k <= i + chunk,
                i + chunk <= len,
                len == bytes@.len(),
                s == bytes@.subrange(i as int, i + chunk),
                base + chunk_hex(s) == out@ + chunk_hex(s.take(k - i)),
            decreases k,
        {
            k = k - 1;
            let b = bytes[k];
            let ghost pre_out = out@;
            out.push(hex_char(b / 16));
            out.push(hex_char(b % 16));
            proof {
                assert(s.take(k - i + 1).last() == b);
                assert(s.take(k - i + 1).drop_last() =~= s.take(k - i));
                assert(pre_out + byte_hex(b) =~= out@);
                assert(base + chunk_hex(s) =~= out@ + chunk_hex(s.take(k - i)));
            }
        }
        proof {
            assert(s.take(0) =~= Seq::<u8>::empty());
            assert(out@ =~= base + chunk_hex(s));
            let rest = bytes@.skip(i as int);
            assert(rest.take(chunk as int) =~= s);
            if i + chunk < len {
                assert(rest.skip(chunk as int) =~= bytes@.skip(i + chunk));
                assert(render_spec(rest, chunk as nat) == chunk_hex(s) + seq!['\n'] + render_spec(
                    bytes@.skip(i + chunk),
                    chunk as nat,
                ));
            } else {
                assert(rest =~= s);
                assert(render_spec(rest, chunk as nat) == chunk_hex(s));
            }
            if i == 0 {
                assert(bytes@ =~= rest);
                if i + chunk < len {
                    assert(render_spec(bytes@, chunk as nat) =~= out@ + seq!['\n'] + render_spec(
                        bytes@.skip(i + chunk),
                        chunk as nat,
                    ));
                } else {
                    assert(render_spec(bytes@, chunk as nat) =~= out@);
                }
            } else {
                assert(render_spec(bytes@, chunk as nat) == entry_out + seq!['\n'] + render_spec(
                    bytes@.skip(i as int),
                    chunk as nat,
                ));
                assert(out@ =~= entry_out + seq!['\n'] + chunk_hex(s));
                if i + chunk < len {
                    assert(render_spec(bytes@, chunk as nat) =~= out@ + seq!['\n'] + render_spec(
                        bytes@.skip(i + chunk),
                        chunk as nat,
                    ));
                } else {
                    assert(render_spec(bytes@, chunk as nat) =~= out@);
                }
            }
        }
        proof {
            assert(i + chunk == (j + 1) * chunk) by (nonlinear_arith)
                requires
                    i == j * chunk,
            ;
        }
        i = i + chunk;
        proof {
            j = j + 1;
        }
    }
    proof {
        if len == 0 {
            assert(out@ =~= render_spec(bytes@, chunk as nat));
        }
    }
    out
}

/// Appends zero bytes until the image is a whole number of chunks.
fn pad_bytes(bytes: &mut Vec<u8>, chunk: usize)
    requires
        chunk >= 1,
    ensures
        final(bytes)@ == padded(old(bytes)@, chunk as nat),
        final(bytes)@.len() % (chunk as nat) == 0,
{
    let ghost orig = bytes@;
    let rem = bytes.len() % chunk;
    proof {
        lemma_padding(orig, chunk as nat);
    }
    if rem != 0 {
        let pad = chunk - rem;
        let mut k: usize = 0;
        while k < pad
            invariant
                0 <= k <= pad,
                pad == pad_len(orig.len(), chunk as nat),
                bytes@ == orig + Seq::<u8>::new(k as nat, |i: int| 0u8),
            decreases pad - k,
        {
            bytes.push(0);
            k = k + 1;
            proof {
                assert(bytes@ =~= orig + Seq::<u8>::new(k as nat, |i: int| 0u8));
            }
        }
        proof {
            assert(bytes@ =~= padded(orig, chunk as nat));
        }
    } else {
        proof {
            assert(bytes@ =~= padded(orig, chunk as nat));
        }
    }
}

/// Appends the bytes one directive emits.
fn push_command_bytes(bytes: &mut Vec<u8>, c: &crate::dmem::Command)
    ensures
        final(bytes)@ == old(bytes)@ + command_bytes(crate::dmem::command_model(*c)),
{
    let ghost orig = bytes@;
    match c {
        crate::dmem::Command::Byte1(n) => {
            bytes.push(*n);
        },
        crate::dmem::Command::Byte2(n) => {
            bytes.push((*n % 256) as u8);
            bytes.push(((*n / 0x100) % 256) as u8);
        },
        crate::dmem::Command::Byte4(n) => {
            bytes.push((*n % 256) as u8);
            bytes.push(((*n / 0x100) % 256) as u8);
            bytes.push(((*n / 0x10000) % 256) as u8);
            bytes.push(((*n / 0x1000000) % 256) as u8);
        },
        crate::dmem::Command::Byte6(n) => {
            bytes.push((*n % 256) as u8);
            bytes.push(((*n / 0x100) % 256) as u8);
            bytes.push(((*n / 0x10000) % 256) as u8);
            bytes.push(((*n / 0x1000000) % 256) as u8);
            bytes.push(((*n / 0x100000000) % 256) as u8);
            bytes.push(((*n / 0x10000000000) % 256) as u8);
        },
        crate::dmem::Command::Char(ch) => {
            bytes.push(((*ch as u32) % 256) as u8);
        },
        crate::dmem::Command::String(s) => {
            let raw: &[u8] = s.as_str().as_bytes();
            let m = raw.len();
            let mut k: usize = 0;
            while k < m
                invariant
                    0 <= k <= m,
                    m == raw@.len(),
                    raw@ == encode_utf8(s@),
                    bytes@ == orig + raw@.subrange(0, k as int),
                decreases m - k,
            {
                let b = *vstd::slice::slice_index_get(raw, k);
                bytes.push(b);
                k = k + 1;
                proof {
                    assert(bytes@ =~= orig + raw@.subrange(0, k as int));
                }
            }
            bytes.push(0);
            proof {
                assert(raw@.subrange(0, m as int) =~= raw@);
            }
        },
    }
    proof {
        assert(bytes@ =~= orig + command_bytes(crate::dmem::command_model(*c)));
    }
}

/// The rendered data image of a directive list at the given chunk size.
pub open spec fn command_convert_spec(datas: Seq<DataV>, chunk: nat) -> Seq<char> {
    render_spec(padded(datas_bytes(datas), chunk), chunk)
}

/// The rendered instruction image of a resolved list at the given chunk
/// size.
pub open spec fn inst_convert_spec(insts: Seq<resolved::Inst>, chunk: nat) -> Seq<char> {
    render_spec(padded(insts_bytes(insts), chunk), chunk)
}

/// Serializes the data directives: raw bytes, zero padding to a whole
/// number of chunks, then chunked hexadecimal text.
pub fn command_convert(datas: Vec<Data>, chunk_size: usize) -> (r: Result<String, AsmError>)
    requires
        chunk_size >= 1,
    ensures
        r matches Ok(s) && s@ == command_convert_spec(datas_model(datas@), chunk_size as nat),
{
    let ghost dm = datas_model(datas@);
    let mut bytes: Vec<u8> = Vec::new();
    let mut i: usize = 0;
    proof {
        assert(dm.skip(0) =~= dm);
    }
    while i < datas.len()
        invariant
            0 <= i <= datas@.len(),
            dm == datas_model(datas@),
            datas_bytes(dm) == bytes@ + datas_bytes(dm.skip(i as int)),
        decreases datas@.len() - i,
    {
        let ghost old_bytes = bytes@;
        proof {
            assert(dm[i as int] == crate::dmem::data_model(datas@[i as int]));
            assert(dm.skip(i as int).drop_first() =~= dm.skip(i + 1));
            assert(dm.skip(i as int)[0] == dm[i as int]);
        }
        push_command_bytes(&mut bytes, &datas[i].command);
        proof {
            assert(old_bytes + (command_bytes(dm[i as int].command) + datas_bytes(dm.skip(i + 1)))
                =~= bytes@ + datas_bytes(dm.skip(i + 1)));
        }
        i = i + 1;
    }
    proof {
        assert(dm.skip(dm.len() as int) =~= Seq::<DataV>::empty());
        assert(bytes@ + Seq::<u8>::empty() =~= bytes@);
    }
    pad_bytes(&mut bytes, chunk_size);
    let rendered = render_hex(&bytes, chunk_size);
    Ok(string_of(&rendered))
}

/// Serializes the resolved instructions: one 48-bit word each, six
/// little-endian bytes, padded and rendered the same way.
pub fn inst_convert(insts: Vec<resolved::Inst>, chunk_size: usize) -> (r: Result<String, AsmError>)
    requires
        chunk_size >= 1,
    ensures
        r matches Ok(s) && s@ == inst_convert_spec(insts@, chunk_size as nat),
{
    let mut bytes: Vec<u8> = Vec::new();
    let mut i: usize = 0;
    proof {
        assert(insts@.skip(0) =~= insts@);
    }
    while i < insts.len()
        invariant
            0 <= i <= insts@.len(),
            insts_bytes(insts@) == bytes@ + insts_bytes(insts@.skip(i as int)),
        decreases insts@.len() - i,
    {
        let ghost old_bytes = bytes@;
        proof {
            assert(insts@.skip(i as int).drop_first() =~= insts@.skip(i + 1));
            assert(insts@.skip(i as int)[0] == insts@[i as int]);
        }
        let w = encode_word(&insts[i]);
        bytes.push((w % 256) as u8);
        bytes.push(((w / 0x100) % 256) as u8);
        bytes.push(((w / 0x10000) % 256) as u8);
        bytes.push(((w / 0x1000000) % 256) as u8);
        bytes.push(((w / 0x100000000) % 256) as u8);
        bytes.push(((w / 0x10000000000) % 256) as u8);
        proof {
            assert(bytes@ =~= old_bytes + word_bytes(w));
            assert(old_bytes + (word_bytes(w) + insts_bytes(insts@.skip(i + 1))) =~= bytes@
                + insts_bytes(insts@.skip(i + 1)));
        }
        i = i + 1;
    }
    proof {
        assert(insts@.skip(insts@.len() as int) =~= Seq::<resolved::Inst>::empty());
        assert(bytes@ + Seq::<u8>::empty() =~= bytes@);
    }
    pad_bytes(&mut bytes, chunk_size);
    let rendered = render_hex(&bytes, chunk_size);
    Ok(string_of(&rendered))
}

/// Serializes both images with one chunk size: the data image and the
/// instruction image, independently rendered.
pub fn convert(datas: Vec<Data>, insts: Vec<resolved::Inst>, chunk_size: usize) -> (r: Result<
    (String, String),
    AsmError,
>)
    requires
        chunk_size >= 1,
    ensures
        r matches Ok(p) && p.0@ == command_convert_spec(datas_model(datas@), chunk_size as nat)
            && p.1@ == inst_convert_spec(insts@, chunk_size as nat),
{
    let ghost dm = datas_model(datas@);
    let d = match command_convert(datas, chunk_size) {
        Ok(s) => s,
        Err(e) => {
            return Err(e);
        },
    };
    let s = match inst_convert(insts, chunk_size) {
        Ok(s) => s,
        Err(e) => {
            return Err(e);
        },
    };
    Ok((d, s))
}

} // verus!
