//! The `xxd`-style dump shown for binary content.

use crate::text::string_from_chars;
use vstd::prelude::*;

verus! {

/// Bytes shown on one line of the dump.
pub const LINE_BYTES: usize = 16;

/// Width of the column that holds the hexadecimal words.
pub const HEX_COLUMN: usize = 40;

/// The lower-case hexadecimal digit for `d`.
pub open spec fn hex_digit(d: nat) -> char {
    if d < 10 {
        ((48 + d) as u8) as char
    } else {
        ((87 + d) as u8) as char
    }
}

/// `n` in lower-case hexadecimal, with leading zeros up to `width` digits.
pub open spec fn hex_padded(n: nat, width: nat) -> Seq<char>
    decreases n, width,
{
    if n == 0 && width == 0 {
        Seq::empty()
    } else {
        hex_padded(n / 16, if width > 0 { (width - 1) as nat } else { 0 }).push(hex_digit(n % 16))
    }
}

/// The two hexadecimal digits of a byte.
pub open spec fn hex_byte(b: u8) -> Seq<char> {
    seq![hex_digit(b as nat / 16), hex_digit(b as nat % 16)]
}

/// The hexadecimal words of one line: pairs of bytes, each pair followed by a space;
/// a lone last byte is followed by two spaces and then the separating space.
pub open spec fn hex_words(chunk: Seq<u8>) -> Seq<char>
    decreases chunk.len(),
{
    if chunk.len() == 0 {
        Seq::empty()
    } else if chunk.len() == 1 {
        hex_byte(chunk[0]) + seq![' ', ' ', ' ']
    } else {
        hex_byte(chunk[0]) + hex_byte(chunk[1]) + seq![' '] + hex_words(chunk.skip(2))
    }
}

/// `n` spaces.
pub open spec fn spaces(n: nat) -> Seq<char> {
    Seq::new(n, |i: int| ' ')
}

/// Whether a byte is shown as itself in the text column: printable ASCII other than space.
pub open spec fn is_graphic(b: u8) -> bool {
    0x21 <= b <= 0x7e
}

/// How a byte is shown in the text column.
pub open spec fn gutter_char(b: u8) -> char {
    if is_graphic(b) {
        b as char
    } else {
        '.'
    }
}

/// The text column of one line.
pub open spec fn gutter(chunk: Seq<u8>) -> Seq<char> {
    chunk.map_values(|b: u8| gutter_char(b))
}

/// One line of the dump: the offset of its first byte, the words padded to a fixed
/// column, a space and the text column.
pub open spec fn dump_line(offset: nat, chunk: Seq<u8>) -> Seq<char> {
    hex_padded(offset, 8) + seq![':', ' '] + hex_words(chunk) + spaces(
        (HEX_COLUMN - hex_words(chunk).len()) as nat,
    ) + seq![' '] + gutter(chunk)
}

/// The `i`-th group of sixteen bytes (the last one may be shorter).
pub open spec fn chunk_of(data: Seq<u8>, i: nat) -> Seq<u8> {
    let start = (i * LINE_BYTES) as nat;
    let end = if start + LINE_BYTES <= data.len() { start + LINE_BYTES } else { data.len() as int };
    data.subrange(start as int, end)
}

/// The number of lines of the dump.
pub open spec fn line_count(len: nat) -> nat {
    (len + LINE_BYTES - 1) as nat / LINE_BYTES as nat
}

/// The first `n` lines of the dump of `data`, separated by line feeds.
pub open spec fn dump_lines(data: Seq<u8>, n: nat) -> Seq<char>
    decreases n,
{
    if n == 0 {
        Seq::empty()
    } else if n == 1 {
        dump_line(0, chunk_of(data, 0))
    } else {
        let i = (n - 1) as nat;
        dump_lines(data, i) + seq!['\n'] + dump_line((i * LINE_BYTES) as nat, chunk_of(data, i))
    }
}

/// The whole dump of `data`.
pub open spec fn hexdump(data: Seq<u8>) -> Seq<char> {
    dump_lines(data, line_count(data.len()))
}

/// A dump of seventeen to thirty-two bytes is two lines, joined by one line feed: the
/// first sixteen bytes at offset 0, the rest at offset 16.
pub proof fn lemma_two_line_dump(data: Seq<u8>)
    requires
        16 < data.len() <= 32,
    ensures
        hexdump(data) == dump_line(0, data.take(16)) + seq!['\n'] + dump_line(16, data.subrange(16, data.len() as int)),
        chunk_of(data, 1).len() == data.len() - 16,
{
    assert(line_count(data.len()) == 2) by (nonlinear_arith)
        requires
            16 < data.len() <= 32,
            line_count(data.len()) == (data.len() + 15) as nat / 16,
    ;
    assert(chunk_of(data, 0) =~= data.take(16));
    assert(chunk_of(data, 1) =~= data.subrange(16, data.len() as int));
    assert(dump_lines(data, 1) == dump_line(0, chunk_of(data, 0)));
    assert(dump_lines(data, 2) == dump_lines(data, 1) + seq!['\n'] + dump_line(16, chunk_of(data, 1)));
}

/// A dump of one to sixteen bytes is a single line, with no line feed.
pub proof fn lemma_one_line_dump(data: Seq<u8>)
    requires
        0 < data.len() <= 16,
    ensures
        hexdump(data) == dump_line(0, data),
{
    assert(line_count(data.len()) == 1) by (nonlinear_arith)
        requires
            0 < data.len() <= 16,
            line_count(data.len()) == (data.len() + 15) as nat / 16,
    ;
    assert(chunk_of(data, 0) =~= data);
    assert(dump_lines(data, 1) == dump_line(0, chunk_of(data, 0)));
}

proof fn lemma_hex_words_len(chunk: Seq<u8>)
    ensures
        hex_words(chunk).len() == 5 * ((chunk.len() + 1) / 2),
    decreases chunk.len(),
{
    if chunk.len() >= 2 {
        lemma_hex_words_len(chunk.skip(2));
    }
}

proof fn lemma_next_line(line: nat, len: nat)
    requires
        line * 16 < len,
    ensures
        len <= line * 16 + 16 ==> line_count(len) == line + 1,
        len > line * 16 + 16 ==> line + 1 < line_count(len),
{
    assert(len <= line * 16 + 16 ==> (len + 15) / 16 == line + 1) by (nonlinear_arith)
        requires
            line * 16 < len,
    ;
    assert(len > line * 16 + 16 ==> line + 1 < (len + 15) / 16) by (nonlinear_arith)
        requires
            line * 16 < len,
    ;
}

fn hex_digit_char(d: u8) -> (c: char)
    requires
        d < 16,
    ensures
        c == hex_digit(d as nat),
{
    if d < 10 {
        (48 + d) as char
    } else {
        (87 + d) as char
    }
}

fn push_hex_padded(out: &mut Vec<char>, n: usize, width: usize)
    ensures
        final(out)@ == old(out)@ + hex_padded(n as nat, width as nat),
    decreases n, width,
{
    if n == 0 && width == 0 {
        assert(old(out)@ + hex_padded(0, 0) =~= old(out)@);
        return;
    }
    let w = if width > 0 { width - 1 } else { 0 };
    push_hex_padded(out, n / 16, w);
    out.push(hex_digit_char((n % 16) as u8));
    assert(final(out)@ =~= old(out)@ + hex_padded(n as nat, width as nat));
}

fn push_hex_byte(out: &mut Vec<char>, b: u8)
    ensures
        final(out)@ == old(out)@ + hex_byte(b),
{
    out.push(hex_digit_char(b / 16));
    out.push(hex_digit_char(b % 16));
    assert(final(out)@ =~= old(out)@ + hex_byte(b));
}

fn push_hex_words(out: &mut Vec<char>, data: &[u8], start: usize, end: usize)
    requires
        start <= end <= data@.len(),
    ensures
        final(out)@ == old(out)@ + hex_words(data@.subrange(start as int, end as int)),
    decreases end - start,
{
    let ghost chunk = data@.subrange(start as int, end as int);
    if start == end {
        assert(old(out)@ + hex_words(chunk) =~= old(out)@);
    } else if end - start == 1 {
        push_hex_byte(out, data[start]);
        out.push(' ');
        out.push(' ');
        out.push(' ');
        assert(final(out)@ =~= old(out)@ + hex_words(chunk));
    } else {
        push_hex_byte(out, data[start]);
        push_hex_byte(out, data[start + 1]);
        out.push(' ');
        push_hex_words(out, data, start + 2, end);
        assert(chunk.skip(2) =~= data@.subrange(start + 2, end as int));
        assert(final(out)@ =~= old(out)@ + hex_words(chunk));
    }
}

fn push_spaces(out: &mut Vec<char>, n: usize)
    ensures
        final(out)@ == old(out)@ + spaces(n as nat),
{
    let mut k: usize = 0;
    while k < n
        invariant
            k <= n,
            out@ == old(out)@ + spaces(k as nat),
        decreases n - k,
    {
        out.push(' ');
        k = k + 1;
        assert(out@ =~= old(out)@ + spaces(k as nat));
    }
}

fn push_gutter(out: &mut Vec<char>, data: &[u8], start: usize, end: usize)
    requires
        start <= end <= data@.len(),
    ensures
        final(out)@ == old(out)@ + gutter(data@.subrange(start as int, end as int)),
{
    let mut k: usize = start;
    while k < end
        invariant
            start <= k <= end <= data@.len(),
            out@ == old(out)@ + gutter(data@.subrange(start as int, k as int)),
        decreases end - k,
    {
        let b = data[k];
        if 0x21 <= b && b <= 0x7e {
            out.push(b as char);
        } else {
            out.push('.');
        }
        k = k + 1;
        assert(out@ =~= old(out)@ + gutter(data@.subrange(start as int, k as int)));
    }
}

fn push_line(out: &mut Vec<char>, data: &[u8], start: usize, end: usize)
    requires
        start <= end <= data@.len(),
        end - start <= LINE_BYTES,
    ensures
        final(out)@ == old(out)@ + dump_line(start as nat, data@.subrange(start as int, end as int)),
{
    let ghost chunk = data@.subrange(start as int, end as int);
    push_hex_padded(out, start, 8);
    out.push(':');
    out.push(' ');
    let words_at = out.len();
    push_hex_words(out, data, start, end);
    proof {
        lemma_hex_words_len(chunk);
    }
    let used = out.len() - words_at;
    push_spaces(out, HEX_COLUMN - used);
    out.push(' ');
    push_gutter(out, data, start, end);
    assert(final(out)@ =~= old(out)@ + dump_line(start as nat, chunk));
}

/// Renders bytes the way `xxd` does: sixteen bytes per line, as offset, hexadecimal
/// words and printable characters.
pub fn fmt_xxd_hexdump(data: &[u8]) -> (r: String)
    ensures
        r@ == hexdump(data@),
{
    let mut out: Vec<char> = Vec::new();
    let len = data.len();
    let mut start: usize = 0;
    let ghost mut line: nat = 0;
    while start < len
        invariant
            len == data@.len(),
            start <= len,
            start < len ==> start == line * LINE_BYTES && line < line_count(len as nat),
            start == len ==> line == line_count(len as nat),
            (start == 0) == (line == 0),
            out@ == dump_lines(data@, line),
        decreases len - start,
    {
        let end = if len - start >= LINE_BYTES { start + LINE_BYTES } else { len };
        let ghost chunk = chunk_of(data@, line);
        assert(chunk == data@.subrange(start as int, end as int));
        let ghost before = out@;
        if start > 0 {
            out.push('\n');
        }
        push_line(&mut out, data, start, end);
        assert(line == 0 ==> out@ =~= dump_lines(data@, line + 1));
        assert(line > 0 ==> out@ =~= dump_lines(data@, line + 1));
        proof {
            lemma_next_line(line, len as nat);
            line = line + 1;
        }
        start = end;
    }
    string_from_chars(&out)
}

} // verus!
