//! A frame as text: sixteen bytes to the line, in hexadecimal and as
//! characters.

use vstd::prelude::*;

verus! {

/// Number of columns of the two lines that frame a dump.
pub const HEXDUMP_WIDTH: usize = 70;

/// Number of bytes on a line of a dump.
pub const HEXDUMP_BYTES: usize = 16;

/// The digit of `n`, which is below sixteen, in lower-case hexadecimal.
pub open spec fn spec_hex_digit(n: u8) -> u8 {
    if n < 10 {
        (0x30 + n) as u8
    } else {
        (0x61 + n - 10) as u8
    }
}

/// The digit of `n`, which is below sixteen, in lower-case hexadecimal.
pub fn hex_digit(n: u8) -> (c: u8)
    requires
        n < 16,
    ensures
        c == spec_hex_digit(n),
{
    if n < 10 {
        0x30 + n
    } else {
        0x61 + (n - 10)
    }
}

/// The character that stands for byte `b` in a dump: itself if it can be
/// printed, a dot if not.
pub open spec fn spec_shown(b: u8) -> u8 {
    if 0x20 <= b <= 0x7e {
        b
    } else {
        0x2e
    }
}

/// The character that stands for byte `b` in a dump.
pub fn shown(b: u8) -> (c: u8)
    ensures
        c == spec_shown(b),
{
    if b >= 0x20 && b <= 0x7e {
        b
    } else {
        0x2e
    }
}

/// `n` times the character `c`.
pub open spec fn run_of(c: u8, n: int) -> Seq<u8> {
    Seq::new(n as nat, |i: int| c)
}

/// The hexadecimal column of the byte at `at`: two digits and a space, or
/// three spaces past the end of `data`.
pub open spec fn hex_cell(data: Seq<u8>, at: int) -> Seq<u8> {
    if at < data.len() {
        seq![spec_hex_digit(data[at] / 16), spec_hex_digit(data[at] % 16), 0x20u8]
    } else {
        run_of(0x20, 3)
    }
}

/// The character column of the byte at `at`: its character, or three spaces
/// past the end of `data`.
pub open spec fn text_cell(data: Seq<u8>, at: int) -> Seq<u8> {
    if at < data.len() {
        seq![spec_shown(data[at])]
    } else {
        run_of(0x20, 3)
    }
}

/// The first `k` hexadecimal columns of the line that starts at `offset`.
pub open spec fn hex_cells(data: Seq<u8>, offset: int, k: nat) -> Seq<u8>
    decreases k,
{
    if k == 0 {
        Seq::empty()
    } else {
        hex_cells(data, offset, (k - 1) as nat) + hex_cell(data, offset + k - 1)
    }
}

/// The first `k` character columns of the line that starts at `offset`.
pub open spec fn text_cells(data: Seq<u8>, offset: int, k: nat) -> Seq<u8>
    decreases k,
{
    if k == 0 {
        Seq::empty()
    } else {
        text_cells(data, offset, (k - 1) as nat) + text_cell(data, offset + k - 1)
    }
}

/// The line of the sixteen bytes from `offset` on: their hexadecimal columns,
/// six spaces, their character columns, and a line feed.
pub open spec fn dump_line(data: Seq<u8>, offset: int) -> Seq<u8> {
    hex_cells(data, offset, HEXDUMP_BYTES as nat) + run_of(0x20, 6) + text_cells(
        data,
        offset,
        HEXDUMP_BYTES as nat,
    ) + seq![0x0au8]
}

/// The first `k` lines of the dump of `data`.
pub open spec fn dump_lines(data: Seq<u8>, k: nat) -> Seq<u8>
    decreases k,
{
    if k == 0 {
        Seq::empty()
    } else {
        dump_lines(data, (k - 1) as nat) + dump_line(data, (k - 1) * HEXDUMP_BYTES)
    }
}

/// Number of lines that `len` bytes take.
pub open spec fn line_count(len: int) -> int {
    (len + HEXDUMP_BYTES - 1) / (HEXDUMP_BYTES as int)
}

/// `title` in the middle of a line of dashes, with a line feed; of the dashes
/// that do not come out even the one more is on the right.
pub open spec fn banner(title: Seq<u8>) -> Seq<u8> {
    let pad = HEXDUMP_WIDTH - title.len();
    run_of(0x2d, pad / 2) + title + run_of(0x2d, pad - pad / 2) + seq![0x0au8]
}

/// The words on the line above a dump.
pub open spec fn title_above() -> Seq<u8> {
    seq![0x20u8, 0x68, 0x65, 0x78, 0x64, 0x75, 0x6d, 0x70, 0x20]
}

/// The words on the line below a dump.
pub open spec fn title_below() -> Seq<u8> {
    seq![0x20u8, 0x68, 0x65, 0x78, 0x64, 0x75, 0x6d, 0x70, 0x20, 0x65, 0x6e, 0x64, 0x20]
}

/// The dump of `data`: a line that says so, the bytes sixteen to the line,
/// and a line that says that it is over.
pub open spec fn spec_hexdump(data: Seq<u8>) -> Seq<u8> {
    banner(title_above()) + dump_lines(data, line_count(data.len() as int) as nat) + banner(
        title_below(),
    )
}

/// Appends `n` times the character `c` to `text`.
fn push_run(text: &mut Vec<u8>, c: u8, n: usize)
    ensures
        final(text)@ == old(text)@ + run_of(c, n as int),
{
    let mut i: usize = 0;
    while i < n
        invariant
            i <= n,
            text@ == old(text)@ + run_of(c, i as int),
        decreases n - i,
    {
        text.push(c);
        i = i + 1;
    }
}

/// Appends the banner of `title` to `text`.
fn push_banner(text: &mut Vec<u8>, title: &[u8])
    requires
        title@.len() <= HEXDUMP_WIDTH,
    ensures
        final(text)@ == old(text)@ + banner(title@),
{
    let pad = HEXDUMP_WIDTH - title.len();
    push_run(text, 0x2d, pad / 2);
    let ghost dashed = text@;
    let mut i: usize = 0;
    while i < title.len()
        invariant
            i <= title@.len(),
            text@ == dashed + title@.take(i as int),
        decreases title@.len() - i,
    {
        text.push(title[i]);
        i = i + 1;
    }
    push_run(text, 0x2d, pad - pad / 2);
    text.push(0x0a);
}

/// Appends the line of the sixteen bytes of `data` from `offset` on to
/// `text`.
fn push_line(text: &mut Vec<u8>, data: &[u8], offset: usize)
    requires
        offset <= data@.len(),
    ensures
        final(text)@ == old(text)@ + dump_line(data@, offset as int),
{
    let ghost start = text@;
    let mut i: usize = 0;
    while i < HEXDUMP_BYTES
        invariant
            i <= HEXDUMP_BYTES,
            offset <= data@.len(),
            text@ == start + hex_cells(data@, offset as int, i as nat),
        decreases HEXDUMP_BYTES - i,
    {
        let ghost before = text@;
        if i < data.len() - offset {
            let b = data[offset + i];
            text.push(hex_digit(b / 16));
            text.push(hex_digit(b % 16));
            text.push(0x20);
        } else {
            push_run(text, 0x20, 3);
        }
        i = i + 1;
    }
    push_run(text, 0x20, 6);
    let ghost middle = text@;
    let mut i: usize = 0;
    while i < HEXDUMP_BYTES
        invariant
            i <= HEXDUMP_BYTES,
            offset <= data@.len(),
            text@ == middle + text_cells(data@, offset as int, i as nat),
        decreases HEXDUMP_BYTES - i,
    {
        let ghost before = text@;
        if i < data.len() - offset {
            text.push(shown(data[offset + i]));
        } else {
            push_run(text, 0x20, 3);
        }
        i = i + 1;
    }
    text.push(0x0a);
}

/// The dump of `data` as text: a line that says so, the bytes sixteen to the
/// line in hexadecimal and as characters, and a line that says that it is
/// over.
pub fn hexdump(data: &[u8]) -> (text: Vec<u8>)
    ensures
        text@ == spec_hexdump(data@),
{
    let mut text: Vec<u8> = Vec::new();
    let above: [u8; 9] = [0x20, 0x68, 0x65, 0x78, 0x64, 0x75, 0x6d, 0x70, 0x20];
    let below: [u8; 13] = [
        0x20,
        0x68,
        0x65,
        0x78,
        0x64,
        0x75,
        0x6d,
        0x70,
        0x20,
        0x65,
        0x6e,
        0x64,
        0x20,
    ];
    push_banner(&mut text, above.as_slice());
    let ghost headed = text@;
    let rest: usize = if data.len() % HEXDUMP_BYTES == 0 {
        0
    } else {
        1
    };
    let total = data.len() / HEXDUMP_BYTES + rest;
    let mut lines: usize = 0;
    while lines < total
        invariant
            lines <= total,
            total == line_count(data@.len() as int),
            total * HEXDUMP_BYTES < data@.len() + HEXDUMP_BYTES,
            data@.len() <= usize::MAX,
            text@ == headed + dump_lines(data@, lines as nat),
        decreases total - lines,
    {
        push_line(&mut text, data, lines * HEXDUMP_BYTES);
        lines = lines + 1;
    }
    push_banner(&mut text, below.as_slice());
    text
}

} // verus!
