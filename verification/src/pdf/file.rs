//! The frame of a PDF file: its header, its table of cross references and
//! its end.

use crate::text::{decimal, decimal_of, decimal_string};
use vstd::prelude::*;
use vstd::string::*;

verus! {

/// The first line of a file, which names the version of PDF.
pub const HEADER: &'static str = "%PDF-2.0\n";

/// A comment line that marks the file as holding more than ASCII.
pub const UTF8_MARKER: &'static str = "%\u{1F980}\n";

/// The last line of a file.
pub const EOF: &'static str = "%%EOF\n";

/// What ends each line of the cross-reference table.
pub const XREF_TAB_EOL: &'static str = "\r\n";

/// The entry of object 0, the head of the list of free objects.
pub const OBJ0_LINE: &'static str = "0000000000 65535 f";

/// `n` zeros.
pub open spec fn zeros(n: int) -> Seq<char>
    decreases n,
{
    if n <= 0 {
        Seq::empty()
    } else {
        zeros(n - 1).push('0')
    }
}

/// The decimal numeral of `n`, with zeros before it up to ten digits.
pub open spec fn ten_digits(n: nat) -> Seq<char> {
    zeros(10 - decimal(n).len()) + decimal(n)
}

/// The line of the table that gives the object at the offset `pos`.
pub open spec fn xref_line(pos: u32) -> Seq<char> {
    ten_digits(pos as nat) + " 00000 n"@ + "\r\n"@
}

/// The lines of the first `n` of `positions`.
pub open spec fn xref_lines(positions: Seq<u32>, n: int) -> Seq<char>
    decreases n,
{
    if n <= 0 {
        Seq::empty()
    } else {
        xref_lines(positions, n - 1) + xref_line(positions[n - 1])
    }
}

/// The table of cross references of a file whose objects, numbered from 1,
/// lie at `positions`: the number of entries, the entry of the object 0 that
/// no file has, and one line for each object.
pub open spec fn xref_table(positions: Seq<u32>) -> Seq<char> {
    "xref\n"@ + "0 "@ + decimal((positions.len() + 1) as nat) + "\n"@ + "0000000000 65535 f"@
        + "\r\n"@ + xref_lines(positions, positions.len() as int)
}

/// The end of a file whose table of cross references starts at the offset
/// `start`.
pub open spec fn file_end(start: u32) -> Seq<char> {
    "startxref\n"@ + decimal(start as nat) + "\n"@ + "%%EOF\n"@
}

/// The decimal numeral of `n`, with zeros before it up to ten digits.
pub fn ten_digit_string(n: u32) -> (s: String)
    ensures
        s@ == ten_digits(n as nat),
{
    let digits = decimal_string(n as u64);
    let len = digits.as_str().unicode_len();
    let mut s = String::new();
    let mut k: usize = 0;
    while k + len < 10
        invariant
            len == decimal(n as nat).len(),
            k + len <= 10 || k == 0,
            s@ == zeros(k as int),
        decreases 10 - k,
    {
        s.push('0');
        k += 1;
    }
    proof {
        if len >= 10 {
            assert(zeros(10 - len) =~= Seq::<char>::empty());
        }
    }
    s.append(digits.as_str());
    s
}

/// The table of cross references of a file whose objects, numbered from 1,
/// lie at `positions`.
pub fn write_xref_table(positions: &Vec<u32>) -> (s: String)
    ensures
        s@ == xref_table(positions@),
{
    let mut s = String::from_str("xref\n");
    s.append("0 ");
    let count = decimal_of(positions.len() as u128 + 1);
    s.append(count.as_str());
    s.append("\n");
    s.append(OBJ0_LINE);
    s.append(XREF_TAB_EOL);
    let ghost head = s@;
    assert(s@ =~= head + xref_lines(positions@, 0));
    let mut i: usize = 0;
    while i < positions.len()
        invariant
            i <= positions.len(),
            s@ == head + xref_lines(positions@, i as int),
        decreases positions.len() - i,
    {
        let ghost was = s@;
        let line = ten_digit_string(positions[i]);
        s.append(line.as_str());
        s.append(" 00000 n");
        s.append(XREF_TAB_EOL);
        assert(s@ =~= was + xref_line(positions@[i as int]));
        i += 1;
        assert(s@ =~= head + xref_lines(positions@, i as int));
    }
    s
}

/// The end of a file whose table of cross references starts at the offset
/// `start`.
pub fn write_file_end(start: u32) -> (s: String)
    ensures
        s@ == file_end(start),
{
    let mut s = String::from_str("startxref\n");
    let offset = decimal_string(start as u64);
    s.append(offset.as_str());
    s.append("\n");
    s.append(EOF);
    s
}

} // verus!
