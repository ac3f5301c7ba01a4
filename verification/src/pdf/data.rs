//! Names and strings as a PDF file writes them.

use crate::text::chars_of;
use vstd::prelude::*;
use vstd::string::*;

verus! {

/// The name of a PDF object or of a key of a dictionary, without the slash
/// that it is written with.
#[derive(Clone, Debug, Hash, PartialEq, Eq, PartialOrd, Ord)]
pub struct Name(pub String);

impl View for Name {
    type V = Seq<char>;

    open spec fn view(&self) -> Seq<char> {
        self.0@
    }
}

/// Whether `c` cannot stand in a written name as it is: white space, a
/// delimiter, or the number sign.
pub open spec fn is_name_special(c: char) -> bool {
    c == '\x00' || c == '\x09' || c == '\n' || c == '\r' || c == '\x0C' || c == ' ' || c == '('
        || c == ')' || c == '<' || c == '>' || c == '[' || c == ']' || c == '{' || c == '}' || c
        == '/' || c == '%' || c == '#'
}

/// The uppercase hexadecimal digit of `d`.
pub open spec fn hex_digit(d: int) -> char {
    if d == 0 {
        '0'
    } else if d == 1 {
        '1'
    } else if d == 2 {
        '2'
    } else if d == 3 {
        '3'
    } else if d == 4 {
        '4'
    } else if d == 5 {
        '5'
    } else if d == 6 {
        '6'
    } else if d == 7 {
        '7'
    } else if d == 8 {
        '8'
    } else if d == 9 {
        '9'
    } else if d == 10 {
        'A'
    } else if d == 11 {
        'B'
    } else if d == 12 {
        'C'
    } else if d == 13 {
        'D'
    } else if d == 14 {
        'E'
    } else {
        'F'
    }
}

/// How one character of a name is written: a special one as `#` and the two
/// hexadecimal digits of its code, any other as itself.
pub open spec fn name_piece(c: char) -> Seq<char> {
    if is_name_special(c) {
        seq!['#', hex_digit((c as int) / 16), hex_digit((c as int) % 16)]
    } else {
        seq![c]
    }
}

/// The first `n` characters of a name, as they are written.
pub open spec fn name_pieces(name: Seq<char>, n: int) -> Seq<char>
    decreases n,
{
    if n <= 0 {
        Seq::empty()
    } else {
        name_pieces(name, n - 1) + name_piece(name[n - 1])
    }
}

/// A name as a PDF file writes it: a slash, then its characters.
pub open spec fn written_name(name: Seq<char>) -> Seq<char> {
    seq!['/'] + name_pieces(name, name.len() as int)
}

fn hex_char(d: u32) -> (c: char)
    requires
        d < 16,
    ensures
        c == hex_digit(d as int),
{
    if d == 0 {
        '0'
    } else if d == 1 {
        '1'
    } else if d == 2 {
        '2'
    } else if d == 3 {
        '3'
    } else if d == 4 {
        '4'
    } else if d == 5 {
        '5'
    } else if d == 6 {
        '6'
    } else if d == 7 {
        '7'
    } else if d == 8 {
        '8'
    } else if d == 9 {
        '9'
    } else if d == 10 {
        'A'
    } else if d == 11 {
        'B'
    } else if d == 12 {
        'C'
    } else if d == 13 {
        'D'
    } else if d == 14 {
        'E'
    } else {
        'F'
    }
}

fn name_special(c: char) -> (b: bool)
    ensures
        b == is_name_special(c),
{
    c == '\x00' || c == '\x09' || c == '\n' || c == '\r' || c == '\x0C' || c == ' ' || c == '('
        || c == ')' || c == '<' || c == '>' || c == '[' || c == ']' || c == '{' || c == '}' || c
        == '/' || c == '%' || c == '#'
}

impl Name {
    /// The empty name.
    pub fn new() -> (name: Name)
        ensures
            name@ == Seq::<char>::empty(),
    {
        Name(String::new())
    }

    /// The name that `st` spells.
    pub fn from_string(st: String) -> (name: Name)
        ensures
            name@ == st@,
            name.0 == st,
    {
        Name(st)
    }

    /// The name that `st` spells.
    pub fn from_str(st: &str) -> (name: Name)
        ensures
            name@ == st@,
    {
        Name(String::from_str(st))
    }

    /// The name as a PDF file writes it.
    pub fn to_string(&self) -> (text: String)
        ensures
            text@ == written_name(self@),
    {
        let v = chars_of(self.0.as_str());
        let mut text = String::new();
        text.push('/');
        let mut i: usize = 0;
        while i < v.len()
            invariant
                i <= v.len(),
                v@ == self@,
                text@ == seq!['/'] + name_pieces(v@, i as int),
            decreases v.len() - i,
        {
            let c = v[i];
            let ghost was = text@;
            if name_special(c) {
                let code = c as u32;
                assert(code < 128) by {
                    assert(is_name_special(c));
                }
                text.push('#');
                text.push(hex_char(code / 16));
                text.push(hex_char(code % 16));
                assert(text@ =~= was + name_piece(c));
            } else {
                text.push(c);
                assert(text@ =~= was + name_piece(c));
            }
            i += 1;
            assert(text@ =~= seq!['/'] + name_pieces(v@, i as int));
        }
        text
    }
}

impl Default for Name {
    fn default() -> (name: Name)
        ensures
            name@ == Seq::<char>::empty(),
    {
        Name::new()
    }
}


/// Whether `c` cannot stand in a written string as it is: a line end, a
/// parenthesis or a backslash.
pub open spec fn is_string_special(c: char) -> bool {
    c == '\n' || c == '\r' || c == '(' || c == ')' || c == '\\'
}

/// How one character of a string is written: a special one as `#` and the
/// three octal digits of its code, any other as itself.
pub open spec fn string_piece(c: char) -> Seq<char> {
    if is_string_special(c) {
        seq![
            '#',
            hex_digit((c as int) / 64),
            hex_digit(((c as int) / 8) % 8),
            hex_digit((c as int) % 8),
        ]
    } else {
        seq![c]
    }
}

/// The first `n` characters of a string, as they are written.
pub open spec fn string_pieces(s: Seq<char>, n: int) -> Seq<char>
    decreases n,
{
    if n <= 0 {
        Seq::empty()
    } else {
        string_pieces(s, n - 1) + string_piece(s[n - 1])
    }
}

/// A string as a PDF file writes it.
pub open spec fn written_string(s: Seq<char>) -> Seq<char> {
    string_pieces(s, s.len() as int)
}

/// A string of characters as a PDF file writes it: a byte order mark, then
/// the string.
pub open spec fn written_char_string(s: Seq<char>) -> Seq<char> {
    seq!['\u{FEFF}'] + written_string(s)
}

fn string_special(c: char) -> (b: bool)
    ensures
        b == is_string_special(c),
{
    c == '\n' || c == '\r' || c == '(' || c == ')' || c == '\\'
}

/// Adds `s` to `out` as a PDF file writes it.
fn push_written(out: &mut String, s: &str)
    ensures
        final(out)@ == old(out)@ + written_string(s@),
{
    let v = chars_of(s);
    let ghost start = out@;
    let mut i: usize = 0;
    assert(out@ =~= start + string_pieces(v@, 0));
    while i < v.len()
        invariant
            i <= v.len(),
            v@ == s@,
            out@ == start + string_pieces(v@, i as int),
        decreases v.len() - i,
    {
        let c = v[i];
        let ghost was = out@;
        if string_special(c) {
            let code = c as u32;
            assert(code < 128);
            out.push('#');
            out.push(hex_char(code / 64));
            out.push(hex_char((code / 8) % 8));
            out.push(hex_char(code % 8));
            assert(out@ =~= was + string_piece(c));
        } else {
            out.push(c);
            assert(out@ =~= was + string_piece(c));
        }
        i += 1;
        assert(out@ =~= start + string_pieces(v@, i as int));
    }
}

/// A string as a PDF file writes it.
pub fn write_string(s: &str) -> (text: String)
    ensures
        text@ == written_string(s@),
{
    let mut text = String::new();
    push_written(&mut text, s);
    assert(Seq::<char>::empty() + written_string(s@) =~= written_string(s@));
    text
}

/// A string of characters as a PDF file writes it.
pub fn write_char_string(s: &str) -> (text: String)
    ensures
        text@ == written_char_string(s@),
{
    let mut text = String::new();
    text.push('\u{FEFF}');
    push_written(&mut text, s);
    text
}

} // verus!
