//! Character and string primitives shared by the rest of the library.
//!
//! Text is modelled as `Seq<char>`. Executable code that has to look inside a
//! string first spreads it into a `Vec<char>` and works on index ranges of it.

use vstd::prelude::*;

verus! {

/// A list of pairs of texts, such as attributes with their values.
pub type Pairs = Seq<(Seq<char>, Seq<char>)>;

/// The text of each of `s`, in order.
pub open spec fn text_views(s: Seq<String>) -> Seq<Seq<char>> {
    Seq::new(s.len(), |i: int| s[i]@)
}

/// What a list of pairs of strings holds, as text.
pub open spec fn pair_views(pairs: Seq<(String, String)>) -> Pairs {
    Seq::new(pairs.len(), |i: int| (pairs[i].0@, pairs[i].1@))
}

/// Whether `c` is alphabetic or numeric in the sense of Unicode, as
/// `char::is_alphanumeric` decides it.
pub uninterp spec fn char_is_alphanumeric(c: char) -> bool;

/// Whether `c` has the Unicode property `White_Space`, which is what
/// `char::is_whitespace` decides: the controls from tab to carriage return,
/// the space, the next-line control, the no-break space, the Ogham space
/// mark, the spaces from en quad to hair space, the line and the paragraph
/// separator, the narrow no-break space, the medium mathematical space and
/// the ideographic space.
pub open spec fn char_is_whitespace(c: char) -> bool {
    let n = c as u32;
    0x09 <= n <= 0x0d || n == 0x20 || n == 0x85 || n == 0xa0 || n == 0x1680 || 0x2000 <= n
        <= 0x200a || n == 0x2028 || n == 0x2029 || n == 0x202f || n == 0x205f || n == 0x3000
}

/// The characters that `char::to_lowercase` yields for `c`, in order.
pub uninterp spec fn char_lowercase(c: char) -> Seq<char>;

/// `char::is_alphanumeric` is a fixed table lookup: its answer is what
/// [`char_is_alphanumeric`] names.
pub assume_specification[ char::is_alphanumeric ](c: char) -> (b: bool)
    ensures
        b == char_is_alphanumeric(c),
;

/// `char::is_whitespace` tells whether the character has the Unicode
/// property `White_Space`, which [`char_is_whitespace`] writes out.
pub assume_specification[ char::is_whitespace ](c: char) -> (b: bool)
    ensures
        b == char_is_whitespace(c),
;

/// `String::push` appends the one character to the end of the string.
pub assume_specification[ String::push ](s: &mut String, c: char)
    ensures
        final(s)@ == old(s)@.push(c),
;

/// Collects what `char::to_lowercase` yields for `c`: the lowercase mapping
/// that [`char_lowercase`] names.
#[verifier::external_body]
pub(crate) fn lowercase_chars(c: char) -> (v: Vec<char>)
    ensures
        v@ == char_lowercase(c),
{
    c.to_lowercase().collect()
}

/// The index of the first `c` in `s`, or `s.len()` where there is none.
pub open spec fn find_char(s: Seq<char>, c: char) -> int
    decreases s.len(),
{
    if s.len() == 0 {
        0
    } else if s[0] == c {
        0
    } else {
        1 + find_char(s.drop_first(), c)
    }
}

/// The index of the first whitespace character in `s`, or `s.len()`.
pub open spec fn find_whitespace(s: Seq<char>) -> int
    decreases s.len(),
{
    if s.len() == 0 {
        0
    } else if char_is_whitespace(s[0]) {
        0
    } else {
        1 + find_whitespace(s.drop_first())
    }
}

/// Whether `pat` occurs in `s` at index `i`.
pub open spec fn occurs_at(s: Seq<char>, pat: Seq<char>, i: int) -> bool {
    0 <= i && i + pat.len() <= s.len() && s.subrange(i, i + pat.len()) == pat
}

/// Whether `pat` occurs somewhere in `s`.
pub open spec fn contains_sub(s: Seq<char>, pat: Seq<char>) -> bool {
    exists|i: int| occurs_at(s, pat, i)
}

/// The index of the first occurrence of `pat` in `s`, or `s.len()` where
/// there is none that starts at or after `from`.
pub open spec fn find_sub_from(s: Seq<char>, pat: Seq<char>, from: int) -> int
    decreases s.len() - from,
{
    if from >= s.len() {
        s.len() as int
    } else if occurs_at(s, pat, from) {
        from
    } else {
        find_sub_from(s, pat, from + 1)
    }
}

/// The index of the first occurrence of a non-empty `pat` in `s`, or
/// `s.len()` where there is none.
pub open spec fn find_sub(s: Seq<char>, pat: Seq<char>) -> int {
    find_sub_from(s, pat, 0)
}

/// Whether `s` begins with `pat`.
pub open spec fn starts_with(s: Seq<char>, pat: Seq<char>) -> bool {
    occurs_at(s, pat, 0)
}

/// Whether `s` ends with `pat`.
pub open spec fn ends_with(s: Seq<char>, pat: Seq<char>) -> bool {
    occurs_at(s, pat, s.len() - pat.len())
}

/// `s` without the prefix `pat`, where it has that prefix.
pub open spec fn strip_prefix(s: Seq<char>, pat: Seq<char>) -> Option<Seq<char>> {
    if starts_with(s, pat) {
        Some(s.skip(pat.len() as int))
    } else {
        None
    }
}

/// `s` without the suffix `pat`, where it has that suffix.
pub open spec fn strip_suffix(s: Seq<char>, pat: Seq<char>) -> Option<Seq<char>> {
    if ends_with(s, pat) {
        Some(s.take(s.len() - pat.len()))
    } else {
        None
    }
}

/// The number of whitespace characters at the start of `s`.
pub open spec fn leading_whitespace(s: Seq<char>) -> int
    decreases s.len(),
{
    if s.len() == 0 {
        0
    } else if !char_is_whitespace(s[0]) {
        0
    } else {
        1 + leading_whitespace(s.drop_first())
    }
}

/// The number of whitespace characters at the end of `s`.
pub open spec fn trailing_whitespace(s: Seq<char>) -> int
    decreases s.len(),
{
    if s.len() == 0 {
        0
    } else if !char_is_whitespace(s.last()) {
        0
    } else {
        1 + trailing_whitespace(s.drop_last())
    }
}

/// `s` without its leading and trailing whitespace.
pub open spec fn trimmed(s: Seq<char>) -> Seq<char> {
    let rest = s.skip(leading_whitespace(s));
    rest.take(rest.len() - trailing_whitespace(rest))
}

/// What [`find_char`] gives lies in `s`, no `c` stands before it, and a `c`
/// stands at it unless it is the end.
pub proof fn lemma_find_char(s: Seq<char>, c: char)
    ensures
        0 <= find_char(s, c) <= s.len(),
        forall|j: int| 0 <= j < find_char(s, c) ==> s[j] != c,
        find_char(s, c) < s.len() ==> s[find_char(s, c)] == c,
    decreases s.len(),
{
    if s.len() > 0 && s[0] != c {
        let t = s.drop_first();
        lemma_find_char(t, c);
        assert forall|j: int| 0 <= j < find_char(s, c) implies s[j] != c by {
            if j > 0 {
                assert(s[j] == t[j - 1]);
            }
        }
    }
}

/// An index with no `c` before it and a `c` at it (or the end of `s`) is
/// the one that [`find_char`] gives.
pub proof fn lemma_find_char_is(s: Seq<char>, c: char, i: int)
    requires
        0 <= i <= s.len(),
        forall|j: int| 0 <= j < i ==> s[j] != c,
        i < s.len() ==> s[i] == c,
    ensures
        find_char(s, c) == i,
{
    lemma_find_char(s, c);
    let k = find_char(s, c);
    if k < i {
        assert(s[k] == c);
    } else if i < k {
        assert(s[i] == c);
    }
}

/// What [`find_whitespace`] gives lies in `s`, no whitespace stands before
/// it, and whitespace stands at it unless it is the end.
pub proof fn lemma_find_whitespace(s: Seq<char>)
    ensures
        0 <= find_whitespace(s) <= s.len(),
        forall|j: int| 0 <= j < find_whitespace(s) ==> !char_is_whitespace(s[j]),
        find_whitespace(s) < s.len() ==> char_is_whitespace(s[find_whitespace(s)]),
    decreases s.len(),
{
    if s.len() > 0 && !char_is_whitespace(s[0]) {
        let t = s.drop_first();
        lemma_find_whitespace(t);
        assert forall|j: int| 0 <= j < find_whitespace(s) implies !char_is_whitespace(s[j]) by {
            if j > 0 {
                assert(s[j] == t[j - 1]);
            }
        }
    }
}

/// The one index before which no whitespace stands, and at which whitespace
/// stands or `s` ends, is what [`find_whitespace`] gives.
pub proof fn lemma_find_whitespace_is(s: Seq<char>, i: int)
    requires
        0 <= i <= s.len(),
        forall|j: int| 0 <= j < i ==> !char_is_whitespace(s[j]),
        i < s.len() ==> char_is_whitespace(s[i]),
    ensures
        find_whitespace(s) == i,
{
    lemma_find_whitespace(s);
    let k = find_whitespace(s);
    if k < i {
        assert(char_is_whitespace(s[k]));
    } else if i < k {
        assert(char_is_whitespace(s[i]));
    }
}

/// What [`find_sub_from`] gives is no less than `from` or the end; `pat`
/// occurs nowhere between `from` and it, and occurs at it unless it is the
/// end.
pub proof fn lemma_find_sub_from(s: Seq<char>, pat: Seq<char>, from: int)
    requires
        0 <= from,
    ensures
        from <= find_sub_from(s, pat, from) || find_sub_from(s, pat, from) == s.len(),
        find_sub_from(s, pat, from) <= s.len() || from > s.len(),
        forall|j: int| from <= j < find_sub_from(s, pat, from) ==> !occurs_at(s, pat, j),
        find_sub_from(s, pat, from) < s.len() ==> occurs_at(
            s,
            pat,
            find_sub_from(s, pat, from),
        ),
    decreases s.len() - from,
{
    if from < s.len() && !occurs_at(s, pat, from) {
        lemma_find_sub_from(s, pat, from + 1);
    }
}

/// A non-empty pattern occurs in `s` exactly when [`find_sub`] stops before
/// the end.
pub proof fn lemma_find_sub_contains(s: Seq<char>, pat: Seq<char>)
    requires
        pat.len() > 0,
    ensures
        contains_sub(s, pat) <==> find_sub(s, pat) < s.len(),
        0 <= find_sub(s, pat) <= s.len(),
{
    lemma_find_sub_from(s, pat, 0);
    if contains_sub(s, pat) {
        let i = choose|i: int| occurs_at(s, pat, i);
        if find_sub(s, pat) >= s.len() {
            assert(!occurs_at(s, pat, i));
        }
    }
}

/// What [`leading_whitespace`] gives is a number of characters of `s`, all
/// of them whitespace, and what follows them is none.
pub proof fn lemma_leading_whitespace(s: Seq<char>)
    ensures
        0 <= leading_whitespace(s) <= s.len(),
        forall|j: int| 0 <= j < leading_whitespace(s) ==> char_is_whitespace(s[j]),
        leading_whitespace(s) < s.len() ==> !char_is_whitespace(s[leading_whitespace(s)]),
    decreases s.len(),
{
    if s.len() > 0 && char_is_whitespace(s[0]) {
        let t = s.drop_first();
        lemma_leading_whitespace(t);
        assert forall|j: int| 0 <= j < leading_whitespace(s) implies char_is_whitespace(s[j]) by {
            if j > 0 {
                assert(s[j] == t[j - 1]);
            }
        }
    }
}

/// The one number of characters at the start of `s` that are all whitespace
/// and are followed by none is what [`leading_whitespace`] gives.
pub proof fn lemma_leading_whitespace_is(s: Seq<char>, i: int)
    requires
        0 <= i <= s.len(),
        forall|j: int| 0 <= j < i ==> char_is_whitespace(s[j]),
        i < s.len() ==> !char_is_whitespace(s[i]),
    ensures
        leading_whitespace(s) == i,
{
    lemma_leading_whitespace(s);
    let k = leading_whitespace(s);
    if k < i {
        assert(!char_is_whitespace(s[k]));
    } else if i < k {
        assert(!char_is_whitespace(s[i]));
    }
}

/// What [`trailing_whitespace`] gives is a number of characters of `s`, the
/// last of it, all of them whitespace, and what stands before them is none.
pub proof fn lemma_trailing_whitespace(s: Seq<char>)
    ensures
        0 <= trailing_whitespace(s) <= s.len(),
        forall|j: int| s.len() - trailing_whitespace(s) <= j < s.len() ==> char_is_whitespace(s[j]),
        trailing_whitespace(s) < s.len() ==> !char_is_whitespace(
            s[s.len() - trailing_whitespace(s) - 1],
        ),
    decreases s.len(),
{
    if s.len() > 0 && char_is_whitespace(s.last()) {
        let t = s.drop_last();
        lemma_trailing_whitespace(t);
        assert forall|j: int|
            s.len() - trailing_whitespace(s) <= j < s.len() implies char_is_whitespace(s[j]) by {
            if j < s.len() - 1 {
                assert(s[j] == t[j]);
            }
        }
    }
}

/// The one number of characters at the end of `s` that are all whitespace
/// and follow a character that is none is what [`trailing_whitespace`]
/// gives.
pub proof fn lemma_trailing_whitespace_is(s: Seq<char>, n: int)
    requires
        0 <= n <= s.len(),
        forall|j: int| s.len() - n <= j < s.len() ==> char_is_whitespace(s[j]),
        n < s.len() ==> !char_is_whitespace(s[s.len() - n - 1]),
    ensures
        trailing_whitespace(s) == n,
{
    lemma_trailing_whitespace(s);
    let k = trailing_whitespace(s);
    if k < n {
        assert(!char_is_whitespace(s[s.len() - k - 1]));
    } else if n < k {
        assert(!char_is_whitespace(s[s.len() - n - 1]));
    }
}

/// The characters of `s`, in order.
pub fn chars_of(s: &str) -> (v: Vec<char>)
    ensures
        v@ == s@,
{
    let mut v: Vec<char> = Vec::new();
    for c in it: s.chars()
        invariant
            v@ == it.seq().take(it.index() as int),
            it.seq() == s@,
    {
        v.push(c);
    }
    v
}

/// The string made of `v[from..to]`.
pub fn string_of(v: &Vec<char>, from: usize, to: usize) -> (s: String)
    requires
        from <= to <= v.len(),
    ensures
        s@ == v@.subrange(from as int, to as int),
{
    let mut s = String::new();
    let mut i: usize = from;
    while i < to
        invariant
            from <= i <= to <= v.len(),
            s@ == v@.subrange(from as int, i as int),
        decreases to - i,
    {
        s.push(v[i]);
        i += 1;
        assert(v@.subrange(from as int, i as int) == v@.subrange(from as int, i - 1).push(
            v@[i - 1],
        ));
    }
    s
}

/// The first index in `from..to` at which `v` holds `c`, or `to`.
pub fn position_of(v: &Vec<char>, from: usize, to: usize, c: char) -> (i: usize)
    requires
        from <= to <= v.len(),
    ensures
        from <= i <= to,
        i == from + find_char(v@.subrange(from as int, to as int), c),
{
    let ghost s = v@.subrange(from as int, to as int);
    let mut i: usize = from;
    while i < to && v[i] != c
        invariant
            from <= i <= to <= v.len(),
            s == v@.subrange(from as int, to as int),
            forall|j: int| 0 <= j < i - from ==> s[j] != c,
        decreases to - i,
    {
        i += 1;
    }
    proof {
        lemma_find_char_is(s, c, i - from);
    }
    i
}

/// The first index in `from..to` at which `v` holds whitespace, or `to`.
pub fn position_of_whitespace(v: &Vec<char>, from: usize, to: usize) -> (i: usize)
    requires
        from <= to <= v.len(),
    ensures
        from <= i <= to,
        i == from + find_whitespace(v@.subrange(from as int, to as int)),
{
    let ghost s = v@.subrange(from as int, to as int);
    let mut i: usize = from;
    while i < to && !v[i].is_whitespace()
        invariant
            from <= i <= to <= v.len(),
            s == v@.subrange(from as int, to as int),
            forall|j: int| 0 <= j < i - from ==> !char_is_whitespace(s[j]),
        decreases to - i,
    {
        i += 1;
    }
    proof {
        lemma_find_whitespace_is(s, i - from);
    }
    i
}

/// Whether `pat` stands in `v` at index `at`.
pub fn matches_at(v: &Vec<char>, pat: &Vec<char>, at: usize) -> (b: bool)
    ensures
        b == occurs_at(v@, pat@, at as int),
{
    if pat.len() > v.len() || at > v.len() - pat.len() {
        return false;
    }
    let mut k: usize = 0;
    while k < pat.len()
        invariant
            k <= pat.len(),
            at + pat.len() <= v.len(),
            forall|j: int| 0 <= j < k ==> v@[at + j] == pat@[j],
        decreases pat.len() - k,
    {
        if v[at + k] != pat[k] {
            proof {
                let sub = v@.subrange(at as int, at + pat.len());
                assert(sub[k as int] == v@[at + k]);
            }
            return false;
        }
        k += 1;
    }
    assert(v@.subrange(at as int, at + pat.len()) =~= pat@);
    true
}

/// Whether `v[from..to]` starts with `pat`.
pub fn has_prefix(v: &Vec<char>, from: usize, to: usize, pat: &Vec<char>) -> (b: bool)
    requires
        from <= to <= v.len(),
    ensures
        b == starts_with(v@.subrange(from as int, to as int), pat@),
{
    let ghost sub = v@.subrange(from as int, to as int);
    if pat.len() > to - from {
        return false;
    }
    assert(sub.subrange(0, pat.len() as int) =~= v@.subrange(from as int, from + pat.len()));
    matches_at(v, pat, from)
}

/// Whether `v[from..to]` ends with `pat`.
pub fn has_suffix(v: &Vec<char>, from: usize, to: usize, pat: &Vec<char>) -> (b: bool)
    requires
        from <= to <= v.len(),
    ensures
        b == ends_with(v@.subrange(from as int, to as int), pat@),
{
    let ghost sub = v@.subrange(from as int, to as int);
    if pat.len() > to - from {
        return false;
    }
    assert(sub.subrange(sub.len() - pat.len(), sub.len() as int) =~= v@.subrange(
        to - pat.len(),
        to as int,
    ));
    matches_at(v, pat, to - pat.len())
}

/// The index of the first occurrence of `pat` in `v`, or `v.len()`.
pub fn position_of_sub(v: &Vec<char>, pat: &Vec<char>) -> (i: usize)
    ensures
        i == find_sub(v@, pat@),
        i <= v.len(),
{
    let mut i: usize = 0;
    while i < v.len()
        invariant
            i <= v.len(),
            find_sub(v@, pat@) == find_sub_from(v@, pat@, i as int),
        decreases v.len() - i,
    {
        if matches_at(v, pat, i) {
            return i;
        }
        i += 1;
    }
    i
}

/// Whether two texts are the same.
pub fn same_text(a: &str, b: &str) -> (same: bool)
    ensures
        same == (a@ == b@),
{
    let x = chars_of(a);
    let y = chars_of(b);
    if x.len() != y.len() {
        return false;
    }
    let mut i: usize = 0;
    while i < x.len()
        invariant
            i <= x.len(),
            x.len() == y.len(),
            x@ == a@,
            y@ == b@,
            forall|j: int| 0 <= j < i ==> x@[j] == y@[j],
        decreases x.len() - i,
    {
        if x[i] != y[i] {
            assert(a@[i as int] != b@[i as int]);
            return false;
        }
        i += 1;
    }
    assert(x@ =~= y@);
    true
}

/// Whether one of `list` is the text `text`.
pub open spec fn holds_text(list: Seq<String>, text: Seq<char>) -> bool {
    exists|i: int| 0 <= i < list.len() && #[trigger] list[i]@ == text
}

/// Whether one of `list` is the text `text`.
pub fn list_holds(list: &Vec<String>, text: &str) -> (b: bool)
    ensures
        b == holds_text(list@, text@),
{
    let mut i: usize = 0;
    while i < list.len()
        invariant
            i <= list.len(),
            forall|j: int| 0 <= j < i ==> #[trigger] list@[j]@ != text@,
        decreases list.len() - i,
    {
        if same_text(list[i].as_str(), text) {
            return true;
        }
        i += 1;
    }
    false
}

/// The bounds `(from, to)` of `v` without its leading and trailing
/// whitespace.
pub fn trim_bounds(v: &Vec<char>) -> (r: (usize, usize))
    ensures
        r.0 <= r.1 <= v.len(),
        v@.subrange(r.0 as int, r.1 as int) == trimmed(v@),
{
    let mut from: usize = 0;
    while from < v.len() && v[from].is_whitespace()
        invariant
            from <= v.len(),
            forall|j: int| 0 <= j < from ==> char_is_whitespace(v@[j]),
        decreases v.len() - from,
    {
        from += 1;
    }
    let ghost rest = v@.skip(from as int);
    let mut to: usize = v.len();
    while to > from && v[to - 1].is_whitespace()
        invariant
            from <= to <= v.len(),
            rest == v@.skip(from as int),
            forall|j: int| to - from <= j < rest.len() ==> char_is_whitespace(rest[j]),
        decreases to,
    {
        to -= 1;
    }
    proof {
        lemma_leading_whitespace_is(v@, from as int);
        lemma_trailing_whitespace_is(rest, v.len() - to);
        assert(v@.subrange(from as int, to as int) =~= rest.take(
            rest.len() - trailing_whitespace(rest),
        ));
    }
    (from, to)
}


/// The decimal digit of `d`.
pub open spec fn digit_char(d: int) -> char {
    if d == 0 {
        '0'
    } else if d == 1 {
        '1'
    } else if d == 2 {
        '2'
    } else if d == 3 {
        '3'
    } else if d == 4 {
        '4'
    } else if d == 5 {
        '5'
    } else if d == 6 {
        '6'
    } else if d == 7 {
        '7'
    } else if d == 8 {
        '8'
    } else {
        '9'
    }
}

/// The decimal numeral of `n`, without leading zeros.
pub open spec fn decimal(n: nat) -> Seq<char>
    decreases n,
{
    if n < 10 {
        seq![digit_char(n as int)]
    } else {
        decimal(n / 10).push(digit_char((n % 10) as int))
    }
}

fn digit_of(d: u128) -> (c: char)
    requires
        d < 10,
    ensures
        c == digit_char(d as int),
{
    if d == 0 {
        '0'
    } else if d == 1 {
        '1'
    } else if d == 2 {
        '2'
    } else if d == 3 {
        '3'
    } else if d == 4 {
        '4'
    } else if d == 5 {
        '5'
    } else if d == 6 {
        '6'
    } else if d == 7 {
        '7'
    } else if d == 8 {
        '8'
    } else {
        '9'
    }
}

/// The decimal numeral of `n`.
pub fn decimal_string(n: u64) -> (s: String)
    ensures
        s@ == decimal(n as nat),
{
    decimal_of(n as u128)
}

/// The decimal numeral of `n`, which may be wider than any length.
pub fn decimal_of(n: u128) -> (s: String)
    ensures
        s@ == decimal(n as nat),
{
    let mut digits: Vec<char> = Vec::new();
    let mut rest = n;
    digits.push(digit_of(rest % 10));
    rest = rest / 10;
    while rest > 0
        invariant
            digits@.len() > 0,
            decimal(n as nat) == if rest == 0 {
                digits@.reverse()
            } else {
                decimal(rest as nat) + digits@.reverse()
            },
        decreases rest,
    {
        let ghost was = digits@;
        let ghost before = rest;
        digits.push(digit_of(rest % 10));
        rest = rest / 10;
        proof {
            let d = digit_char((before % 10) as int);
            assert(digits@.reverse() =~= seq![d] + was.reverse());
            if before < 10 {
                assert(decimal(before as nat) + was.reverse() =~= digits@.reverse());
            } else {
                assert(decimal(before as nat) + was.reverse() =~= decimal(rest as nat)
                    + digits@.reverse());
            }
        }
    }
    let mut s = String::new();
    let mut i: usize = digits.len();
    while i > 0
        invariant
            i <= digits.len(),
            s@ == digits@.reverse().take(digits.len() - i),
        decreases i,
    {
        i -= 1;
        s.push(digits[i]);
        assert(digits@.reverse().take(digits.len() - i) =~= digits@.reverse().take(
            digits.len() - i - 1,
        ).push(digits@[i as int]));
    }
    assert(digits@.reverse().take(digits.len() as int) =~= digits@.reverse());
    s
}

} // verus!
