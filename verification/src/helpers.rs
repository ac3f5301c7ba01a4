//! Identifiers derived from free text, the extension and the media type of
//! a file, and the walk over the items of a book.

use crate::book::BookItem;
use crate::config::{find_entry, lookup};
use crate::text::{
    char_is_alphanumeric, char_is_whitespace, char_lowercase, chars_of, find_char,
    find_whitespace, lowercase_chars, position_of, position_of_whitespace, string_of,
};
use vstd::string::*;
use vstd::prelude::*;

verus! {

/// Whether `c` is whitespace that the slug has answered with a `-`, so that
/// whitespace right after it adds nothing.
pub open spec fn is_gap(c: char) -> bool {
    !char_is_alphanumeric(c) && char_is_whitespace(c)
}

/// What the character at index `i` of `x` contributes to the slug of `x`:
/// its lowercase form if it is alphanumeric, one `-` for the first of a run
/// of whitespace, itself if it is `_` or `-`, and nothing otherwise.
pub open spec fn slug_piece(x: Seq<char>, i: int) -> Seq<char> {
    let c = x[i];
    if char_is_alphanumeric(c) {
        char_lowercase(c)
    } else if char_is_whitespace(c) {
        if i > 0 && is_gap(x[i - 1]) {
            Seq::empty()
        } else {
            seq!['-']
        }
    } else if c == '_' || c == '-' {
        seq![c]
    } else {
        Seq::empty()
    }
}

/// The contributions of the first `n` characters of `x`, concatenated.
pub open spec fn slug_prefix(x: Seq<char>, n: int) -> Seq<char>
    decreases n,
{
    if n <= 0 {
        Seq::empty()
    } else {
        slug_prefix(x, n - 1) + slug_piece(x, n - 1)
    }
}

/// The slug of `x`.
pub open spec fn slug(x: Seq<char>) -> Seq<char> {
    slug_prefix(x, x.len() as int)
}

/// The identifier that a directive body gives: what follows its first `#`, up
/// to the next `}` (or the end) and cut at the first whitespace.
pub open spec fn explicit_id(after_hash: Seq<char>) -> Seq<char> {
    let body = after_hash.take(find_char(after_hash, '}'));
    body.take(find_whitespace(body))
}

/// The identifier of the free text `x`.
///
/// Everything from the first `{` on is a directive. A directive that holds a
/// `#` names the identifier itself; otherwise the identifier is the slug of
/// the text before the directive.
pub open spec fn id_of(x: Seq<char>) -> Seq<char> {
    let brace = find_char(x, '{');
    if brace < x.len() {
        let directive = x.skip(brace + 1);
        let hash = find_char(directive, '#');
        if hash < directive.len() {
            explicit_id(directive.skip(hash + 1))
        } else {
            slug(x.take(brace))
        }
    } else {
        slug(x)
    }
}

/// The slug of the first `to` characters of `v`.
fn slug_of(v: &Vec<char>, to: usize) -> (s: String)
    requires
        to <= v.len(),
    ensures
        s@ == slug(v@.take(to as int)),
{
    let ghost x = v@.take(to as int);
    let mut s = String::new();
    let mut ws_skip = false;
    let mut i: usize = 0;
    while i < to
        invariant
            i <= to <= v.len(),
            x == v@.take(to as int),
            s@ == slug_prefix(x, i as int),
            ws_skip == (i > 0 && is_gap(x[i - 1])),
        decreases to - i,
    {
        let c = v[i];
        assert(x[i as int] == c);
        if c.is_alphanumeric() {
            let lower = lowercase_chars(c);
            let ghost before = s@;
            let mut k: usize = 0;
            while k < lower.len()
                invariant
                    k <= lower.len(),
                    s@ == before + lower@.take(k as int),
                decreases lower.len() - k,
            {
                s.push(lower[k]);
                k += 1;
                assert(lower@.take(k as int) == lower@.take(k - 1).push(lower@[k - 1]));
            }
            assert(lower@.take(k as int) == lower@);
            ws_skip = false;
        } else if c.is_whitespace() {
            if !ws_skip {
                s.push('-');
                assert(s@ == slug_prefix(x, i as int) + seq!['-']);
            } else {
                assert(s@ == slug_prefix(x, i as int) + Seq::<char>::empty());
            }
            ws_skip = true;
        } else {
            if c == '_' || c == '-' {
                s.push(c);
                assert(s@ == slug_prefix(x, i as int) + seq![c]);
            } else {
                assert(s@ == slug_prefix(x, i as int) + Seq::<char>::empty());
            }
            ws_skip = false;
        }
        i += 1;
    }
    s
}

/// Derives an identifier from free text such as a heading or a part title.
///
/// An explicit `{#id}` directive is taken as it stands; without one the text
/// before any directive is lowercased, runs of whitespace become one `-`,
/// `_` and `-` stay, and every other character is dropped.
pub fn name_to_id(x: &str) -> (id: String)
    ensures
        id@ == id_of(x@),
{
    let v = chars_of(x);
    let n = v.len();
    let brace = position_of(&v, 0, n, '{');
    assert(v@.subrange(0, n as int) == v@);
    if brace < n {
        let hash = position_of(&v, brace + 1, n, '#');
        assert(v@.subrange(brace + 1, n as int) == v@.skip(brace + 1));
        if hash < n {
            let close = position_of(&v, hash + 1, n, '}');
            let stop = position_of_whitespace(&v, hash + 1, close);
            proof {
                let directive = v@.skip(brace + 1);
                let after = directive.skip(hash - brace);
                assert(after == v@.subrange(hash + 1, n as int));
                let body = after.take(find_char(after, '}'));
                assert(body == v@.subrange(hash + 1, close as int));
                assert(body.take(find_whitespace(body)) == v@.subrange(
                    hash + 1,
                    stop as int,
                ));
            }
            string_of(&v, hash + 1, stop)
        } else {
            slug_of(&v, brace)
        }
    } else {
        assert(v@.take(n as int) == v@);
        slug_of(&v, n)
    }
}


/// The number of characters of `s` up to and with the last `c`, 0 where `s`
/// holds none.
pub open spec fn after_last(s: Seq<char>, c: char) -> int
    decreases s.len(),
{
    if s.len() == 0 {
        0
    } else if s.last() == c {
        s.len() as int
    } else {
        after_last(s.drop_last(), c)
    }
}

/// What [`after_last`] gives lies in `s`, stands right after a `c` unless it
/// is 0, and no `c` follows it.
pub proof fn lemma_after_last(s: Seq<char>, c: char)
    ensures
        0 <= after_last(s, c) <= s.len(),
        after_last(s, c) > 0 ==> s[after_last(s, c) - 1] == c,
        forall|j: int| after_last(s, c) <= j < s.len() ==> s[j] != c,
    decreases s.len(),
{
    if s.len() > 0 && s.last() != c {
        let t = s.drop_last();
        lemma_after_last(t, c);
        assert forall|j: int| after_last(s, c) <= j < s.len() implies s[j] != c by {
            if j < s.len() - 1 {
                assert(s[j] == t[j]);
            }
        }
    }
}

/// The one index that stands right after a `c`, or is 0, and that no `c`
/// follows is what [`after_last`] gives.
pub proof fn lemma_after_last_is(s: Seq<char>, c: char, n: int)
    requires
        0 <= n <= s.len(),
        n > 0 ==> s[n - 1] == c,
        forall|j: int| n <= j < s.len() ==> s[j] != c,
    ensures
        after_last(s, c) == n,
{
    lemma_after_last(s, c);
    let k = after_last(s, c);
    if k < n {
        assert(s[n - 1] == c);
    } else if n < k {
        assert(s[k - 1] == c);
    }
}

/// The name of the file that a path written with `/` leads to: what follows
/// its last `/`.
///
/// A path is read here as text, the same on every machine: `/` alone parts
/// its steps, a path that ends in `/` leads to no file name, and a step `.`
/// is a name like any other.
pub open spec fn file_name(path: Seq<char>) -> Seq<char> {
    path.skip(after_last(path, '/'))
}

/// Whether a file name has no stem to take an extension: it is empty or
/// `..`.
pub open spec fn is_bare(name: Seq<char>) -> bool {
    name.len() == 0 || name == seq!['.', '.']
}

/// The length of the stem of a file name: what stands before its last dot,
/// where that dot is not its first character; else the whole name.
pub open spec fn stem_len(name: Seq<char>) -> int {
    let dot = after_last(name, '.');
    if dot <= 1 {
        name.len() as int
    } else {
        dot - 1
    }
}

/// The extension of the file that `path` leads to: what follows the last
/// dot of its name, where the name has one that is not its first character.
pub open spec fn extension(path: Seq<char>) -> Option<Seq<char>> {
    let name = file_name(path);
    if is_bare(name) || after_last(name, '.') <= 1 {
        None
    } else {
        Some(name.skip(after_last(name, '.')))
    }
}

/// `path` with the extension of its file replaced by `ext`. A path that
/// leads to no file name is kept as it is: the empty path, a path that ends
/// in `/`, and a path whose last step is `..`.
pub open spec fn with_extension(path: Seq<char>, ext: Seq<char>) -> Seq<char> {
    let start = after_last(path, '/');
    let name = file_name(path);
    if is_bare(name) {
        path
    } else {
        path.take(start + stem_len(name)) + seq!['.'] + ext
    }
}

/// The index after the last `c` in `v[from..to]`, counted from `from`.
fn position_after_last(v: &Vec<char>, from: usize, to: usize, c: char) -> (n: usize)
    requires
        from <= to <= v.len(),
    ensures
        n <= to - from,
        n == after_last(v@.subrange(from as int, to as int), c),
{
    let ghost s = v@.subrange(from as int, to as int);
    let mut n: usize = to - from;
    while n > 0 && v[from + n - 1] != c
        invariant
            n <= to - from,
            from <= to <= v.len(),
            s == v@.subrange(from as int, to as int),
            forall|j: int| n <= j < s.len() ==> s[j] != c,
        decreases n,
    {
        n -= 1;
    }
    proof {
        lemma_after_last_is(s, c, n as int);
    }
    n
}

/// The bounds of the stem of the file that `v` leads to: where its name
/// starts and where its stem ends; `None` where it leads to no file name.
fn stem_bounds(v: &Vec<char>) -> (r: Option<(usize, usize)>)
    ensures
        match r {
            Some((start, end)) => !is_bare(file_name(v@)) && start == after_last(v@, '/') && end
                == start + stem_len(file_name(v@)) && start <= end <= v.len(),
            None => is_bare(file_name(v@)),
        },
{
    let n = v.len();
    assert(v@.subrange(0, n as int) == v@);
    let start = position_after_last(v, 0, n, '/');
    assert(v@.subrange(start as int, n as int) == v@.skip(start as int));
    let ghost name = file_name(v@);
    if start == n {
        return None;
    }
    if n - start == 2 && v[start] == '.' && v[start + 1] == '.' {
        assert(name =~= seq!['.', '.']);
        return None;
    }
    assert(!is_bare(name)) by {
        if name == seq!['.', '.'] {
            assert(name.len() == 2);
            assert(name[0] == '.' && name[1] == '.');
        }
    }
    let dot = position_after_last(v, start, n, '.');
    if dot <= 1 {
        Some((start, n))
    } else {
        Some((start, start + dot - 1))
    }
}

/// `path` with the extension of its file replaced by `ext`. A path that
/// ends in `/` or in a step `..` leads to no file name and is handed back as
/// it is.
pub fn replace_extension(path: &str, ext: &str) -> (r: String)
    ensures
        r@ == with_extension(path@, ext@),
{
    let v = chars_of(path);
    match stem_bounds(&v) {
        None => String::from_str(path),
        Some((_, end)) => {
            assert(v@.take(end as int) == v@.subrange(0, end as int));
            let mut r = string_of(&v, 0, end);
            r.push('.');
            r.append(ext);
            assert(r@ =~= v@.take(end as int) + seq!['.'] + ext@);
            r
        },
    }
}

/// The extension of the file that `path` leads to; none where the path
/// ends in `/` or in a step `..`.
pub fn extension_of(path: &str) -> (r: Option<String>)
    ensures
        match r {
            Some(ext) => extension(path@) == Some(ext@),
            None => extension(path@) is None,
        },
{
    let v = chars_of(path);
    match stem_bounds(&v) {
        None => None,
        Some((start, end)) => {
            let ghost name = file_name(v@);
            proof {
                lemma_after_last(name, '.');
                lemma_after_last(v@, '/');
                assert(name.len() == v.len() - start);
            }
            if end == v.len() {
                None
            } else {
                assert(after_last(name, '.') == end - start + 1);
                assert(name.skip(end - start + 1) =~= v@.subrange(end + 1, v.len() as int));
                Some(string_of(&v, end + 1, v.len()))
            }
        },
    }
}

/// The media type of a file that no table knows.
pub open spec fn unknown_media_type() -> Seq<char> {
    "application/octet-stream"@
}

/// The media type that `known`, a table from extensions to media types,
/// gives to the file at `path`.
pub open spec fn media_type(path: Seq<char>, known: Seq<(String, String)>) -> Seq<char> {
    match extension(path) {
        Some(ext) => match lookup(known, ext) {
            Some(media) => media@,
            None => unknown_media_type(),
        },
        None => unknown_media_type(),
    }
}

/// The media type of the file at `path`, told by its extension under the
/// table `known`; `application/octet-stream` where the file has no
/// extension or the table does not know it.
pub fn media_type_from_file(path: &str, known: &Vec<(String, String)>) -> (media: String)
    ensures
        media@ == media_type(path@, known@),
{
    match extension_of(path) {
        Some(ext) => match find_entry(known, ext.as_str()) {
            Some(media) => media.clone(),
            None => String::from_str("application/octet-stream"),
        },
        None => String::from_str("application/octet-stream"),
    }
}


/// One step of a walk over a book.
#[derive(Debug, PartialEq, Eq)]
pub enum Visit<'a> {
    /// An item is met. The items nested under a chapter follow it.
    Item(&'a BookItem),
    /// The walk comes back from the items nested under a chapter.
    AfterDescent,
}

/// One step of a walk, as a value of the model.
pub enum VisitView {
    Item(BookItem),
    AfterDescent,
}

impl<'a> View for Visit<'a> {
    type V = VisitView;

    open spec fn view(&self) -> VisitView {
        match self {
            Visit::Item(item) => VisitView::Item(**item),
            Visit::AfterDescent => VisitView::AfterDescent,
        }
    }
}

/// The model of each step of `s`, in order.
pub open spec fn visit_views(s: Seq<Visit>) -> Seq<VisitView> {
    Seq::new(s.len(), |i: int| s[i]@)
}

/// The steps of the walk over the first `n` of `items`: each item is met,
/// and a chapter is followed by the walk over the items nested under it and
/// by the way back.
pub open spec fn visits(items: Seq<BookItem>, n: int) -> Seq<VisitView>
    decreases items, n,
{
    if n <= 0 || n > items.len() {
        Seq::empty()
    } else {
        visits(items, n - 1) + seq![VisitView::Item(items[n - 1])] + (match items[n - 1] {
            BookItem::Chapter(ch) => visits(ch.sub_items@, ch.sub_items@.len() as int)
                + seq![VisitView::AfterDescent],
            _ => Seq::empty(),
        })
    }
}

fn walk<'a>(items: &'a Vec<BookItem>, out: &mut Vec<Visit<'a>>)
    ensures
        visit_views(final(out)@) == visit_views(old(out)@) + visits(items@, items.len() as int),
    decreases items,
{
    let ghost start = visit_views(out@);
    assert(visit_views(out@) =~= start + visits(items@, 0));
    let mut i: usize = 0;
    while i < items.len()
        invariant
            i <= items.len(),
            visit_views(out@) == start + visits(items@, i as int),
        decreases items.len() - i,
    {
        let item = &items[i];
        let ghost was = visit_views(out@);
        out.push(Visit::Item(item));
        assert(visit_views(out@) =~= was + seq![VisitView::Item(*item)]);
        match item {
            BookItem::Chapter(ch) => {
                walk(&ch.sub_items, out);
                let ghost inner = visit_views(out@);
                out.push(Visit::AfterDescent);
                assert(visit_views(out@) =~= inner + seq![VisitView::AfterDescent]);
            },
            _ => {},
        }
        assert(visit_views(out@) =~= start + visits(items@, i + 1));
        i += 1;
    }
}

/// Walks a book depth first and writes down each step: every item as it is
/// met, and the way back after the items nested under a chapter.
pub fn visit_chapters<'a>(items: &'a Vec<BookItem>) -> (steps: Vec<Visit<'a>>)
    ensures
        visit_views(steps@) == visits(items@, items.len() as int),
{
    let mut steps: Vec<Visit<'a>> = Vec::new();
    assert(visit_views(steps@) =~= Seq::<VisitView>::empty());
    walk(items, &mut steps);
    assert(Seq::<VisitView>::empty() + visits(items@, items.len() as int) =~= visits(
        items@,
        items.len() as int,
    ));
    steps
}


/// A path that ends in `/` leads to no file name: it has no extension, and
/// it is kept as it is where an extension is set.
pub proof fn lemma_path_ends_in_slash(dir: Seq<char>, ext: Seq<char>)
    ensures
        extension(dir.push('/')) is None,
        with_extension(dir.push('/'), ext) == dir.push('/'),
{
    let path = dir.push('/');
    assert(path.last() == '/');
    assert(after_last(path, '/') == path.len());
    assert(file_name(path) =~= Seq::<char>::empty());
}

/// An identifier written as `{#id}` after a title is taken as it stands,
/// whatever the title and the identifier hold: the rules of the slug play no
/// part.
pub proof fn lemma_explicit_id_is_verbatim(title: Seq<char>, id: Seq<char>, rest: Seq<char>)
    requires
        forall|i: int| 0 <= i < title.len() ==> title[i] != '{',
        forall|i: int| 0 <= i < id.len() ==> id[i] != '}' && !char_is_whitespace(id[i]),
    ensures
        id_of(title + seq!['{', '#'] + id + seq!['}'] + rest) == id,
{
    let x = title + seq!['{', '#'] + id + seq!['}'] + rest;
    let brace = title.len() as int;
    assert forall|j: int| 0 <= j < brace implies x[j] != '{' by {
        assert(x[j] == title[j]);
    }
    assert(x[brace] == '{');
    crate::text::lemma_find_char_is(x, '{', brace);
    let directive = x.skip(brace + 1);
    assert(directive[0] == '#');
    crate::text::lemma_find_char_is(directive, '#', 0);
    let after = directive.skip(1);
    assert(after =~= id + seq!['}'] + rest);
    assert forall|j: int| 0 <= j < id.len() implies after[j] != '}' by {
        assert(after[j] == id[j]);
    }
    assert(after[id.len() as int] == '}');
    crate::text::lemma_find_char_is(after, '}', id.len() as int);
    let body = after.take(id.len() as int);
    assert(body =~= id);
    crate::text::lemma_find_whitespace_is(body, body.len() as int);
    assert(body.take(body.len() as int) =~= body);
}

/// Whether `c` may stand in the slug of `x`: it is a dash or an underscore,
/// or it comes from the lowercase form of an alphanumeric character of `x`.
pub open spec fn is_slug_char(x: Seq<char>, c: char) -> bool {
    c == '-' || c == '_' || exists|i: int|
        0 <= i < x.len() && char_is_alphanumeric(#[trigger] x[i]) && char_lowercase(x[i]).contains(
            c,
        )
}

proof fn lemma_slug_prefix_alphabet(x: Seq<char>, n: int)
    requires
        0 <= n <= x.len(),
    ensures
        forall|k: int|
            0 <= k < slug_prefix(x, n).len() ==> is_slug_char(x, #[trigger] slug_prefix(x, n)[k]),
    decreases n,
{
    if n > 0 {
        lemma_slug_prefix_alphabet(x, n - 1);
        let head = slug_prefix(x, n - 1);
        let piece = slug_piece(x, n - 1);
        assert forall|k: int| 0 <= k < slug_prefix(x, n).len() implies is_slug_char(
            x,
            #[trigger] slug_prefix(x, n)[k],
        ) by {
            if k < head.len() {
                assert(slug_prefix(x, n)[k] == head[k]);
            } else {
                let c = piece[k - head.len()];
                assert(slug_prefix(x, n)[k] == c);
                if char_is_alphanumeric(x[n - 1]) {
                    assert(char_lowercase(x[n - 1]).contains(c));
                }
            }
        }
    }
}

/// A slug holds nothing but dashes, underscores and what the lowercase forms
/// of the alphanumeric characters of the text give: every other character of
/// the text is dropped.
pub proof fn lemma_slug_alphabet(x: Seq<char>)
    ensures
        forall|k: int| 0 <= k < slug(x).len() ==> is_slug_char(x, #[trigger] slug(x)[k]),
{
    lemma_slug_prefix_alphabet(x, x.len() as int);
}

/// A text without a directive has the slug of the whole text as its
/// identifier.
pub proof fn lemma_id_without_directive(text: Seq<char>)
    requires
        forall|i: int| 0 <= i < text.len() ==> text[i] != '{',
    ensures
        id_of(text) == slug(text),
{
    crate::text::lemma_find_char_is(text, '{', text.len() as int);
}

} // verus!
