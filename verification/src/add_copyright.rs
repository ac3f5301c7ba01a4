//! Where the copyright stub goes: which chapters take it, where in a
//! chapter's text it stands, and the Markdown that the chapter is written
//! back as.

use crate::config::{find_entry, lookup};
use crate::book::{BookItem, Chapter};
use crate::bookir::destination_is_external;
use crate::bookir::events::{
    ENABLE_FOOTNOTES, ENABLE_HEADING_ATTRIBUTES, ENABLE_STRIKETHROUGH, ENABLE_TABLES,
    ENABLE_TASKLISTS,
};
use crate::bookir::grammar::is_external;
use crate::text::{
    chars_of, find_char, find_sub, holds_text, lemma_find_char, lemma_find_sub_contains,
    list_holds, position_of, position_of_sub, same_text, string_of,
};
use pulldown_cmark::{Event, Options, Parser, Tag};
use pulldown_cmark_to_cmark::Error as CmarkError;
use pulldown_cmark_to_cmark::Options as PrintOptions;
use pulldown_cmark_to_cmark::{cmark_resume_with_options, State};
use vstd::prelude::*;
use vstd::string::*;

verus! {

/// A set of files, given by what it takes in and what it leaves out.
#[derive(Debug, Clone, PartialEq, Eq)]
pub struct FileSet {
    /// The files of the set; every file where nothing is listed.
    pub included: Option<Vec<String>>,
    /// The files that are left out in any case.
    pub excluded: Vec<String>,
}

impl FileSet {
    /// Whether the set holds `p`: it is listed, or nothing is, and it is not
    /// left out.
    pub open spec fn holds(&self, p: Seq<char>) -> bool {
        (match self.included {
            Some(included) => holds_text(included@, p),
            None => true,
        }) && !holds_text(self.excluded@, p)
    }

    /// Whether the set holds the file `p`.
    pub fn contains_file(&self, p: &str) -> (b: bool)
        ensures
            b == self.holds(p@),
    {
        match &self.included {
            Some(included) => {
                if !list_holds(included, p) {
                    return false;
                }
            },
            None => {},
        }
        !list_holds(&self.excluded, p)
    }
}

/// How the preprocessor is set up: how it is run, and which chapters take
/// the stub.
#[derive(Debug, Clone, PartialEq, Eq)]
pub struct AddCopyrightPreprocessorConfig {
    pub command: String,
    pub after: Vec<String>,
    pub renderers: Vec<String>,
    /// Where the stub lies, relative to the sources of the book.
    pub copyright_stub: Option<String>,
    /// The chapters that take the stub under every renderer.
    pub base_set: FileSet,
    /// The chapters that take the stub under one renderer, by its name.
    pub renderer_sets: Vec<(String, FileSet)>,
}

impl AddCopyrightPreprocessorConfig {
    /// Whether the chapter rendered to `path` takes the stub under
    /// `renderer`: the base set must hold it, and so must the renderer's own
    /// set where it has one.
    pub open spec fn includes(&self, renderer: Seq<char>, path: Seq<char>) -> bool {
        self.base_set.holds(path) && match lookup(self.renderer_sets@, renderer) {
            Some(set) => set.holds(path),
            None => true,
        }
    }

    /// Whether the chapter rendered to `path` takes the stub under
    /// `renderer`.
    pub fn is_included(&self, renderer: &str, path: &str) -> (b: bool)
        ensures
            b == self.includes(renderer@, path@),
    {
        let in_base = self.base_set.contains_file(path);
        let in_renderer = match find_entry(&self.renderer_sets, renderer) {
            Some(set) => set.contains_file(path),
            None => true,
        };
        in_base && in_renderer
    }
}

/// The token in a chapter's text that the stub replaces.
pub open spec fn marker() -> Seq<char> {
    seq!['!', '{', '#', 'c', 'o', 'p', 'y', 'r', 'i', 'g', 'h', 't', '}']
}

/// The text before and after the first marker in `text`, `None` where it
/// holds none.
pub open spec fn split_at_marker(text: Seq<char>) -> Option<(Seq<char>, Seq<char>)> {
    let at = find_sub(text, marker());
    if at < text.len() {
        Some((text.take(at), text.skip(at + marker().len())))
    } else {
        None
    }
}

/// The preprocessor that puts a stub of Markdown wherever a chapter holds
/// the marker.
#[derive(Debug, Clone, Copy, PartialEq, Eq)]
pub struct AddCopyrightPreprocessor {}

impl AddCopyrightPreprocessor {
    /// The name under which the preprocessor is configured.
    pub fn name(&self) -> (name: &'static str)
        ensures
            name@ == "add-copyright"@,
    {
        "add-copyright"
    }

    /// The preprocessor runs under every renderer.
    pub fn supports_renderer(&self, _renderer: &str) -> (b: bool)
        ensures
            b,
    {
        true
    }

    /// Splits `text` at the first marker.
    pub fn split_marker(text: &str) -> (r: Option<(String, String)>)
        ensures
            match r {
                Some((before, after)) => split_at_marker(text@) == Some((before@, after@)),
                None => split_at_marker(text@) is None,
            },
    {
        let v = chars_of(text);
        let pat = vec!['!', '{', '#', 'c', 'o', 'p', 'y', 'r', 'i', 'g', 'h', 't', '}'];
        assert(pat@ =~= marker());
        proof {
            lemma_find_sub_contains(v@, pat@);
        }
        let at = position_of_sub(&v, &pat);
        if at < v.len() {
            proof {
                crate::text::lemma_find_sub_from(v@, pat@, 0);
            }
            let before = string_of(&v, 0, at);
            let after = string_of(&v, at + 13, v.len());
            Some((before, after))
        } else {
            None
        }
    }
}


/// The steps of a path written with `/`: the pieces between the slashes
/// that are not empty.
///
/// A path is read here as text, the same on every machine: `/` alone parts
/// its steps, a slash at its start or its end adds no step, and `.` and
/// `..` are steps like any other.
pub open spec fn segments(path: Seq<char>) -> Seq<Seq<char>>
    decreases path.len(),
{
    if path.len() == 0 {
        Seq::empty()
    } else {
        let cut = find_char(path, '/');
        let rest = if 0 <= cut < path.len() {
            segments(path.skip(cut + 1))
        } else {
            Seq::empty()
        };
        if cut == 0 {
            rest
        } else {
            seq![path.take(cut)] + rest
        }
    }
}

/// Whether the steps `a` are the first steps of `b`.
pub open spec fn is_prefix(a: Seq<Seq<char>>, b: Seq<Seq<char>>) -> bool {
    a.len() <= b.len() && b.take(a.len() as int) == a
}

/// How many steps one has to go up from `parent` to reach a directory that
/// `root` lies in or is: the least number, counted from `k` on.
pub open spec fn climb(parent: Seq<Seq<char>>, root: Seq<Seq<char>>, k: int) -> int
    decreases parent.len() - k,
{
    if k < 0 || k >= parent.len() {
        parent.len() as int
    } else if is_prefix(parent.take(parent.len() - k), root) {
        k
    } else {
        climb(parent, root, k + 1)
    }
}

/// `n` steps up, each written as `../`.
pub open spec fn ups(n: int) -> Seq<char>
    decreases n,
{
    if n <= 0 {
        Seq::empty()
    } else {
        ups(n - 1) + seq!['.', '.', '/']
    }
}

/// The first `n` of `steps`, each followed by a slash.
pub open spec fn downs(steps: Seq<Seq<char>>, n: int) -> Seq<char>
    decreases n,
{
    if n <= 0 {
        Seq::empty()
    } else {
        downs(steps, n - 1) + steps[n - 1] + seq!['/']
    }
}

/// The directory of the chapter at `path` under `root`, in steps.
pub open spec fn chapter_dir(root: Seq<char>, path: Seq<char>) -> Seq<Seq<char>> {
    let file = segments(root) + segments(path);
    if file.len() == 0 {
        file
    } else {
        file.drop_last()
    }
}

/// A destination given from the sources of the book, as it reads from the
/// chapter at `path`: up from the chapter's directory to where the sources
/// are reached, down to them, then the destination. The steps of `root` and
/// `path` are taken as [`segments`] gives them: a step `.` or `..` in them
/// is counted as a directory of that name.
pub open spec fn rebased(root: Seq<char>, path: Seq<char>, dest: Seq<char>) -> Seq<char> {
    let root_steps = segments(root);
    let parent = chapter_dir(root, path);
    let up = climb(parent, root_steps, 0);
    let below = root_steps.skip(parent.len() - up);
    ups(up) + downs(below, below.len() as int) + dest
}

/// Whether a destination is given from the sources of the book: it is not
/// empty, does not leave the book and does not start at the root.
pub open spec fn is_relative(dest: Seq<char>) -> bool {
    dest.len() > 0 && !is_external(dest) && dest[0] != '/'
}

/// A destination of the stub, as it is written into the chapter at `path`.
pub open spec fn rewritten(root: Seq<char>, path: Seq<char>, dest: Seq<char>) -> Seq<char> {
    if is_relative(dest) {
        rebased(root, path, dest)
    } else {
        dest
    }
}

/// The segments of a path from `at` on, where the first `/` from there
/// stands at `end`: what lies between the two, unless that is empty, then
/// the segments of what follows the `/`.
pub proof fn lemma_segments_step(path: Seq<char>, at: int, end: int)
    requires
        0 <= at <= end <= path.len(),
        forall|j: int| at <= j < end ==> path[j] != '/',
        end < path.len() ==> path[end] == '/',
    ensures
        segments(path.skip(at)) == (if at == end {
            Seq::<Seq<char>>::empty()
        } else {
            seq![path.subrange(at, end)]
        }) + (if end < path.len() {
            segments(path.skip(end + 1))
        } else {
            Seq::empty()
        }),
{
    let rest = path.skip(at);
    if rest.len() == 0 {
        assert(segments(rest) =~= Seq::<Seq<char>>::empty() + Seq::<Seq<char>>::empty());
    } else {
        crate::text::lemma_find_char_is(rest, '/', end - at);
        let cut = find_char(rest, '/');
        assert(rest.take(cut) =~= path.subrange(at, end));
        if end < path.len() {
            assert(rest.skip(cut + 1) =~= path.skip(end + 1));
        }
        if at == end {
            assert(segments(rest) =~= Seq::<Seq<char>>::empty() + segments(path.skip(end + 1)));
        }
    }
}

/// The text of each of `s`, in order.
pub open spec fn step_views(s: Seq<String>) -> Seq<Seq<char>> {
    Seq::new(s.len(), |i: int| s[i]@)
}

/// The steps of a path written with `/`.
pub fn split_path(path: &str) -> (steps: Vec<String>)
    ensures
        step_views(steps@) == segments(path@),
{
    let v = chars_of(path);
    let n = v.len();
    let mut steps: Vec<String> = Vec::new();
    let mut at: usize = 0;
    assert(v@.skip(0) =~= v@);
    assert(step_views(steps@) =~= Seq::<Seq<char>>::empty());
    assert(segments(v@) =~= step_views(steps@) + segments(v@.skip(0)));
    while at < n
        invariant
            at <= n,
            n == v.len(),
            v@ == path@,
            segments(v@) == step_views(steps@) + segments(v@.skip(at as int)),
        decreases n - at,
    {
        let end = position_of(&v, at, n, '/');
        proof {
            lemma_find_char(v@.subrange(at as int, n as int), '/');
            assert forall|j: int| at <= j < end implies v@[j] != '/' by {
                assert(v@.subrange(at as int, n as int)[j - at] == v@[j]);
            }
            if end < n {
                assert(v@.subrange(at as int, n as int)[end - at] == v@[end as int]);
            }
            lemma_segments_step(v@, at as int, end as int);
        }
        let ghost was = step_views(steps@);
        if end > at {
            let step = string_of(&v, at, end);
            steps.push(step);
            assert(step_views(steps@) =~= was + seq![v@.subrange(at as int, end as int)]);
        }
        if end < n {
            at = end + 1;
        } else {
            at = n;
            assert(segments(v@.skip(n as int)) =~= Seq::<Seq<char>>::empty());
        }
        assert(segments(v@) =~= step_views(steps@) + segments(v@.skip(at as int)));
    }
    assert(segments(v@.skip(n as int)) =~= Seq::<Seq<char>>::empty());
    assert(step_views(steps@) + Seq::<Seq<char>>::empty() =~= step_views(steps@));
    steps
}

/// Whether the first `len` of `parent` are the first steps of `root`.
fn prefix_of(parent: &Vec<String>, len: usize, root: &Vec<String>) -> (b: bool)
    requires
        len <= parent.len(),
    ensures
        b == is_prefix(step_views(parent@).take(len as int), step_views(root@)),
{
    let ghost a = step_views(parent@).take(len as int);
    let ghost r = step_views(root@);
    if len > root.len() {
        return false;
    }
    let mut i: usize = 0;
    while i < len
        invariant
            i <= len <= parent.len(),
            len <= root.len(),
            a == step_views(parent@).take(len as int),
            r == step_views(root@),
            forall|j: int| 0 <= j < i ==> a[j] == r[j],
        decreases len - i,
    {
        if !same_text(parent[i].as_str(), root[i].as_str()) {
            assert(a[i as int] != r.take(len as int)[i as int]);
            return false;
        }
        i += 1;
    }
    assert(r.take(len as int) =~= a);
    true
}

impl AddCopyrightPreprocessor {
    /// Whether a destination of the stub is given from the sources of the
    /// book, so that it has to be rewritten for each chapter.
    pub fn needs_rebase(dest: &str) -> (b: bool)
        ensures
            b == is_relative(dest@),
    {
        let v = chars_of(dest);
        if v.len() == 0 {
            return false;
        }
        if destination_is_external(dest) {
            return false;
        }
        v[0] != '/'
    }

    /// A destination that is given from the sources of the book, which lie
    /// at `root`, as it reads from the chapter at `path` under `root`.
    pub fn rebase_destination(root: &str, path: &str, dest: &str) -> (r: String)
        ensures
            r@ == rebased(root@, path@, dest@),
    {
        let root_steps = split_path(root);
        let path_steps = split_path(path);
        let ghost root_view = step_views(root_steps@);
        let mut parent: Vec<String> = Vec::new();
        let mut i: usize = 0;
        while i < root_steps.len()
            invariant
                i <= root_steps.len(),
                step_views(parent@) == step_views(root_steps@).take(i as int),
            decreases root_steps.len() - i,
        {
            let ghost was = step_views(parent@);
            let step = root_steps[i].clone();
            parent.push(step);
            i += 1;
            assert(step_views(parent@) =~= was.push(step@));
            assert(step_views(root_steps@).take(i as int) =~= step_views(root_steps@).take(
                i - 1,
            ).push(step@));
        }
        assert(step_views(root_steps@).take(root_steps.len() as int) =~= root_view);
        let mut j: usize = 0;
        while j < path_steps.len()
            invariant
                j <= path_steps.len(),
                root_view == step_views(root_steps@),
                step_views(parent@) == root_view + step_views(path_steps@).take(j as int),
            decreases path_steps.len() - j,
        {
            let ghost was = step_views(parent@);
            let step = path_steps[j].clone();
            parent.push(step);
            j += 1;
            assert(step_views(parent@) =~= was.push(step@));
            assert(step_views(path_steps@).take(j as int) =~= step_views(path_steps@).take(
                j - 1,
            ).push(step@));
            assert(step_views(parent@) =~= root_view + step_views(path_steps@).take(j as int));
        }
        assert(step_views(path_steps@).take(path_steps.len() as int) =~= step_views(
            path_steps@,
        ));
        if parent.len() > 0 {
            let ghost file = step_views(parent@);
            parent.pop();
            assert(step_views(parent@) =~= file.drop_last());
        }
        let ghost dir = step_views(parent@);
        assert(dir == chapter_dir(root@, path@));
        let mut up: usize = 0;
        while up < parent.len() && !prefix_of(&parent, parent.len() - up, &root_steps)
            invariant
                up <= parent.len(),
                dir == step_views(parent@),
                root_view == step_views(root_steps@),
                climb(dir, root_view, 0) == climb(dir, root_view, up as int),
            decreases parent.len() - up,
        {
            up += 1;
        }
        let mut r = String::new();
        let mut k: usize = 0;
        while k < up
            invariant
                k <= up,
                r@ == ups(k as int),
            decreases up - k,
        {
            r.push('.');
            r.push('.');
            r.push('/');
            k += 1;
            assert(r@ =~= ups(k as int));
        }
        let start = parent.len() - up;
        if start <= root_steps.len() {
            let ghost below = root_view.skip(start as int);
            let ghost head = r@;
            let mut m: usize = start;
            assert(r@ =~= head + downs(below, 0));
            while m < root_steps.len()
                invariant
                    start <= m <= root_steps.len(),
                    root_view == step_views(root_steps@),
                    below == root_view.skip(start as int),
                    r@ == head + downs(below, m - start),
                decreases root_steps.len() - m,
            {
                r.append(root_steps[m].as_str());
                r.push('/');
                m += 1;
                assert(below[m - start - 1] == root_view[m - 1]);
                assert(r@ =~= head + downs(below, m - start));
            }
        } else {
            assert(root_view.skip(start as int).len() == 0);
            assert(r@ =~= r@ + downs(root_view.skip(start as int), 0));
        }
        r.append(dest);
        r
    }

    /// A destination of the stub, as it is written into the chapter at
    /// `path` under `root`: one that is given from the sources of the book
    /// is rebased, any other is kept.
    pub fn rewrite_destination(root: &str, path: &str, dest: &str) -> (r: String)
        ensures
            r@ == rewritten(root@, path@, dest@),
    {
        if Self::needs_rebase(dest) {
            Self::rebase_destination(root, path, dest)
        } else {
            String::from_str(dest)
        }
    }
}


/// `pulldown_cmark_to_cmark::State`, of which nothing is known here.
#[verifier::external_type_specification]
#[verifier::external_body]
pub struct ExState<'a>(State<'a>);

/// `pulldown_cmark_to_cmark::Error`, of which nothing is known here.
#[verifier::external_type_specification]
#[verifier::external_body]
pub struct ExCmarkError(CmarkError);

/// An event of Markdown as the tokenizer gave it, beside what the
/// preprocessor reads of it: the text of a text event, and the destination
/// of the opening of a link or an image.
#[derive(Debug, PartialEq)]
pub struct SourceEvent {
    raw: Event<'static>,
    text: Option<String>,
    destination: Option<String>,
}

/// An event, as a value of the model: the event of the tokenizer, of which
/// nothing is known here, the text of a text event, and the destination of
/// the opening of a link or an image.
pub struct SourceView {
    pub raw: Event<'static>,
    pub text: Option<Seq<char>>,
    pub destination: Option<Seq<char>>,
}

impl View for SourceEvent {
    type V = SourceView;

    closed spec fn view(&self) -> SourceView {
        SourceView {
            raw: self.raw,
            text: match self.text {
                Some(text) => Some(text@),
                None => None,
            },
            destination: match self.destination {
                Some(destination) => Some(destination@),
                None => None,
            },
        }
    }
}

impl SourceEvent {
    /// The text of a text event.
    pub fn text(&self) -> (text: &Option<String>)
        ensures
            match text {
                Some(text) => self@.text == Some(text@),
                None => self@.text is None,
            },
    {
        &self.text
    }

    /// The destination of the opening of a link or an image.
    pub fn destination(&self) -> (destination: &Option<String>)
        ensures
            match destination {
                Some(destination) => self@.destination == Some(destination@),
                None => self@.destination is None,
            },
    {
        &self.destination
    }
}

/// Why a chapter could not be written back as Markdown.
#[derive(Debug, Clone, Copy, PartialEq, Eq, Hash)]
pub enum MarkdownError {
    /// The text could not be formatted.
    FormatFailed,
    /// The events are none that Markdown gives.
    UnexpectedEvent,
}

/// The option bits under which chapters and the stub are tokenized:
/// footnotes, heading attributes, tables, strikethrough and task lists.
pub const STUB_OPTIONS: u32 = ENABLE_FOOTNOTES + ENABLE_HEADING_ATTRIBUTES + ENABLE_TABLES
    + ENABLE_STRIKETHROUGH + ENABLE_TASKLISTS;

/// The events that `pulldown_cmark` reads from `text` under the option bits
/// `options`, each kept as it is.
pub uninterp spec fn source_stream(text: Seq<char>, options: u32) -> Seq<SourceEvent>;

/// The text event that holds `text`.
pub uninterp spec fn text_source(text: Seq<char>) -> SourceEvent;

/// The opening of a link or an image `event`, with `destination` in place
/// of its own.
pub uninterp spec fn moved_source(event: SourceEvent, destination: Seq<char>) -> SourceEvent;

/// What one call of the Markdown writer makes of the events of `batch`
/// where the call before left `state`: the text that it adds, and the state
/// that it leaves or the reason why it fails.
pub uninterp spec fn resumed(batch: Seq<SourceEvent>, state: Option<State<'static>>) -> (
    Seq<char>,
    Result<State<'static>, MarkdownError>,
);

/// Keeps a `pulldown_cmark::Event` and copies out the text of a text event
/// and the destination of the opening of a link or an image.
#[verifier::external_body]
fn source_event_from(event: Event) -> SourceEvent {
    let (text, destination) = match &event {
        Event::Text(text) => (Some(text.to_string()), None),
        Event::Start(Tag::Link { dest_url, .. }) => (None, Some(dest_url.to_string())),
        Event::Start(Tag::Image { dest_url, .. }) => (None, Some(dest_url.to_string())),
        _ => (None, None),
    };
    SourceEvent { raw: event.into_static(), text, destination }
}

/// Runs `pulldown_cmark::Parser::new_ext` over `text` with the option bits
/// `options` and keeps every event it yields. The tokenizer reads nothing
/// but its arguments, so the events are what [`source_stream`] names.
#[verifier::external_body]
pub(crate) fn source_events(text: &str, options: u32) -> (events: Vec<SourceEvent>)
    ensures
        events@ == source_stream(text@, options),
{
    Parser::new_ext(text, Options::from_bits_truncate(options)).map(source_event_from).collect()
}

/// Makes the `pulldown_cmark::Event::Text` that holds `text`: the event
/// that [`text_source`] names. It reads as that text and has no
/// destination.
#[verifier::external_body]
pub(crate) fn text_event(text: String) -> (event: SourceEvent)
    ensures
        event == text_source(text@),
        event@.text == Some(text@),
        event@.destination is None,
{
    SourceEvent { raw: Event::Text(text.clone().into()), text: Some(text), destination: None }
}

/// Copies an event with `Clone`.
#[verifier::external_body]
pub(crate) fn same_event(event: &SourceEvent) -> (copy: SourceEvent)
    ensures
        copy == *event,
{
    SourceEvent {
        raw: event.raw.clone(),
        text: event.text.clone(),
        destination: event.destination.clone(),
    }
}

/// Copies the opening of a link or an image with `destination` in place of
/// its own; everything else of the event is kept. The copy is the event
/// that [`moved_source`] names; it reads as the event did, but for its
/// destination.
#[verifier::external_body]
pub(crate) fn with_destination(event: &SourceEvent, destination: String) -> (moved: SourceEvent)
    requires
        event@.destination is Some,
    ensures
        moved == moved_source(*event, destination@),
        moved@.text == event@.text,
        moved@.destination == Some(destination@),
{
    let dest_url = destination.clone().into();
    let raw = match event.raw.clone() {
        Event::Start(Tag::Link { link_type, title, id, .. }) => {
            Event::Start(Tag::Link { link_type, dest_url, title, id })
        },
        Event::Start(Tag::Image { link_type, title, id, .. }) => {
            Event::Start(Tag::Image { link_type, dest_url, title, id })
        },
        other => other,
    };
    SourceEvent { raw, text: event.text.clone(), destination: Some(destination) }
}

/// Tells the two errors of `pulldown_cmark_to_cmark` apart.
#[verifier::external_body]
fn markdown_error_from(e: CmarkError) -> MarkdownError {
    match e {
        CmarkError::FormatFailed(_) => MarkdownError::FormatFailed,
        CmarkError::UnexpectedEvent => MarkdownError::UnexpectedEvent,
    }
}

/// One call of `pulldown_cmark_to_cmark::cmark_resume_with_options` with
/// the default options. The writer reads nothing but the events and the
/// state that it is given, and it only adds to `out`, also where it fails:
/// what it adds and how it ends is what [`resumed`] names.
#[verifier::external_body]
fn resume_markdown(
    batch: &Vec<SourceEvent>,
    out: &mut String,
    state: Option<State<'static>>,
) -> (r: Result<State<'static>, MarkdownError>)
    ensures
        final(out)@ == old(out)@ + resumed(batch@, state).0,
        r == resumed(batch@, state).1,
{
    cmark_resume_with_options(batch.iter().map(|e| &e.raw), out, state, PrintOptions::default())
        .map_err(markdown_error_from)
}

/// The event `event` of the stub as the chapter at `path` takes it: an
/// event whose destination is given from the sources of the book has that
/// destination rebased, any other is the same event.
pub open spec fn stub_event(event: SourceEvent, root: Seq<char>, path: Seq<char>) -> SourceEvent {
    match event@.destination {
        Some(destination) => if is_relative(destination) {
            moved_source(event, rebased(root, path, destination))
        } else {
            event
        },
        None => event,
    }
}

/// The stub as the chapter at `path` takes it.
pub open spec fn stub_batch(stub: Seq<SourceEvent>, root: Seq<char>, path: Seq<char>) -> Seq<
    SourceEvent,
> {
    Seq::new(stub.len(), |k: int| stub_event(stub[k], root, path))
}

/// The batches that one event of a chapter becomes. An event passes as a
/// batch of its own, but for a text event that holds the marker: it becomes
/// the text before the marker, then the stub where the chapter takes it,
/// then the text after the marker.
pub open spec fn pieces(
    event: SourceEvent,
    stub: Seq<SourceEvent>,
    taken: bool,
    root: Seq<char>,
    path: Seq<char>,
) -> Seq<Seq<SourceEvent>> {
    let split = match event@.text {
        Some(text) => split_at_marker(text),
        None => None,
    };
    match split {
        None => seq![seq![event]],
        Some((before, after)) => if taken {
            seq![seq![text_source(before)], stub_batch(stub, root, path), seq![text_source(after)]]
        } else {
            seq![seq![text_source(before)], seq![text_source(after)]]
        },
    }
}

/// The batches that the first `n` of `events` become, in order.
pub open spec fn spliced(
    events: Seq<SourceEvent>,
    n: int,
    stub: Seq<SourceEvent>,
    taken: bool,
    root: Seq<char>,
    path: Seq<char>,
) -> Seq<Seq<SourceEvent>>
    decreases n,
{
    if n <= 0 {
        Seq::empty()
    } else {
        spliced(events, n - 1, stub, taken, root, path) + pieces(
            events[n - 1],
            stub,
            taken,
            root,
            path,
        )
    }
}

/// The events of each batch of `s`, in order.
pub open spec fn batch_seqs(s: Seq<Vec<SourceEvent>>) -> Seq<Seq<SourceEvent>> {
    Seq::new(s.len(), |i: int| s[i]@)
}

/// What the Markdown writer has made of the first `n` of `batches`, one
/// call for each batch, each call from the state that the call before left:
/// the text so far and the state, or the failure of the first call that
/// fails.
pub open spec fn written(batches: Seq<Seq<SourceEvent>>, n: int) -> Result<
    (Seq<char>, Option<State<'static>>),
    MarkdownError,
>
    decreases n,
{
    if n <= 0 {
        Ok((Seq::empty(), None))
    } else {
        match written(batches, n - 1) {
            Err(e) => Err(e),
            Ok((text, state)) => match resumed(batches[n - 1], state).1 {
                Err(e) => Err(e),
                Ok(next) => Ok((text + resumed(batches[n - 1], state).0, Some(next))),
            },
        }
    }
}

/// The Markdown that the writer makes of `batches`, or the failure of the
/// first call that fails.
pub open spec fn markdown_of(batches: Seq<Seq<SourceEvent>>) -> Result<Seq<char>, MarkdownError> {
    match written(batches, batches.len() as int) {
        Ok((text, _)) => Ok(text),
        Err(e) => Err(e),
    }
}

/// A failure among the first batches is the failure of them all.
pub proof fn lemma_written_error(batches: Seq<Seq<SourceEvent>>, first: int, n: int)
    requires
        0 < first <= n,
        written(batches, first) is Err,
    ensures
        written(batches, n) is Err,
        written(batches, n)->Err_0 == written(batches, first)->Err_0,
    decreases n - first,
{
    if first < n {
        lemma_written_error(batches, first, n - 1);
    }
}

/// What is handed to the Markdown writer for a chapter with the text
/// `content` that is rendered to `path`: the events that the tokenizer
/// reads from the text, with the stub, as the tokenizer reads it, put in
/// wherever a text holds the marker.
pub open spec fn chapter_pieces(
    content: Seq<char>,
    path: Seq<char>,
    taken: bool,
    root: Seq<char>,
    stub: Seq<char>,
) -> Seq<Seq<SourceEvent>> {
    let events = source_stream(content, STUB_OPTIONS);
    spliced(events, events.len() as int, source_stream(stub, STUB_OPTIONS), taken, root, path)
}

/// What a chapter is rewritten with: the configuration, the name of the
/// renderer, the directory of the sources, and the Markdown of the stub.
pub struct Job {
    pub config: AddCopyrightPreprocessorConfig,
    pub renderer: Seq<char>,
    pub root: Seq<char>,
    pub stub: Seq<char>,
}

/// The text of a chapter after the stub has been put in, or the reason why
/// the Markdown writer fails on it. A chapter that is rendered nowhere keeps
/// its text. Any other chapter gets the Markdown of its events, in which
/// each marker is taken out and, where the configuration lets the chapter
/// take the stub under the renderer, the stub stands in its place, with its
/// destinations rebased.
pub open spec fn chapter_text(ch: Chapter, job: Job) -> Result<Seq<char>, MarkdownError> {
    match ch.path {
        None => Ok(ch.content@),
        Some(path) => markdown_of(
            chapter_pieces(
                ch.content@,
                path@,
                job.config.includes(job.renderer, path@),
                job.root,
                job.stub,
            ),
        ),
    }
}

/// The writer is not asked where there is nothing to write: a chapter in
/// which the tokenizer finds nothing has no text left, whatever the stub
/// holds, and a chapter that is rendered nowhere keeps its text.
pub proof fn lemma_nothing_to_write(ch: Chapter, job: Job)
    requires
        ch.path is None || source_stream(ch.content@, STUB_OPTIONS).len() == 0,
    ensures
        chapter_text(ch, job) == Ok::<_, MarkdownError>(
            if ch.path is None {
                ch.content@
            } else {
                Seq::empty()
            },
        ),
{
}

/// A chapter that does not take the stub is written from its own events
/// alone: nothing of the stub is handed to the writer.
pub proof fn lemma_stub_left_out(
    events: Seq<SourceEvent>,
    n: int,
    stub: Seq<SourceEvent>,
    other: Seq<SourceEvent>,
    root: Seq<char>,
    path: Seq<char>,
)
    ensures
        spliced(events, n, stub, false, root, path) == spliced(events, n, other, false, root, path),
    decreases n,
{
    if n > 0 {
        lemma_stub_left_out(events, n - 1, stub, other, root, path);
    }
}

/// The first failure of the Markdown writer among the chapters of the first
/// `n` of `items`, in the order of the visit: the chapters under a chapter
/// come before the chapter itself.
pub open spec fn failure(items: Seq<BookItem>, n: int, job: Job) -> Option<MarkdownError>
    decreases items, n,
{
    if n <= 0 || n > items.len() {
        None
    } else {
        match failure(items, n - 1, job) {
            Some(e) => Some(e),
            None => match items[n - 1] {
                BookItem::Chapter(ch) => match failure(
                    ch.sub_items@,
                    ch.sub_items@.len() as int,
                    job,
                ) {
                    Some(e) => Some(e),
                    None => match chapter_text(ch, job) {
                        Err(e) => Some(e),
                        Ok(_) => None,
                    },
                },
                _ => None,
            },
        }
    }
}

/// A failure among the first items is the failure of them all.
pub proof fn lemma_failure_stays(items: Seq<BookItem>, first: int, n: int, job: Job)
    requires
        0 < first <= n <= items.len(),
        failure(items, first, job) is Some,
    ensures
        failure(items, n, job) == failure(items, first, job),
    decreases n - first,
{
    if first < n {
        lemma_failure_stays(items, first, n - 1, job);
    }
}

/// Whether the item `new` is `old` after the stub has been put in: the
/// same kind of item with the same title; a chapter keeps its name and its
/// paths, its text is what [`chapter_text`] gives, and the items under it
/// are updated in their turn.
pub open spec fn is_updated(new: BookItem, old: BookItem, job: Job) -> bool
    decreases old, 0int,
{
    match old {
        BookItem::Chapter(was) => new matches BookItem::Chapter(ch) && ch.name == was.name
            && ch.path == was.path && ch.source_path == was.source_path && chapter_text(was, job)
            == Ok::<_, MarkdownError>(ch.content@) && (was.path is None ==> ch.content
            == was.content) && all_updated(ch.sub_items@, was.sub_items@, job),
        other => new == other,
    }
}

/// Whether each of `new` is the item of `old` at its place after the stub
/// has been put in.
pub open spec fn all_updated(new: Seq<BookItem>, old: Seq<BookItem>, job: Job) -> bool
    decreases old, 1int,
{
    new.len() == old.len() && forall|i: int|
        0 <= i < old.len() ==> is_updated(#[trigger] new[i], old[i], job)
}

fn one_batch(event: SourceEvent) -> (batch: Vec<SourceEvent>)
    ensures
        batch@ == seq![event],
{
    let mut batch: Vec<SourceEvent> = Vec::new();
    batch.push(event);
    batch
}

impl AddCopyrightPreprocessor {
    /// The events of the Markdown `text`, as the preprocessor reads them.
    pub fn read_events(text: &str) -> (events: Vec<SourceEvent>)
        ensures
            events@ == source_stream(text@, STUB_OPTIONS),
    {
        source_events(text, STUB_OPTIONS)
    }

    /// The stub as the chapter at `path` under `root` takes it.
    pub fn stub_for(stub: &Vec<SourceEvent>, root: &str, path: &str) -> (batch: Vec<SourceEvent>)
        ensures
            batch@ == stub_batch(stub@, root@, path@),
    {
        let mut batch: Vec<SourceEvent> = Vec::new();
        let mut k: usize = 0;
        while k < stub.len()
            invariant
                k <= stub.len(),
                batch@.len() == k,
                forall|m: int| 0 <= m < k ==> #[trigger] batch@[m] == stub_event(stub@[m], root@, path@),
            decreases stub.len() - k,
        {
            let event = &stub[k];
            let copy = match event.destination() {
                Some(destination) => {
                    if Self::needs_rebase(destination.as_str()) {
                        with_destination(
                            event,
                            Self::rebase_destination(root, path, destination.as_str()),
                        )
                    } else {
                        same_event(event)
                    }
                },
                None => same_event(event),
            };
            batch.push(copy);
            k += 1;
        }
        assert(batch@ =~= stub_batch(stub@, root@, path@));
        batch
    }

    /// Puts the stub where the marker stands. Each batch of the result is
    /// written back as Markdown by a call of its own.
    pub fn splice_stub(
        events: Vec<SourceEvent>,
        stub: &Vec<SourceEvent>,
        taken: bool,
        root: &str,
        path: &str,
    ) -> (batches: Vec<Vec<SourceEvent>>)
        ensures
            batch_seqs(batches@) == spliced(
                events@,
                events.len() as int,
                stub@,
                taken,
                root@,
                path@,
            ),
    {
        let mut batches: Vec<Vec<SourceEvent>> = Vec::new();
        let ghost all = events@;
        assert(batch_seqs(batches@) =~= spliced(all, 0, stub@, taken, root@, path@));
        for event in it: events
            invariant
                it.seq() == events@,
                all == events@,
                batch_seqs(batches@) == spliced(all, it.index() as int, stub@, taken, root@, path@),
        {
            let ghost was = batch_seqs(batches@);
            assert(all[it.index() as int] == event);
            let split = match event.text() {
                Some(text) => Self::split_marker(text.as_str()),
                None => None,
            };
            match split {
                None => {
                    batches.push(one_batch(event));
                },
                Some((before, after)) => {
                    batches.push(one_batch(text_event(before)));
                    if taken {
                        batches.push(Self::stub_for(stub, root, path));
                    }
                    batches.push(one_batch(text_event(after)));
                },
            }
            assert(batch_seqs(batches@) =~= was + pieces(event, stub@, taken, root@, path@));
        }
        batches
    }

    /// Writes batches of events back as Markdown, one call of the writer for
    /// each batch, each call from the state that the call before left. The
    /// first call that fails ends the writing.
    pub fn write_batches(batches: &Vec<Vec<SourceEvent>>) -> (r: Result<String, MarkdownError>)
        ensures
            match r {
                Ok(text) => markdown_of(batch_seqs(batches@)) == Ok::<_, MarkdownError>(text@),
                Err(e) => markdown_of(batch_seqs(batches@)) == Err::<Seq<char>, _>(e),
            },
    {
        let ghost seqs = batch_seqs(batches@);
        let mut out = String::new();
        let mut state: Option<State<'static>> = None;
        let mut i: usize = 0;
        while i < batches.len()
            invariant
                i <= batches.len(),
                seqs == batch_seqs(batches@),
                written(seqs, i as int) == Ok::<_, MarkdownError>((out@, state)),
            decreases batches.len() - i,
        {
            assert(seqs[i as int] == batches@[i as int]@);
            match resume_markdown(&batches[i], &mut out, state) {
                Ok(next) => {
                    state = Some(next);
                },
                Err(e) => {
                    proof {
                        lemma_written_error(seqs, i + 1, seqs.len() as int);
                    }
                    return Err(e);
                },
            }
            i += 1;
        }
        Ok(out)
    }

    /// Gives a chapter the text that the Markdown writer made; where the
    /// writer failed, the chapter is left as it was and the failure is
    /// handed on.
    pub fn take_written(ch: &mut Chapter, written: Result<String, MarkdownError>) -> (r: Result<
        (),
        MarkdownError,
    >)
        ensures
            final(ch).name == old(ch).name,
            final(ch).sub_items == old(ch).sub_items,
            final(ch).path == old(ch).path,
            final(ch).source_path == old(ch).source_path,
            match written {
                Ok(text) => r is Ok && final(ch).content == text,
                Err(e) => r == Err::<(), MarkdownError>(e) && final(ch).content == old(
                    ch,
                ).content,
            },
    {
        match written {
            Ok(text) => {
                ch.content = text;
                Ok(())
            },
            Err(e) => Err(e),
        }
    }

    /// What is handed to the Markdown writer for a chapter with the text
    /// `content` that is rendered to `path`. The stub is taken exactly when
    /// the configuration lets the chapter take it under `renderer`;
    /// otherwise the marker is only taken out.
    pub fn chapter_batches(
        content: &str,
        path: &str,
        config: &AddCopyrightPreprocessorConfig,
        renderer: &str,
        root: &str,
        stub: &str,
    ) -> (batches: Vec<Vec<SourceEvent>>)
        ensures
            batch_seqs(batches@) == chapter_pieces(
                content@,
                path@,
                config.includes(renderer@, path@),
                root@,
                stub@,
            ),
    {
        let taken = config.is_included(renderer, path);
        let events = Self::read_events(content);
        let stub_events = Self::read_events(stub);
        Self::splice_stub(events, &stub_events, taken, root, path)
    }

    /// Puts the stub into a chapter: wherever a text of the chapter holds
    /// the marker, the marker is taken out, and the stub is put in its place
    /// if the configuration lets the chapter take it under `renderer`.
    ///
    /// A chapter that is rendered nowhere is left alone. Any other chapter
    /// gets the text that the Markdown writer makes of what
    /// [`Self::chapter_batches`] hands to it; where the writer fails the
    /// chapter is left as it was.
    pub fn update_chapter(
        ch: &mut Chapter,
        config: &AddCopyrightPreprocessorConfig,
        renderer: &str,
        root: &str,
        stub: &str,
    ) -> (r: Result<(), MarkdownError>)
        ensures
            final(ch).name == old(ch).name,
            final(ch).sub_items == old(ch).sub_items,
            final(ch).path == old(ch).path,
            final(ch).source_path == old(ch).source_path,
            old(ch).path is None ==> final(ch).content == old(ch).content,
            match chapter_text(
                *old(ch),
                (Job { config: *config, renderer: renderer@, root: root@, stub: stub@ }),
            ) {
                Ok(text) => r is Ok && final(ch).content@ == text,
                Err(e) => r == Err::<(), MarkdownError>(e) && final(ch).content == old(
                    ch,
                ).content,
            },
    {
        let path = match &ch.path {
            Some(path) => path.clone(),
            None => {
                return Ok(());
            },
        };
        let batches = Self::chapter_batches(
            ch.content.as_str(),
            path.as_str(),
            config,
            renderer,
            root,
            stub,
        );
        Self::take_written(ch, Self::write_batches(&batches))
    }
}

/// Visits every item of a book, the items nested under a chapter before the
/// chapter itself, and puts the stub into each chapter. The visit ends with
/// the first chapter for which the Markdown writer fails.
pub fn try_for_each_mut(
    items: Vec<BookItem>,
    config: &AddCopyrightPreprocessorConfig,
    renderer: &str,
    root: &str,
    stub: &str,
) -> (r: Result<Vec<BookItem>, MarkdownError>)
    ensures
        match r {
            Ok(updated) => failure(
                items@,
                items.len() as int,
                (Job { config: *config, renderer: renderer@, root: root@, stub: stub@ }),
            ) is None && all_updated(
                updated@,
                items@,
                (Job { config: *config, renderer: renderer@, root: root@, stub: stub@ }),
            ),
            Err(e) => failure(
                items@,
                items.len() as int,
                (Job { config: *config, renderer: renderer@, root: root@, stub: stub@ }),
            ) == Some(e),
        },
    decreases items,
{
    let ghost job = Job { config: *config, renderer: renderer@, root: root@, stub: stub@ };
    let mut updated: Vec<BookItem> = Vec::new();
    let ghost all = items@;
    for item in it: items
        invariant
            it.seq() == items@,
            all == items@,
            job == (Job { config: *config, renderer: renderer@, root: root@, stub: stub@ }),
            updated@.len() == it.index(),
            failure(all, it.index() as int, job) is None,
            forall|i: int| 0 <= i < it.index() ==> is_updated(#[trigger] updated@[i], all[i], job),
    {
        let ghost at = it.index() as int;
        assert(all[at] == item);
        let next = match item {
            BookItem::Chapter(ch) => {
                let Chapter { name, content, sub_items, path, source_path } = ch;
                let ghost was = ch;
                let sub_items = match try_for_each_mut(sub_items, config, renderer, root, stub) {
                    Ok(sub_items) => sub_items,
                    Err(e) => {
                        proof {
                            assert(failure(all, at + 1, job) == Some(e));
                            lemma_failure_stays(all, at + 1, all.len() as int, job);
                        }
                        return Err(e);
                    },
                };
                let mut ch = Chapter { name, content, sub_items, path, source_path };
                assert(chapter_text(ch, job) == chapter_text(was, job));
                match AddCopyrightPreprocessor::update_chapter(
                    &mut ch,
                    config,
                    renderer,
                    root,
                    stub,
                ) {
                    Ok(()) => {},
                    Err(e) => {
                        proof {
                            assert(failure(all, at + 1, job) == Some(e));
                            lemma_failure_stays(all, at + 1, all.len() as int, job);
                        }
                        return Err(e);
                    },
                }
                BookItem::Chapter(ch)
            },
            other => other,
        };
        updated.push(next);
    }
    Ok(updated)
}

impl AddCopyrightPreprocessor {
    /// Puts the stub into every chapter of a book. The run ends with the
    /// first chapter for which the Markdown writer fails.
    pub fn run(
        &self,
        sections: Vec<BookItem>,
        config: &AddCopyrightPreprocessorConfig,
        renderer: &str,
        root: &str,
        stub: &str,
    ) -> (r: Result<Vec<BookItem>, MarkdownError>)
        ensures
            match r {
                Ok(updated) => failure(
                    sections@,
                    sections.len() as int,
                    (Job { config: *config, renderer: renderer@, root: root@, stub: stub@ }),
                ) is None && all_updated(
                    updated@,
                    sections@,
                    (Job { config: *config, renderer: renderer@, root: root@, stub: stub@ }),
                ),
                Err(e) => failure(
                    sections@,
                    sections.len() as int,
                    (Job { config: *config, renderer: renderer@, root: root@, stub: stub@ }),
                ) == Some(e),
            },
    {
        try_for_each_mut(sections, config, renderer, root, stub)
    }
}


impl MarkdownError {
    /// What the error says.
    pub open spec fn message(&self) -> Seq<char> {
        match self {
            MarkdownError::FormatFailed => "the text could not be formatted"@,
            MarkdownError::UnexpectedEvent => "Unexpected event while reconstructing Markdown"@,
        }
    }

    /// What the error says.
    pub fn to_string(&self) -> (text: String)
        ensures
            text@ == self.message(),
    {
        match self {
            MarkdownError::FormatFailed => String::from_str("the text could not be formatted"),
            MarkdownError::UnexpectedEvent => String::from_str(
                "Unexpected event while reconstructing Markdown",
            ),
        }
    }
}

} // verus!
