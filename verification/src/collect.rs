//! Which outputs a book gives, and which items go into each.

use crate::book::{BookItem, Chapter};
use crate::bookir::grammar::ParseError;
use crate::bookir::nav::{referred, tree_of, NavNodeView, NavTree};
use crate::bookir::{ExtraItem, RichTextOptions};
use crate::config::{find_entry, lookup, OutputFile, OutputType, SharedConfig};
use crate::helpers::{id_of, name_to_id};
use crate::text::{
    chars_of, find_char, has_prefix, holds_text, list_holds, position_of, same_text, starts_with,
    string_of, trim_bounds, trimmed,
};
use crate::Output;
use vstd::prelude::*;
use vstd::string::*;

verus! {

/// The chapters of one part, under the identifier of the part.
pub struct PartList<'a> {
    pub id: String,
    pub chapters: Vec<&'a BookItem>,
}

/// What a walk over the top level of a book gathers: the chapters of each
/// part, and the chapters that go before and after every part.
pub struct Collected<'a> {
    pub parts: Vec<PartList<'a>>,
    pub head: Vec<&'a BookItem>,
    pub tail: Vec<&'a BookItem>,
}

/// The lists of chapters by the identifier of their part.
pub type PartLists = Seq<(Seq<char>, Seq<BookItem>)>;

/// The chapters of a book by their part, as a value of the model.
pub struct CollectedView {
    pub parts: PartLists,
    pub head: Seq<BookItem>,
    pub tail: Seq<BookItem>,
}

impl<'a> View for PartList<'a> {
    type V = (Seq<char>, Seq<BookItem>);

    open spec fn view(&self) -> (Seq<char>, Seq<BookItem>) {
        (self.id@, referred(self.chapters@))
    }
}

/// The model of each list of `s`, in order.
pub open spec fn part_views(s: Seq<PartList>) -> PartLists {
    Seq::new(s.len(), |i: int| s[i]@)
}

impl<'a> View for Collected<'a> {
    type V = CollectedView;

    open spec fn view(&self) -> CollectedView {
        CollectedView {
            parts: part_views(self.parts@),
            head: referred(self.head@),
            tail: referred(self.tail@),
        }
    }
}

/// The index of the list of the part `id`, or `parts.len()`.
pub open spec fn part_position(parts: PartLists, id: Seq<char>) -> int
    decreases parts.len(),
{
    if parts.len() == 0 {
        0
    } else if parts[0].0 == id {
        0
    } else {
        1 + part_position(parts.drop_first(), id)
    }
}

/// What [`part_position`] gives lies in `parts`, no list before it is named
/// `id`, and the list at it is, where there is one.
pub proof fn lemma_part_position(parts: PartLists, id: Seq<char>)
    ensures
        0 <= part_position(parts, id) <= parts.len(),
        forall|j: int| 0 <= j < part_position(parts, id) ==> parts[j].0 != id,
        part_position(parts, id) < parts.len() ==> parts[part_position(parts, id)].0 == id,
    decreases parts.len(),
{
    if parts.len() > 0 && parts[0].0 != id {
        let t = parts.drop_first();
        lemma_part_position(t, id);
        assert forall|j: int| 0 <= j < part_position(parts, id) implies parts[j].0 != id by {
            if j > 0 {
                assert(parts[j] == t[j - 1]);
            }
        }
    }
}

/// The one index before which no list is named `id`, and at which a list is
/// or the lists end, is what [`part_position`] gives.
pub proof fn lemma_part_position_is(parts: PartLists, id: Seq<char>, i: int)
    requires
        0 <= i <= parts.len(),
        forall|j: int| 0 <= j < i ==> parts[j].0 != id,
        i < parts.len() ==> parts[i].0 == id,
    ensures
        part_position(parts, id) == i,
{
    lemma_part_position(parts, id);
    let k = part_position(parts, id);
    if k < i {
        assert(parts[k].0 == id);
    } else if i < k {
        assert(parts[i].0 == id);
    }
}

/// `parts` after the part `id` has been given `chapters`: a part that is
/// listed already keeps its place and takes the new chapters.
pub open spec fn put(parts: PartLists, id: Seq<char>, chapters: Seq<BookItem>) -> PartLists {
    let at = part_position(parts, id);
    if at < parts.len() {
        parts.update(at, (id, chapters))
    } else {
        parts.push((id, chapters))
    }
}

/// The chapters of the part `id`, `None` where it is not listed.
pub open spec fn chapters_of(parts: PartLists, id: Seq<char>) -> Option<Seq<BookItem>> {
    let at = part_position(parts, id);
    if at < parts.len() {
        Some(parts[at].1)
    } else {
        None
    }
}

/// A path without a leading `..` step. The path is read as text with `/`
/// between its steps; only a `..` at its very start is taken off.
pub open spec fn strip_parent(path: Seq<char>) -> Seq<char> {
    if path == seq!['.', '.'] {
        Seq::empty()
    } else if starts_with(path, seq!['.', '.', '/']) {
        path.skip(3)
    } else {
        path
    }
}

/// Where the walk over the top level stands between two items.
pub struct Scan {
    pub parts: PartLists,
    pub head: Seq<BookItem>,
    pub tail: Seq<BookItem>,
    /// The identifier of the part that is open.
    pub open: Option<Seq<char>>,
    /// The chapters met since the last boundary.
    pub current: Seq<BookItem>,
    /// Whether a part title has been met.
    pub has_entries: bool,
}

/// The state once a boundary is met: the part that is open is listed with
/// the chapters met since the last boundary, and those chapters are let go
/// in any case.
pub open spec fn closed(scan: Scan) -> Scan {
    Scan {
        parts: match scan.open {
            Some(id) => put(scan.parts, id, scan.current),
            None => scan.parts,
        },
        open: None,
        current: Seq::empty(),
        ..scan
    }
}

/// Whether a chapter goes into the file of every part.
pub open spec fn is_listed(ch: Chapter, always: Seq<String>) -> bool {
    ch.path matches Some(path) && holds_text(always, strip_parent(path@))
}

/// The state after `item`.
///
/// A separator is a boundary. A part title is a boundary that opens the part
/// named by its identifier. A chapter joins the chapters of the part; one
/// that goes into every file also joins those that go before every part, as
/// long as no part title has been met, and those that go after them from
/// then on.
pub open spec fn scan_step(scan: Scan, item: BookItem, always: Seq<String>) -> Scan {
    match item {
        BookItem::Separator => closed(scan),
        BookItem::PartTitle(title) => Scan {
            open: Some(id_of(title@)),
            has_entries: true,
            ..closed(scan)
        },
        BookItem::Chapter(ch) => Scan {
            head: if is_listed(ch, always) && !scan.has_entries {
                scan.head.push(item)
            } else {
                scan.head
            },
            tail: if is_listed(ch, always) && scan.has_entries {
                scan.tail.push(item)
            } else {
                scan.tail
            },
            current: scan.current.push(item),
            ..scan
        },
    }
}

/// The state after the first `n` of `sections`.
pub open spec fn scan_prefix(sections: Seq<BookItem>, n: int, always: Seq<String>) -> Scan
    decreases n,
{
    if n <= 0 {
        Scan {
            parts: Seq::empty(),
            head: Seq::empty(),
            tail: Seq::empty(),
            open: None,
            current: Seq::empty(),
            has_entries: false,
        }
    } else {
        scan_step(scan_prefix(sections, n - 1, always), sections[n - 1], always)
    }
}

/// What the walk over `sections` gathers. The part that is open at the end
/// is listed as it stands.
pub open spec fn collected(sections: Seq<BookItem>, always: Seq<String>) -> CollectedView {
    let scan = scan_prefix(sections, sections.len() as int, always);
    CollectedView {
        parts: match scan.open {
            Some(id) => put(scan.parts, id, scan.current),
            None => scan.parts,
        },
        head: scan.head,
        tail: scan.tail,
    }
}

/// Every item among the first `n` of `items` and under them, each before
/// the items nested under it.
pub open spec fn all_items(items: Seq<BookItem>, n: int) -> Seq<BookItem>
    decreases items, n,
{
    if n <= 0 || n > items.len() {
        Seq::empty()
    } else {
        all_items(items, n - 1) + seq![items[n - 1]] + (match items[n - 1] {
            BookItem::Chapter(ch) => all_items(ch.sub_items@, ch.sub_items@.len() as int),
            _ => Seq::empty(),
        })
    }
}

fn strip_parent_of(path: &str) -> (r: String)
    ensures
        r@ == strip_parent(path@),
{
    let v = chars_of(path);
    let n = v.len();
    assert(v@.subrange(0, n as int) == v@);
    if n == 2 && v[0] == '.' && v[1] == '.' {
        assert(v@ =~= seq!['.', '.']);
        return String::new();
    }
    assert(v@ != seq!['.', '.']) by {
        if v@ == seq!['.', '.'] {
            assert(v@.len() == 2);
            assert(v@[0] == '.' && v@[1] == '.');
        }
    }
    let pat = vec!['.', '.', '/'];
    assert(pat@ =~= seq!['.', '.', '/']);
    if has_prefix(&v, 0, n, &pat) {
        assert(v@.skip(3) == v@.subrange(3, n as int));
        string_of(&v, 3, n)
    } else {
        String::from_str(path)
    }
}

/// Lists `chapters` under the part `id`.
fn put_part<'a>(parts: &mut Vec<PartList<'a>>, id: String, chapters: Vec<&'a BookItem>)
    ensures
        part_views(final(parts)@) == put(part_views(old(parts)@), id@, referred(chapters@)),
{
    let ghost before = part_views(parts@);
    let mut i: usize = 0;
    while i < parts.len()
        invariant
            i <= parts.len(),
            *parts == *old(parts),
            before == part_views(parts@),
            forall|j: int| 0 <= j < i ==> before[j].0 != id@,
        decreases parts.len() - i,
    {
        if same_text(parts[i].id.as_str(), id.as_str()) {
            proof {
                lemma_part_position_is(before, id@, i as int);
            }
            let entry = PartList { id, chapters };
            parts.set(i, entry);
            assert(part_views(parts@) =~= before.update(i as int, entry@));
            return;
        }
        i += 1;
    }
    proof {
        lemma_part_position_is(before, id@, before.len() as int);
    }
    let entry = PartList { id, chapters };
    parts.push(entry);
    assert(part_views(parts@) =~= before.push(entry@));
}

/// The chapters listed under the part `id`.
pub fn find_part<'a, 'b>(parts: &'b Vec<PartList<'a>>, id: &str) -> (r: Option<
    &'b Vec<&'a BookItem>,
>)
    ensures
        match r {
            Some(chapters) => chapters_of(part_views(parts@), id@) == Some(referred(chapters@)),
            None => chapters_of(part_views(parts@), id@) is None,
        },
{
    let ghost views = part_views(parts@);
    let mut i: usize = 0;
    while i < parts.len()
        invariant
            i <= parts.len(),
            views == part_views(parts@),
            forall|j: int| 0 <= j < i ==> views[j].0 != id@,
        decreases parts.len() - i,
    {
        if same_text(parts[i].id.as_str(), id) {
            proof {
                lemma_part_position_is(views, id@, i as int);
            }
            return Some(&parts[i].chapters);
        }
        i += 1;
    }
    proof {
        lemma_part_position_is(views, id@, views.len() as int);
    }
    None
}

/// Walks the top level of a book and gathers the chapters of each part, and
/// the chapters of `always` before and after the first part title.
pub fn collect_parts<'a>(sections: &'a Vec<BookItem>, always: &Vec<String>) -> (r: Collected<'a>)
    ensures
        r@ == collected(sections@, always@),
{
    let mut parts: Vec<PartList<'a>> = Vec::new();
    let mut head: Vec<&'a BookItem> = Vec::new();
    let mut tail: Vec<&'a BookItem> = Vec::new();
    let mut open: Option<String> = None;
    let mut current: Vec<&'a BookItem> = Vec::new();
    let mut has_entries = false;
    assert(part_views(parts@) =~= Seq::<(Seq<char>, Seq<BookItem>)>::empty());
    assert(referred(head@) =~= Seq::<BookItem>::empty());
    let mut i: usize = 0;
    while i < sections.len()
        invariant
            i <= sections.len(),
            scan_prefix(sections@, i as int, always@) == (Scan {
                parts: part_views(parts@),
                head: referred(head@),
                tail: referred(tail@),
                open: match open {
                    Some(id) => Some(id@),
                    None => None,
                },
                current: referred(current@),
                has_entries,
            }),
        decreases sections.len() - i,
    {
        let item = &sections[i];
        match item {
            BookItem::Separator => {
                let mut chapters: Vec<&'a BookItem> = Vec::new();
                core::mem::swap(&mut current, &mut chapters);
                match open {
                    Some(id) => {
                        put_part(&mut parts, id, chapters);
                    },
                    None => {},
                }
                open = None;
                assert(referred(current@) =~= Seq::<BookItem>::empty());
            },
            BookItem::PartTitle(title) => {
                let mut chapters: Vec<&'a BookItem> = Vec::new();
                core::mem::swap(&mut current, &mut chapters);
                match open {
                    Some(id) => {
                        put_part(&mut parts, id, chapters);
                    },
                    None => {},
                }
                open = Some(name_to_id(title.as_str()));
                has_entries = true;
                assert(referred(current@) =~= Seq::<BookItem>::empty());
            },
            BookItem::Chapter(ch) => {
                let listed = match &ch.path {
                    Some(path) => {
                        let inner = strip_parent_of(path.as_str());
                        list_holds(always, inner.as_str())
                    },
                    None => false,
                };
                if listed {
                    if has_entries {
                        let ghost was = referred(tail@);
                        tail.push(item);
                        assert(referred(tail@) =~= was.push(*item));
                    } else {
                        let ghost was = referred(head@);
                        head.push(item);
                        assert(referred(head@) =~= was.push(*item));
                    }
                }
                let ghost was = referred(current@);
                current.push(item);
                assert(referred(current@) =~= was.push(*item));
            },
        }
        i += 1;
    }
    match open {
        Some(id) => {
            put_part(&mut parts, id, current);
        },
        None => {},
    }
    Collected { parts, head, tail }
}

/// The items of the top level, each by reference.
fn top_level<'a>(sections: &'a Vec<BookItem>) -> (items: Vec<&'a BookItem>)
    ensures
        referred(items@) == sections@,
{
    let mut items: Vec<&'a BookItem> = Vec::new();
    let mut i: usize = 0;
    while i < sections.len()
        invariant
            i <= sections.len(),
            items@.len() == i,
            forall|k: int| 0 <= k < i ==> *#[trigger] items@[k] == sections@[k],
        decreases sections.len() - i,
    {
        items.push(&sections[i]);
        i += 1;
    }
    assert(referred(items@) =~= sections@);
    items
}

/// Adds to `out` every item of `items` and under them, each before the
/// items nested under it.
fn walk_items<'a>(items: &'a Vec<BookItem>, out: &mut Vec<&'a BookItem>)
    ensures
        referred(final(out)@) == referred(old(out)@) + all_items(items@, items.len() as int),
    decreases items,
{
    let ghost start = referred(out@);
    assert(referred(out@) =~= start + all_items(items@, 0));
    let mut i: usize = 0;
    while i < items.len()
        invariant
            i <= items.len(),
            referred(out@) == start + all_items(items@, i as int),
        decreases items.len() - i,
    {
        let item = &items[i];
        let ghost was = referred(out@);
        out.push(item);
        assert(referred(out@) =~= was + seq![*item]);
        match item {
            BookItem::Chapter(ch) => {
                walk_items(&ch.sub_items, out);
            },
            _ => {},
        }
        assert(referred(out@) =~= start + all_items(items@, i + 1));
        i += 1;
    }
}

/// Every item of a book, each before the items nested under it.
pub fn iter_items<'a>(items: &'a Vec<BookItem>) -> (all: Vec<&'a BookItem>)
    ensures
        referred(all@) == all_items(items@, items.len() as int),
{
    let mut all: Vec<&'a BookItem> = Vec::new();
    assert(referred(all@) =~= Seq::<BookItem>::empty());
    walk_items(items, &mut all);
    assert(Seq::<BookItem>::empty() + all_items(items@, items.len() as int) =~= all_items(
        items@,
        items.len() as int,
    ));
    all
}


/// Why a book gives no outputs.
#[derive(Debug, Clone, Copy, PartialEq, Eq, Hash)]
pub enum PlanError {
    /// One file for each chapter is asked for, which no renderer writes.
    ChapterOutput,
    /// A part title inside a chapter names a part that the top level of the
    /// book does not have.
    UnknownPart,
}

/// One output that is to be written: under which name, with which title and
/// identifier, and from which items. The items come in groups; each group
/// is nested by itself.
pub struct OutputPlan<'a> {
    pub output: Output,
    pub path: String,
    pub title: String,
    pub id: String,
    pub groups: Vec<Vec<&'a BookItem>>,
}

/// The plan of an output, as a value of the model.
pub struct OutputPlanView {
    pub output: crate::OutputView,
    pub path: Seq<char>,
    pub title: Seq<char>,
    pub id: Seq<char>,
    pub groups: Seq<Seq<BookItem>>,
}

/// The items of each group of `s`, in order.
pub open spec fn group_views(s: Seq<Vec<&BookItem>>) -> Seq<Seq<BookItem>> {
    Seq::new(s.len(), |i: int| referred(s[i]@))
}

impl<'a> View for OutputPlan<'a> {
    type V = OutputPlanView;

    open spec fn view(&self) -> OutputPlanView {
        OutputPlanView {
            output: self.output@,
            path: self.path@,
            title: self.title@,
            id: self.id@,
            groups: group_views(self.groups@),
        }
    }
}

/// The model of each plan of `s`, in order.
pub open spec fn plan_views(s: Seq<OutputPlan>) -> Seq<OutputPlanView> {
    Seq::new(s.len(), |i: int| s[i]@)
}

/// The title of a part as it is shown: what stands before the directive,
/// without the whitespace around it.
pub open spec fn shown_title(title: Seq<char>) -> Seq<char> {
    trimmed(title.take(find_char(title, '{')))
}

/// The output of the part with the title `title`: none where its file is
/// switched off; else the chapters that go before every part, its own, and
/// those that go after, under the name that is set for it or else under its
/// identifier.
pub open spec fn part_plan(
    title: Seq<char>,
    lists: CollectedView,
    files: Seq<(String, OutputFile)>,
) -> Result<Option<OutputPlanView>, PlanError> {
    let id = id_of(title);
    match lookup(files, id) {
        Some(OutputFile::Enabled(false)) => Ok(None),
        setting => match chapters_of(lists.parts, id) {
            None => Err(PlanError::UnknownPart),
            Some(chapters) => Ok(
                Some(
                    OutputPlanView {
                        output: crate::OutputView::Part(id),
                        path: match setting {
                            Some(OutputFile::Path(path)) => path@,
                            _ => id,
                        },
                        title: shown_title(title),
                        id,
                        groups: seq![lists.head, chapters, lists.tail],
                    },
                ),
            ),
        },
    }
}

/// The outputs of the part titles among the first `n` of `items`, or the
/// first error among them.
pub open spec fn part_plans(
    items: Seq<BookItem>,
    n: int,
    lists: CollectedView,
    files: Seq<(String, OutputFile)>,
) -> Result<Seq<OutputPlanView>, PlanError>
    decreases n,
{
    if n <= 0 {
        Ok(Seq::empty())
    } else {
        match part_plans(items, n - 1, lists, files) {
            Err(e) => Err(e),
            Ok(plans) => match items[n - 1] {
                BookItem::PartTitle(title) => match part_plan(title@, lists, files) {
                    Err(e) => Err(e),
                    Ok(Some(plan)) => Ok(plans.push(plan)),
                    Ok(None) => Ok(plans),
                },
                _ => Ok(plans),
            },
        }
    }
}

/// The identifier of the whole book: that of its title, or `book`.
pub open spec fn book_id(title: Option<Seq<char>>) -> Seq<char> {
    match title {
        Some(title) => id_of(title),
        None => "book"@,
    }
}

/// The output of the whole book, `None` where its file is switched off: the
/// top level of the book as it stands, part titles and separators with it,
/// under the name that is set for the file or else under the book's
/// identifier.
pub open spec fn full_plan(
    sections: Seq<BookItem>,
    title: Option<Seq<char>>,
    full: Option<OutputFile>,
) -> Option<OutputPlanView> {
    match full {
        Some(OutputFile::Enabled(false)) => None,
        setting => Some(
            OutputPlanView {
                output: crate::OutputView::Full,
                path: match setting {
                    Some(OutputFile::Path(path)) => path@,
                    _ => book_id(title),
                },
                title: match title {
                    Some(title) => title,
                    None => "Placeholder Title"@,
                },
                id: book_id(title),
                groups: seq![sections],
            },
        ),
    }
}

/// What is known of a book when its outputs are planned.
pub struct Planning {
    pub sections: Seq<BookItem>,
    pub title: Option<Seq<char>>,
    pub always: Seq<String>,
    pub files: Seq<(String, OutputFile)>,
    pub full: Option<OutputFile>,
}

/// The outputs that the first `n` of `types` give, and whether planning has
/// stopped. It stops where the whole book is asked for and its file is
/// switched off: what is asked for after that is not written.
pub open spec fn planned(types: Seq<OutputType>, n: int, book: Planning) -> Result<
    (Seq<OutputPlanView>, bool),
    PlanError,
>
    decreases n,
{
    if n <= 0 {
        Ok((Seq::empty(), false))
    } else {
        match planned(types, n - 1, book) {
            Err(e) => Err(e),
            Ok((plans, true)) => Ok((plans, true)),
            Ok((plans, false)) => match types[n - 1] {
                OutputType::Chapter => Err(PlanError::ChapterOutput),
                OutputType::Part => {
                    let items = all_items(book.sections, book.sections.len() as int);
                    match part_plans(
                        items,
                        items.len() as int,
                        collected(book.sections, book.always),
                        book.files,
                    ) {
                        Err(e) => Err(e),
                        Ok(more) => Ok((plans + more, false)),
                    }
                },
                OutputType::Full => match full_plan(book.sections, book.title, book.full) {
                    None => Ok((plans, true)),
                    Some(plan) => Ok((plans.push(plan), false)),
                },
            },
        }
    }
}

/// Whether one file for each chapter is asked for among the first `n` of
/// `types`.
pub open spec fn asks_for_chapters(types: Seq<OutputType>, n: int) -> bool {
    exists|i: int| 0 <= i < n && i < types.len() && types[i] is Chapter
}

/// The outputs of a book, in the order in which they are asked for. One
/// file for each chapter cannot be asked for at all.
pub open spec fn outputs_of(types: Seq<OutputType>, book: Planning) -> Result<
    Seq<OutputPlanView>,
    PlanError,
> {
    if asks_for_chapters(types, types.len() as int) {
        Err(PlanError::ChapterOutput)
    } else {
        match planned(types, types.len() as int, book) {
            Err(e) => Err(e),
            Ok((plans, _)) => Ok(plans),
        }
    }
}

/// An error among the first part titles is the error of them all.
pub proof fn lemma_part_plans_error(
    items: Seq<BookItem>,
    first: int,
    n: int,
    lists: CollectedView,
    files: Seq<(String, OutputFile)>,
)
    requires
        0 < first <= n,
        part_plans(items, first, lists, files) is Err,
    ensures
        part_plans(items, n, lists, files) == part_plans(items, first, lists, files),
    decreases n - first,
{
    if first < n {
        lemma_part_plans_error(items, first, n - 1, lists, files);
    }
}

/// An error among the first outputs is the error of them all, and once
/// planning has stopped nothing is added.
pub proof fn lemma_planned_rest(types: Seq<OutputType>, first: int, n: int, book: Planning)
    requires
        0 <= first <= n,
        planned(types, first, book) is Err || planned(types, first, book)->Ok_0.1,
    ensures
        planned(types, n, book) == planned(types, first, book),
    decreases n - first,
{
    if first < n {
        lemma_planned_rest(types, first, n - 1, book);
    }
}

fn copy_refs<'a>(v: &Vec<&'a BookItem>) -> (r: Vec<&'a BookItem>)
    ensures
        r@ == v@,
{
    let mut r: Vec<&'a BookItem> = Vec::new();
    let mut i: usize = 0;
    while i < v.len()
        invariant
            i <= v.len(),
            r@ == v@.take(i as int),
        decreases v.len() - i,
    {
        r.push(v[i]);
        i += 1;
        assert(v@.take(i as int) =~= v@.take(i - 1).push(v@[i - 1]));
    }
    assert(v@.take(v.len() as int) =~= v@);
    r
}

/// The title of a part as it is shown.
pub fn shown_title_of(title: &str) -> (r: String)
    ensures
        r@ == shown_title(title@),
{
    let v = chars_of(title);
    let n = v.len();
    assert(v@.subrange(0, n as int) == v@);
    let brace = position_of(&v, 0, n, '{');
    let head = string_of(&v, 0, brace);
    assert(v@.take(brace as int) == v@.subrange(0, brace as int));
    let inner = chars_of(head.as_str());
    let (from, to) = trim_bounds(&inner);
    string_of(&inner, from, to)
}

fn plan_part<'a>(
    title: &str,
    lists: &Collected<'a>,
    files: &Vec<(String, OutputFile)>,
) -> (r: Result<Option<OutputPlan<'a>>, PlanError>)
    ensures
        match r {
            Ok(Some(plan)) => part_plan(title@, lists@, files@) == Ok::<_, PlanError>(
                Some(plan@),
            ),
            Ok(None) => part_plan(title@, lists@, files@) == Ok::<_, PlanError>(
                None::<OutputPlanView>,
            ),
            Err(e) => part_plan(title@, lists@, files@) == Err::<Option<OutputPlanView>, _>(e),
        },
{
    let id = name_to_id(title);
    let setting = find_entry(files, id.as_str());
    let path = match setting {
        Some(OutputFile::Enabled(false)) => {
            return Ok(None);
        },
        Some(OutputFile::Path(path)) => path.clone(),
        _ => id.clone(),
    };
    match find_part(&lists.parts, id.as_str()) {
        None => Err(PlanError::UnknownPart),
        Some(chapters) => {
            let mut groups: Vec<Vec<&'a BookItem>> = Vec::new();
            groups.push(copy_refs(&lists.head));
            groups.push(copy_refs(chapters));
            groups.push(copy_refs(&lists.tail));
            assert(group_views(groups@) =~= seq![
                referred(lists.head@),
                referred(chapters@),
                referred(lists.tail@),
            ]);
            Ok(
                Some(
                    OutputPlan {
                        output: Output::Part(id.clone()),
                        path,
                        title: shown_title_of(title),
                        id,
                        groups,
                    },
                ),
            )
        },
    }
}

fn plan_full<'a>(
    sections: &'a Vec<BookItem>,
    title: Option<&str>,
    full: &Option<OutputFile>,
) -> (r: Option<OutputPlan<'a>>)
    ensures
        match r {
            Some(plan) => full_plan(
                sections@,
                match title {
                    Some(t) => Some(t@),
                    None => None,
                },
                *full,
            ) == Some(plan@),
            None => full_plan(
                sections@,
                match title {
                    Some(t) => Some(t@),
                    None => None,
                },
                *full,
            ) is None,
        },
{
    let id = match title {
        Some(t) => name_to_id(t),
        None => String::from_str("book"),
    };
    let path = match full {
        Some(OutputFile::Enabled(false)) => {
            return None;
        },
        Some(OutputFile::Path(name)) => name.clone(),
        _ => id.clone(),
    };
    let shown = match title {
        Some(t) => String::from_str(t),
        None => String::from_str("Placeholder Title"),
    };
    let mut groups: Vec<Vec<&'a BookItem>> = Vec::new();
    let items = top_level(sections);
    groups.push(items);
    assert(group_views(groups@) =~= seq![referred(items@)]);
    Some(OutputPlan { output: Output::Full, path, title: shown, id, groups })
}

/// Plans the outputs of a book: which files are written, each with its
/// name, its title, its identifier and its items.
#[verifier::loop_isolation(false)]
pub fn plan_outputs<'a>(
    sections: &'a Vec<BookItem>,
    config: &SharedConfig,
    title: Option<&str>,
) -> (r: Result<Vec<OutputPlan<'a>>, PlanError>)
    ensures
        match r {
            Ok(plans) => outputs_of(
                config.output_types(),
                Planning {
                    sections: sections@,
                    title: match title {
                        Some(t) => Some(t@),
                        None => None,
                    },
                    always: config.always_include@,
                    files: config.output_files.individual_files@,
                    full: config.output_files.full,
                },
            ) == Ok::<_, PlanError>(plan_views(plans@)),
            Err(e) => outputs_of(
                config.output_types(),
                Planning {
                    sections: sections@,
                    title: match title {
                        Some(t) => Some(t@),
                        None => None,
                    },
                    always: config.always_include@,
                    files: config.output_files.individual_files@,
                    full: config.output_files.full,
                },
            ) == Err::<Seq<OutputPlanView>, _>(e),
        },
{
    let ghost book = Planning {
        sections: sections@,
        title: match title {
            Some(t) => Some(t@),
            None => None,
        },
        always: config.always_include@,
        files: config.output_files.individual_files@,
        full: config.output_files.full,
    };
    let types = config.outputs();
    let mut k: usize = 0;
    while k < types.len()
        invariant
            k <= types.len(),
            !asks_for_chapters(types@, k as int),
        decreases types.len() - k,
    {
        match types[k] {
            OutputType::Chapter => {
                assert(types@[k as int] is Chapter);
                assert(asks_for_chapters(types@, types.len() as int));
                return Err(PlanError::ChapterOutput);
            },
            _ => {},
        }
        k += 1;
    }
    let mut plans: Vec<OutputPlan<'a>> = Vec::new();
    assert(plan_views(plans@) =~= Seq::<OutputPlanView>::empty());
    let mut i: usize = 0;
    while i < types.len()
        invariant
            i <= types.len(),
            types@ == config.output_types(),
            !asks_for_chapters(types@, types.len() as int),
            book == (Planning {
                sections: sections@,
                title: match title {
                    Some(t) => Some(t@),
                    None => None,
                },
                always: config.always_include@,
                files: config.output_files.individual_files@,
                full: config.output_files.full,
            }),
            planned(types@, i as int, book) == Ok::<_, PlanError>((plan_views(plans@), false)),
        decreases types.len() - i,
    {
        match types[i] {
            OutputType::Chapter => {
                assert(types@[i as int] is Chapter);
                assert(asks_for_chapters(types@, types.len() as int));
                return Err(PlanError::ChapterOutput);
            },
            OutputType::Part => {
                let lists = collect_parts(sections, &config.always_include);
                let items = iter_items(sections);
                let ghost all = referred(items@);
                let ghost start = plan_views(plans@);
                let mut j: usize = 0;
                assert(plan_views(plans@) =~= start + Seq::<OutputPlanView>::empty());
                while j < items.len()
                    invariant
                        j <= items.len(),
                        all == referred(items@),
                        lists@ == collected(sections@, config.always_include@),
                        part_plans(
                            all,
                            j as int,
                            lists@,
                            config.output_files.individual_files@,
                        ) matches Ok(more) && plan_views(plans@) == start + more,
                    decreases items.len() - j,
                {
                    assert(all[j as int] == *items@[j as int]);
                    match items[j] {
                        BookItem::PartTitle(part_title) => {
                            match plan_part(
                                part_title.as_str(),
                                &lists,
                                &config.output_files.individual_files,
                            ) {
                                Err(e) => {
                                    proof {
                                        lemma_part_plans_error(
                                            all,
                                            j + 1,
                                            all.len() as int,
                                            lists@,
                                            config.output_files.individual_files@,
                                        );
                                        assert(planned(types@, i + 1, book) is Err);
                                        lemma_planned_rest(
                                            types@,
                                            i + 1,
                                            types.len() as int,
                                            book,
                                        );
                                    }
                                    return Err(e);
                                },
                                Ok(Some(plan)) => {
                                    let ghost was = plan_views(plans@);
                                    plans.push(plan);
                                    assert(plan_views(plans@) =~= was.push(plan@));
                                    assert(start + part_plans(
                                        all,
                                        j as int,
                                        lists@,
                                        config.output_files.individual_files@,
                                    )->Ok_0.push(plan@) =~= was.push(plan@));
                                },
                                Ok(None) => {},
                            }
                        },
                        _ => {},
                    }
                    j += 1;
                }
            },
            OutputType::Full => {
                match plan_full(sections, title, &config.output_files.full) {
                    None => {
                        proof {
                            lemma_planned_rest(types@, i + 1, types.len() as int, book);
                        }
                        return Ok(plans);
                    },
                    Some(plan) => {
                        let ghost was = plan_views(plans@);
                        plans.push(plan);
                        assert(plan_views(plans@) =~= was.push(plan@));
                    },
                }
            },
        }
        i += 1;
    }
    Ok(plans)
}

/// The tree that the first `n` groups make: the tree of each group, one
/// after another.
pub open spec fn groups_tree(groups: Seq<Seq<BookItem>>, n: int, options: RichTextOptions) -> Result<
    Seq<NavNodeView>,
    ParseError,
>
    decreases n,
{
    if n <= 0 {
        Ok(Seq::empty())
    } else {
        match groups_tree(groups, n - 1, options) {
            Err(e) => Err(e),
            Ok(tree) => match tree_of(groups[n - 1], options) {
                Err(e) => Err(e),
                Ok(more) => Ok(tree + more),
            },
        }
    }
}

/// An error among the first groups is the error of them all.
pub proof fn lemma_groups_error(
    groups: Seq<Seq<BookItem>>,
    first: int,
    n: int,
    options: RichTextOptions,
)
    requires
        0 < first <= n,
        groups_tree(groups, first, options) is Err,
    ensures
        groups_tree(groups, n, options) == groups_tree(groups, first, options),
    decreases n - first,
{
    if first < n {
        lemma_groups_error(groups, first, n - 1, options);
    }
}

/// The tree of an output: the trees of its groups, one after another.
pub fn build_tree(plan: &OutputPlan, opts: RichTextOptions) -> (r: Result<NavTree, ParseError>)
    ensures
        match r {
            Ok(tree) => groups_tree(plan@.groups, plan@.groups.len() as int, opts) == Ok::<
                _,
                ParseError,
            >(tree@),
            Err(e) => groups_tree(plan@.groups, plan@.groups.len() as int, opts) == Err::<
                Seq<NavNodeView>,
                _,
            >(e),
        },
{
    let ghost groups = group_views(plan.groups@);
    let mut tree = NavTree::new();
    let mut i: usize = 0;
    while i < plan.groups.len()
        invariant
            i <= plan.groups.len(),
            groups == group_views(plan.groups@),
            groups_tree(groups, i as int, opts) == Ok::<_, ParseError>(tree@),
        decreases plan.groups.len() - i,
    {
        assert(groups[i as int] == referred(plan.groups@[i as int]@));
        match NavTree::from_item_refs(&plan.groups[i], opts) {
            Err(e) => {
                proof {
                    lemma_groups_error(groups, i + 1, groups.len() as int, opts);
                }
                return Err(e);
            },
            Ok(more) => {
                tree.append_tree(more);
            },
        }
        i += 1;
    }
    Ok(tree)
}


impl PlanError {
    /// What the error says.
    pub open spec fn message(&self) -> Seq<char> {
        match self {
            PlanError::ChapterOutput => "one file for each chapter cannot be written"@,
            PlanError::UnknownPart => "a part title inside a chapter names no part of the book"@,
        }
    }

    /// What the error says.
    pub fn to_string(&self) -> (text: String)
        ensures
            text@ == self.message(),
    {
        match self {
            PlanError::ChapterOutput => String::from_str(
                "one file for each chapter cannot be written",
            ),
            PlanError::UnknownPart => String::from_str(
                "a part title inside a chapter names no part of the book",
            ),
        }
    }
}


/// The extension of a chapter's source file.
pub open spec fn md_ext() -> Seq<char> {
    seq!['m', 'd']
}

/// The extra file that a file of the sources of a book is, `None` for a
/// Markdown file: it goes where it lies under the sources, with the media
/// type that is set for that place, or else the one that its extension has
/// in the table `known`.
pub open spec fn extra_item_of(
    source: Seq<char>,
    inner: Seq<char>,
    content_types: Seq<(String, String)>,
    known: Seq<(String, String)>,
) -> Option<crate::bookir::ExtraItemView> {
    if crate::helpers::extension(source) == Some(md_ext()) {
        None
    } else {
        Some(
            crate::bookir::ExtraItemView {
                source_path: source,
                destination_path: inner,
                content_type: match lookup(content_types, inner) {
                    Some(media) => media@,
                    None => crate::helpers::media_type(inner, known),
                },
            },
        )
    }
}

/// The extra file that the file at `source`, which lies at `inner` under the
/// sources of the book, is.
pub fn extra_item(
    source: &str,
    inner: &str,
    content_types: &Vec<(String, String)>,
    known: &Vec<(String, String)>,
) -> (r: Option<ExtraItem>)
    ensures
        match r {
            Some(item) => extra_item_of(source@, inner@, content_types@, known@) == Some(item@),
            None => extra_item_of(source@, inner@, content_types@, known@) is None,
        },
{
    match crate::helpers::extension_of(source) {
        Some(ext) => {
            let v = chars_of(ext.as_str());
            if v.len() == 2 && v[0] == 'm' && v[1] == 'd' {
                assert(ext@ =~= md_ext());
                return None;
            }
            assert(ext@ != md_ext()) by {
                if ext@ == md_ext() {
                    assert(ext@.len() == 2);
                    assert(ext@[0] == 'm' && ext@[1] == 'd');
                }
            }
        },
        None => {},
    }
    let content_type = match find_entry(content_types, inner) {
        Some(media) => media.clone(),
        None => crate::helpers::media_type_from_file(inner, known),
    };
    Some(
        ExtraItem {
            src_path: String::from_str(source),
            dest_path: String::from_str(inner),
            content_type,
        },
    )
}

} // verus!
