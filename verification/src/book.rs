//! The authoring tool's document: chapters, part titles and separators.

use vstd::prelude::*;

verus! {

/// One chapter of the book, with the chapters nested under it.
#[derive(Debug, PartialEq, Eq)]
pub struct Chapter {
    /// The chapter's title.
    pub name: String,
    /// The chapter's Markdown source.
    pub content: String,
    /// The items nested under the chapter.
    pub sub_items: Vec<BookItem>,
    /// Where the chapter is rendered to, relative to the book's root; `None`
    /// for a draft.
    pub path: Option<String>,
    /// Where the chapter's source lies, relative to the book's root.
    pub source_path: Option<String>,
}

/// One item of the book's structure.
#[derive(Debug, PartialEq, Eq)]
pub enum BookItem {
    Chapter(Chapter),
    Separator,
    /// The title of a part, which may end in a `{#id}` directive.
    PartTitle(String),
}


/// Whether two texts that may be missing are the same.
pub open spec fn same_text(a: Option<String>, b: Option<String>) -> bool {
    match (a, b) {
        (Some(x), Some(y)) => x@ == y@,
        (None, None) => true,
        _ => false,
    }
}

/// Whether two items are the same: of the same kind, with the same texts
/// and the same items nested under them.
pub open spec fn same_item(a: BookItem, b: BookItem) -> bool
    decreases a, 0int,
{
    match (a, b) {
        (BookItem::Chapter(x), BookItem::Chapter(y)) => same_chapter(x, y),
        (BookItem::Separator, BookItem::Separator) => true,
        (BookItem::PartTitle(s), BookItem::PartTitle(t)) => s@ == t@,
        _ => false,
    }
}

/// Whether two chapters are the same.
pub open spec fn same_chapter(x: Chapter, y: Chapter) -> bool
    decreases x, 2int,
{
    x.name@ == y.name@ && x.content@ == y.content@ && same_text(x.path, y.path) && same_text(
        x.source_path,
        y.source_path,
    ) && same_items(x.sub_items@, y.sub_items@)
}

/// Whether two sequences of items are the same, item by item.
pub open spec fn same_items(a: Seq<BookItem>, b: Seq<BookItem>) -> bool
    decreases a, 1int,
{
    a.len() == b.len() && forall|i: int| 0 <= i < a.len() ==> same_item(#[trigger] a[i], b[i])
}

fn clone_text(text: &Option<String>) -> (copy: Option<String>)
    ensures
        same_text(copy, *text),
{
    match text {
        Some(text) => Some(text.clone()),
        None => None,
    }
}

fn clone_items(items: &Vec<BookItem>) -> (copy: Vec<BookItem>)
    ensures
        same_items(copy@, items@),
    decreases items, 1int,
{
    let mut copy: Vec<BookItem> = Vec::new();
    let mut i: usize = 0;
    while i < items.len()
        invariant
            i <= items.len(),
            copy@.len() == i,
            forall|j: int| 0 <= j < i ==> same_item(#[trigger] copy@[j], items@[j]),
        decreases items.len() - i,
    {
        copy.push(items[i].clone());
        i += 1;
    }
    copy
}

impl Clone for BookItem {
    fn clone(&self) -> (copy: BookItem)
        ensures
            same_item(copy, *self),
        decreases self, 0int,
    {
        match self {
            BookItem::Chapter(ch) => BookItem::Chapter(
                Chapter {
                    name: ch.name.clone(),
                    content: ch.content.clone(),
                    sub_items: clone_items(&ch.sub_items),
                    path: clone_text(&ch.path),
                    source_path: clone_text(&ch.source_path),
                },
            ),
            BookItem::Separator => BookItem::Separator,
            BookItem::PartTitle(title) => BookItem::PartTitle(title.clone()),
        }
    }
}

impl Clone for Chapter {
    fn clone(&self) -> (copy: Chapter)
        ensures
            same_chapter(copy, *self),
    {
        Chapter {
            name: self.name.clone(),
            content: self.content.clone(),
            sub_items: clone_items(&self.sub_items),
            path: clone_text(&self.path),
            source_path: clone_text(&self.source_path),
        }
    }
}

} // verus!
