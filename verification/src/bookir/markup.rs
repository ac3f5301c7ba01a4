//! Elements of embedded markup.
//!
//! An element keeps its attributes in an `indexmap::IndexMap`, in the order
//! in which they were written. The reader of markup fragments is `xml-rs`.

use crate::text::{pair_views, Pairs};
use indexmap::IndexMap;
use vstd::prelude::*;
use xml::reader::{Error, EventReader, XmlEvent};

verus! {

/// `indexmap::IndexMap`: what a map of attributes holds is named by
/// [`map_entries`].
#[verifier::external_type_specification]
#[verifier::external_body]
#[verifier::reject_recursive_types(K)]
#[verifier::reject_recursive_types(V)]
#[verifier::reject_recursive_types(S)]
pub struct ExIndexMap<K, V, S>(IndexMap<K, V, S>);

/// `xml::reader::XmlEvent`, of which nothing is known here.
#[verifier::external_type_specification]
#[verifier::external_body]
pub struct ExXmlEvent(XmlEvent);

/// `xml::reader::Error`, of which nothing is known here.
#[verifier::external_type_specification]
#[verifier::external_body]
pub struct ExError(Error);

/// The pairs that a map of attributes holds, in its order.
pub uninterp spec fn map_entries(m: IndexMap<String, String>) -> Pairs;

/// The index of the first pair named `key` in `s`, or `s.len()`.
pub open spec fn key_position(s: Pairs, key: Seq<char>) -> int
    decreases s.len(),
{
    if s.len() == 0 {
        0
    } else if s[0].0 == key {
        0
    } else {
        1 + key_position(s.drop_first(), key)
    }
}

/// `s` after `key` has been given `value`: a key that `s` holds keeps its
/// place, a new key goes to the end.
pub open spec fn with_entry(s: Pairs, key: Seq<char>, value: Seq<char>) -> Pairs {
    let i = key_position(s, key);
    if i < s.len() {
        s.update(i, (key, value))
    } else {
        s.push((key, value))
    }
}

/// The first `n` of `pairs`, entered one after another.
pub open spec fn entered(pairs: Seq<(String, String)>, n: int) -> Pairs
    decreases n,
{
    if n <= 0 {
        Seq::empty()
    } else {
        with_entry(entered(pairs, n - 1), pairs[n - 1].0@, pairs[n - 1].1@)
    }
}

/// `IndexMap::new` makes a map that holds nothing.
#[verifier::external_body]
fn attrs_new() -> (m: IndexMap<String, String>)
    ensures
        map_entries(m) == Seq::<(Seq<char>, Seq<char>)>::empty(),
{
    IndexMap::new()
}

/// `IndexMap::insert`: where the map holds an equal key, that key keeps its
/// place and gets the new value; otherwise the pair is added last in order.
#[verifier::external_body]
fn attrs_insert(m: &mut IndexMap<String, String>, key: String, value: String)
    ensures
        map_entries(*final(m)) == with_entry(map_entries(*old(m)), key@, value@),
{
    m.insert(key, value);
}

/// `IndexMap::iter` walks the pairs in the map's order; each is cloned.
#[verifier::external_body]
fn attrs_pairs(m: &IndexMap<String, String>) -> (pairs: Vec<(String, String)>)
    ensures
        pair_views(pairs@) == map_entries(*m),
{
    m.iter().map(|(k, v)| (k.clone(), v.clone())).collect()
}

/// `IndexMap::clone` copies the pairs in their order.
#[verifier::external_body]
fn attrs_clone(m: &IndexMap<String, String>) -> (copy: IndexMap<String, String>)
    ensures
        map_entries(copy) == map_entries(*m),
{
    m.clone()
}

/// One element of embedded markup: its qualified name and its attributes.
#[derive(Debug, PartialEq, Eq)]
pub struct XmlElem {
    pub name: String,
    pub attrs: IndexMap<String, String>,
}

/// An element, as a value of the model: its name and its attributes in
/// their order.
pub struct XmlElemView {
    pub name: Seq<char>,
    pub attrs: Pairs,
}

impl View for XmlElem {
    type V = XmlElemView;

    open spec fn view(&self) -> XmlElemView {
        XmlElemView { name: self.name@, attrs: map_entries(self.attrs) }
    }
}

impl Clone for XmlElem {
    fn clone(&self) -> (copy: XmlElem)
        ensures
            copy@ == self@,
    {
        XmlElem { name: self.name.clone(), attrs: attrs_clone(&self.attrs) }
    }
}

impl XmlElem {
    /// An element named `name` that holds `pairs`, entered in their order.
    pub fn new(name: String, pairs: &Vec<(String, String)>) -> (elem: XmlElem)
        ensures
            elem@ == (XmlElemView { name: name@, attrs: entered(pairs@, pairs.len() as int) }),
    {
        let mut attrs = attrs_new();
        let mut i: usize = 0;
        while i < pairs.len()
            invariant
                i <= pairs.len(),
                map_entries(attrs) == entered(pairs@, i as int),
            decreases pairs.len() - i,
        {
            attrs_insert(&mut attrs, pairs[i].0.clone(), pairs[i].1.clone());
            i += 1;
        }
        XmlElem { name, attrs }
    }

    /// The attributes, in their order.
    pub fn attributes(&self) -> (pairs: Vec<(String, String)>)
        ensures
            pair_views(pairs@) == self@.attrs,
    {
        attrs_pairs(&self.attrs)
    }
}

/// What the reader of markup reports, as far as the parser of rich text
/// reads it.
#[derive(Clone, Debug, PartialEq, Eq)]
pub enum XmlToken {
    StartDocument,
    /// An opening tag with its qualified name and its attributes.
    StartElement { name: String, attrs: Vec<(String, String)> },
    /// A closing tag, or the end of a tag that closes itself.
    EndElement { name: String },
    CData(String),
    Comment(String),
    /// Any other event.
    Other,
    /// The reader reported an error.
    Invalid,
}

/// The events that `xml-rs` reads from `blob` up to the end of the document
/// or the first error, each copied into an [`XmlToken`].
pub uninterp spec fn xml_tokens(blob: Seq<char>) -> Seq<XmlToken>;

/// Copies what `xml::reader::EventReader::next` returned. Names are written
/// as `OwnedName` prints them.
#[verifier::external_body]
fn xml_token_from(event: Result<XmlEvent, Error>) -> XmlToken {
    match event {
        Ok(XmlEvent::StartDocument { .. }) => XmlToken::StartDocument,
        Ok(XmlEvent::StartElement { name, attributes, .. }) => XmlToken::StartElement {
            name: name.to_string(),
            attrs: attributes.into_iter().map(|a| (a.name.to_string(), a.value)).collect(),
        },
        Ok(XmlEvent::EndElement { name }) => XmlToken::EndElement { name: name.to_string() },
        Ok(XmlEvent::CData(text)) => XmlToken::CData(text),
        Ok(XmlEvent::Comment(text)) => XmlToken::Comment(text),
        Ok(_) => XmlToken::Other,
        Err(_) => XmlToken::Invalid,
    }
}

/// Reads `blob` with `xml::reader::EventReader::from_str` and collects what
/// its iterator yields, which ends with the end of the document or with the
/// first error. The reader looks at nothing but `blob`, so the result is
/// what [`xml_tokens`] names.
#[verifier::external_body]
pub(crate) fn read_xml_tokens(blob: &str) -> (tokens: Vec<XmlToken>)
    ensures
        tokens@ == xml_tokens(blob@),
{
    EventReader::from_str(blob).into_iter().map(xml_token_from).collect()
}

} // verus!
