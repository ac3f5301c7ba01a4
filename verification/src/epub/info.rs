//! The metadata of an EPUB package.

use super::config::PackageId;
use crate::text::{pair_views, text_views};
use crate::xhtml::{
    emit_end, emit_start, emit_text, one_attr, out_views, start, XmlOut, XmlOutView,
};
use vstd::prelude::*;

verus! {

/// The namespace of the container document.
pub const NS_CONTAINER_URI: &'static str = "urn:oasis:names:tc:opendocument:xmlns:container";

/// The prefix under which a package names the Dublin Core namespace.
pub const NS_DC_PREFIX: &'static str = "dc";

/// The Dublin Core namespace.
pub const NS_DC_URI: &'static str = "http://purl.org/dc/elements/1.1/";

/// The identifier of the element that names the package.
pub const EPUB_UNIQUE_IDENTIFIER_ID: &'static str = "primary-ident";

/// What a package says of its book: title, identifier, language and
/// creators.
#[derive(Clone, Debug, PartialEq, Eq)]
pub struct EpubFileInfo {
    pub title: String,
    pub ident: PackageId,
    pub lang: String,
    pub creators: Vec<String>,
}

/// What a package says of its book, as a value of the model.
pub struct EpubFileInfoView {
    pub title: Seq<char>,
    /// The identifier of the package, as a URN.
    pub ident: Seq<char>,
    pub lang: Seq<char>,
    pub creators: Seq<Seq<char>>,
}

impl View for EpubFileInfo {
    type V = EpubFileInfoView;

    open spec fn view(&self) -> EpubFileInfoView {
        EpubFileInfoView {
            title: self.title@,
            ident: self.ident.urn(),
            lang: self.lang@,
            creators: text_views(self.creators@),
        }
    }
}

/// An element without attributes that holds `text`.
pub open spec fn text_element(name: Seq<char>, text: Seq<char>) -> Seq<XmlOutView> {
    seq![start(name, Seq::empty()), XmlOutView::Characters(text), XmlOutView::EndElement]
}

/// One `dc:creator` for each of the first `n` of `creators`.
pub open spec fn creator_elements(creators: Seq<Seq<char>>, n: int) -> Seq<XmlOutView>
    decreases n,
{
    if n <= 0 {
        Seq::empty()
    } else {
        creator_elements(creators, n - 1) + text_element("dc:creator"@, creators[n - 1])
    }
}

/// What stands before the creators: identifier, title and language.
pub open spec fn metadata_head(info: EpubFileInfoView) -> Seq<XmlOutView> {
    seq![
        start("dc:identifier"@, seq![("id"@, "primary-ident"@)]),
        XmlOutView::Characters(info.ident),
        XmlOutView::EndElement,
    ] + text_element("dc:title"@, info.title) + text_element("dc:language"@, info.lang)
}

/// The metadata of a package: identifier, title, language, one element for
/// each creator, and the time of the last change.
pub open spec fn metadata(info: EpubFileInfoView, modified: Seq<char>) -> Seq<XmlOutView> {
    metadata_head(info) + creator_elements(info.creators, info.creators.len() as int) + seq![
        start("meta"@, seq![("property"@, "dcterms:modified"@)]),
        XmlOutView::Characters(modified),
        XmlOutView::EndElement,
    ]
}

impl EpubFileInfo {
    /// Adds the metadata of the package to `out`. `modified` is the time of
    /// the last change, as it is to be written.
    pub fn write_metadata(&self, modified: &str, out: &mut Vec<XmlOut>)
        ensures
            out_views(final(out)@) == out_views(old(out)@) + metadata(self@, modified@),
    {
        let ghost before = out_views(out@);
        let ghost creators = text_views(self.creators@);
        assert(pair_views(Seq::<(String, String)>::empty()) =~= Seq::<
            (Seq<char>, Seq<char>),
        >::empty());
        emit_start(out, "dc:identifier", one_attr("id", EPUB_UNIQUE_IDENTIFIER_ID));
        let ident = self.ident.to_string();
        emit_text(out, ident.as_str());
        emit_end(out);
        emit_start(out, "dc:title", Vec::new());
        emit_text(out, self.title.as_str());
        emit_end(out);
        emit_start(out, "dc:language", Vec::new());
        emit_text(out, self.lang.as_str());
        emit_end(out);
        let ghost head = metadata_head(self@);
        assert(out_views(out@) =~= before + head);
        let mut i: usize = 0;
        while i < self.creators.len()
            invariant
                i <= self.creators.len(),
                creators == text_views(self.creators@),
                out_views(out@) == before + head + creator_elements(creators, i as int),
            decreases self.creators.len() - i,
        {
            let ghost was = out_views(out@);
            assert(pair_views(Seq::<(String, String)>::empty()) =~= Seq::<
                (Seq<char>, Seq<char>),
            >::empty());
            emit_start(out, "dc:creator", Vec::new());
            emit_text(out, self.creators[i].as_str());
            emit_end(out);
            assert(out_views(out@) =~= was + text_element("dc:creator"@, creators[i as int]));
            i += 1;
        }
        emit_start(out, "meta", one_attr("property", "dcterms:modified"));
        emit_text(out, modified);
        emit_end(out);
        assert(out_views(out@) =~= before + metadata(self@, modified@));
    }
}

} // verus!
