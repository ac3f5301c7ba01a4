//! The package document of an EPUB: metadata, manifest and spine.

use super::info::{metadata, EpubFileInfo, EpubFileInfoView};
use crate::text::{pair_views, Pairs};
use crate::xhtml::{
    add_attr, emit, emit_end, emit_start, one_attr, out_views, start, XmlOut, XmlOutView,
};
use vstd::prelude::*;
use vstd::string::*;

verus! {

/// The namespace of the package document.
pub const NS_OPF_URI: &'static str = "http://www.idpf.org/2007/opf";

/// The media type of the package document.
pub const EPUB_PACKAGE_MEDIA_TYPE: &'static str = "application/oebps-package+xml";

/// The version of EPUB that packages are written for.
pub const EPUB_VERSION: &'static str = "3.0";

/// The version of the container format.
pub const OCF_CONTAINER_VERSION: &'static str = "1.0";

/// What a reading system is told of an item of the manifest.
#[derive(Copy, Clone, Debug, Hash, PartialEq, Eq)]
pub enum ItemProperty {
    CoverImage,
    MathML,
    Nav,
    RemoteResources,
    Scripted,
    Svg,
}

impl ItemProperty {
    /// The property as the package document writes it.
    pub open spec fn name(&self) -> Seq<char> {
        match self {
            ItemProperty::CoverImage => "cover-image"@,
            ItemProperty::MathML => "mathml"@,
            ItemProperty::Nav => "nav"@,
            ItemProperty::RemoteResources => "remote-resources"@,
            ItemProperty::Scripted => "scripted"@,
            ItemProperty::Svg => "svg"@,
        }
    }

    /// The property as the package document writes it.
    pub fn as_str(&self) -> (text: &'static str)
        ensures
            text@ == self.name(),
    {
        match self {
            ItemProperty::CoverImage => "cover-image",
            ItemProperty::MathML => "mathml",
            ItemProperty::Nav => "nav",
            ItemProperty::RemoteResources => "remote-resources",
            ItemProperty::Scripted => "scripted",
            ItemProperty::Svg => "svg",
        }
    }

    /// The property as the package document writes it.
    pub fn to_string(&self) -> (text: String)
        ensures
            text@ == self.name(),
    {
        String::from_str(self.as_str())
    }
}

/// The names of the first `n` of `properties`, with one space between each
/// two.
pub open spec fn property_list(properties: Seq<ItemProperty>, n: int) -> Seq<char>
    decreases n,
{
    if n <= 0 {
        Seq::empty()
    } else if n == 1 {
        properties[0].name()
    } else {
        property_list(properties, n - 1) + " "@ + properties[n - 1].name()
    }
}

/// One file of the package.
#[derive(Clone, Debug, Hash, PartialEq, Eq)]
pub struct ManifestItem {
    pub id: String,
    pub path: String,
    pub media_type: String,
    pub properties: Vec<ItemProperty>,
    pub fallback: Option<String>,
    /// Whether the file is part of the reading order.
    pub spine: bool,
}

/// An item of the manifest, as a value of the model.
pub struct ManifestItemView {
    pub id: Seq<char>,
    pub path: Seq<char>,
    pub media_type: Seq<char>,
    pub properties: Seq<ItemProperty>,
    pub fallback: Option<Seq<char>>,
    pub spine: bool,
}

impl View for ManifestItem {
    type V = ManifestItemView;

    open spec fn view(&self) -> ManifestItemView {
        ManifestItemView {
            id: self.id@,
            path: self.path@,
            media_type: self.media_type@,
            properties: self.properties@,
            fallback: match self.fallback {
                Some(fallback) => Some(fallback@),
                None => None,
            },
            spine: self.spine,
        }
    }
}

/// The model of each item of `s`, in order.
pub open spec fn item_views(s: Seq<ManifestItem>) -> Seq<ManifestItemView> {
    Seq::new(s.len(), |i: int| s[i]@)
}

/// The attributes of an item's entry in the manifest: where it lies, its
/// identifier and its media type; its properties where it has any; its
/// fallback where it has one.
pub open spec fn item_attrs(item: ManifestItemView) -> Pairs {
    let base = seq![("href"@, item.path), ("id"@, item.id), ("media-type"@, item.media_type)];
    let with_properties = if item.properties.len() > 0 {
        base.push(("properties"@, property_list(item.properties, item.properties.len() as int)))
    } else {
        base
    };
    match item.fallback {
        Some(fallback) => with_properties.push(("fallback"@, fallback)),
        None => with_properties,
    }
}

/// An item's entry in the manifest.
pub open spec fn item_events(item: ManifestItemView) -> Seq<XmlOutView> {
    seq![start("item"@, item_attrs(item)), XmlOutView::EndElement]
}

/// An item's entry in the spine: a reference to it where it is part of the
/// reading order, nothing otherwise.
pub open spec fn spine_entry(item: ManifestItemView) -> Seq<XmlOutView> {
    if item.spine {
        seq![start("itemref"@, seq![("idref"@, item.id)]), XmlOutView::EndElement]
    } else {
        Seq::empty()
    }
}

impl ManifestItem {
    /// Adds the item's entry in the manifest to `out`.
    pub fn serialize_item(&self, out: &mut Vec<XmlOut>)
        ensures
            out_views(final(out)@) == out_views(old(out)@) + item_events(self@),
    {
        let ghost before = out_views(out@);
        let mut attrs = one_attr("href", self.path.as_str());
        add_attr(&mut attrs, "id", self.id.as_str());
        add_attr(&mut attrs, "media-type", self.media_type.as_str());
        assert(pair_views(attrs@) =~= seq![
            ("href"@, self.path@),
            ("id"@, self.id@),
            ("media-type"@, self.media_type@),
        ]);
        if self.properties.len() > 0 {
            let mut value = String::new();
            let mut i: usize = 0;
            while i < self.properties.len()
                invariant
                    i <= self.properties.len(),
                    value@ == property_list(self.properties@, i as int),
                decreases self.properties.len() - i,
            {
                if i > 0 {
                    value.append(" ");
                }
                value.append(self.properties[i].as_str());
                proof {
                    if i == 0 {
                        assert(Seq::<char>::empty() + self.properties@[0].name()
                            =~= self.properties@[0].name());
                    }
                }
                i += 1;
            }
            add_attr(&mut attrs, "properties", value.as_str());
        }
        match &self.fallback {
            Some(fallback) => {
                add_attr(&mut attrs, "fallback", fallback.as_str());
            },
            None => {},
        }
        assert(pair_views(attrs@) =~= item_attrs(self@));
        emit_start(out, "item", attrs);
        emit_end(out);
        assert(out_views(out@) =~= before + item_events(self@));
    }

    /// Adds the item's entry in the spine to `out`.
    pub fn serialize_spine(&self, out: &mut Vec<XmlOut>)
        ensures
            out_views(final(out)@) == out_views(old(out)@) + spine_entry(self@),
    {
        let ghost before = out_views(out@);
        if self.spine {
            emit_start(out, "itemref", one_attr("idref", self.id.as_str()));
            emit_end(out);
        }
        assert(out_views(out@) =~= before + spine_entry(self@));
    }
}

/// The manifest entries of the first `n` of `items`.
pub open spec fn manifest_events(items: Seq<ManifestItemView>, n: int) -> Seq<XmlOutView>
    decreases n,
{
    if n <= 0 {
        Seq::empty()
    } else {
        manifest_events(items, n - 1) + item_events(items[n - 1])
    }
}

/// The spine entries of the first `n` of `items`.
pub open spec fn spine_events(items: Seq<ManifestItemView>, n: int) -> Seq<XmlOutView>
    decreases n,
{
    if n <= 0 {
        Seq::empty()
    } else {
        spine_events(items, n - 1) + spine_entry(items[n - 1])
    }
}

/// A package: what it says of its book, and its manifest.
#[derive(Clone, Debug, PartialEq, Eq)]
pub struct EpubPackage {
    pub info: EpubFileInfo,
    pub manifest: Vec<ManifestItem>,
}

/// The opening of the package element: the OPF namespace as the default one
/// and the Dublin Core namespace under `dc`, the identifier that names the
/// package, and the version of EPUB.
pub open spec fn package_start() -> XmlOutView {
    XmlOutView::StartElement {
        name: "package"@,
        attrs: seq![("unique-identifier"@, "primary-ident"@), ("version"@, "3.0"@)],
        namespaces: seq![
            (""@, "http://www.idpf.org/2007/opf"@),
            ("dc"@, "http://purl.org/dc/elements/1.1/"@),
        ],
    }
}

/// The package document: the metadata, the manifest with every item, and the
/// spine with the items of the reading order.
pub open spec fn package_document(
    info: EpubFileInfoView,
    manifest: Seq<ManifestItemView>,
    modified: Seq<char>,
) -> Seq<XmlOutView> {
    seq![package_start(), start("metadata"@, Seq::empty())] + metadata(info, modified) + seq![
        XmlOutView::EndElement,
        start("manifest"@, Seq::empty()),
    ] + manifest_events(manifest, manifest.len() as int) + seq![
        XmlOutView::EndElement,
        start("spine"@, Seq::empty()),
    ] + spine_events(manifest, manifest.len() as int) + seq![
        XmlOutView::EndElement,
        XmlOutView::EndElement,
    ]
}

impl EpubPackage {
    /// Adds the package document to `out`. `modified` is the time of the
    /// last change, as it is to be written.
    pub fn serialize(&self, modified: &str, out: &mut Vec<XmlOut>)
        ensures
            out_views(final(out)@) == out_views(old(out)@) + package_document(
                self.info@,
                item_views(self.manifest@),
                modified@,
            ),
    {
        let ghost before = out_views(out@);
        let ghost items = item_views(self.manifest@);
        let mut attrs = one_attr("unique-identifier", super::info::EPUB_UNIQUE_IDENTIFIER_ID);
        add_attr(&mut attrs, "version", EPUB_VERSION);
        let mut namespaces = one_attr("", NS_OPF_URI);
        add_attr(&mut namespaces, super::info::NS_DC_PREFIX, super::info::NS_DC_URI);
        assert(pair_views(attrs@) =~= seq![
            ("unique-identifier"@, "primary-ident"@),
            ("version"@, "3.0"@),
        ]);
        assert(pair_views(namespaces@) =~= seq![
            (""@, "http://www.idpf.org/2007/opf"@),
            ("dc"@, "http://purl.org/dc/elements/1.1/"@),
        ]);
        assert(pair_views(Seq::<(String, String)>::empty()) =~= Seq::<
            (Seq<char>, Seq<char>),
        >::empty());
        emit(out, XmlOut::StartElement { name: String::from_str("package"), attrs, namespaces });
        emit_start(out, "metadata", Vec::new());
        assert(out_views(out@) =~= before + seq![
            package_start(),
            start("metadata"@, Seq::empty()),
        ]);
        self.info.write_metadata(modified, out);
        emit_end(out);
        emit_start(out, "manifest", Vec::new());
        let ghost head = seq![package_start(), start("metadata"@, Seq::empty())] + metadata(
            self.info@,
            modified@,
        ) + seq![XmlOutView::EndElement, start("manifest"@, Seq::empty())];
        assert(out_views(out@) =~= before + head);
        let mut i: usize = 0;
        while i < self.manifest.len()
            invariant
                i <= self.manifest.len(),
                items == item_views(self.manifest@),
                out_views(out@) == before + head + manifest_events(items, i as int),
            decreases self.manifest.len() - i,
        {
            self.manifest[i].serialize_item(out);
            assert(out_views(out@) =~= before + head + manifest_events(items, i as int + 1));
            i += 1;
        }
        emit_end(out);
        emit_start(out, "spine", Vec::new());
        let ghost middle = head + manifest_events(items, items.len() as int) + seq![
            XmlOutView::EndElement,
            start("spine"@, Seq::empty()),
        ];
        assert(out_views(out@) =~= before + middle);
        let mut i: usize = 0;
        while i < self.manifest.len()
            invariant
                i <= self.manifest.len(),
                items == item_views(self.manifest@),
                out_views(out@) == before + middle + spine_events(items, i as int),
            decreases self.manifest.len() - i,
        {
            self.manifest[i].serialize_spine(out);
            assert(out_views(out@) =~= before + middle + spine_events(items, i as int + 1));
            i += 1;
        }
        emit_end(out);
        emit_end(out);
        assert(out_views(out@) =~= before + package_document(self.info@, items, modified@));
    }
}

} // verus!
