//! Photo extraction from decoded feed items.
//!
//! A feed item is wildly inconsistent about where it keeps its image data, so
//! extraction is an ordered override pipeline: general-purpose fields are
//! read first and the dialect-specific, standardized signals are applied
//! last, each later step overwriting what an earlier one left behind.

use vstd::prelude::*;
use vstd::string::StringExecFns;
use crate::strutil::{contains_substr, spec_contains, spec_starts_with, starts_with, str_eq};

verus! {

/// The mathematical value of a [`NewsPhoto`].
pub ghost struct PhotoModel {
    pub image_url: Seq<char>,
    pub story_url: Seq<char>,
    pub description: Option<Seq<char>>,
    pub credit: Option<Seq<char>>,
}

impl PhotoModel {
    /// The record every extraction starts from: everything empty.
    pub open spec fn empty() -> PhotoModel {
        PhotoModel {
            image_url: Seq::empty(),
            story_url: Seq::empty(),
            description: None,
            credit: None,
        }
    }

    /// A photo is worth keeping only when it has both an image and a story.
    pub open spec fn is_valid(self) -> bool {
        self.image_url.len() > 0 && self.story_url.len() > 0
    }

    /// What a presentation layer shows beside the photo.
    pub open spec fn spec_link_text(self) -> Seq<char> {
        match (self.description, self.credit) {
            (None, None) => self.story_url,
            (None, Some(c)) => c,
            (Some(d), None) => d,
            (Some(d), Some(c)) => d + " ("@ + c + ")"@,
        }
    }
}

/// One extracted photograph: the image, the story it belongs to, and an
/// optional description and credit line.
pub struct NewsPhoto {
    pub image_url: String,
    pub story_url: String,
    pub description: Option<String>,
    pub credit: Option<String>,
}

impl View for NewsPhoto {
    type V = PhotoModel;

    open spec fn view(&self) -> PhotoModel {
        PhotoModel {
            image_url: self.image_url@,
            story_url: self.story_url@,
            description: match self.description {
                Some(d) => Some(d@),
                None => None,
            },
            credit: match self.credit {
                Some(c) => Some(c@),
                None => None,
            },
        }
    }
}

impl DeepView for NewsPhoto {
    type V = PhotoModel;

    open spec fn deep_view(&self) -> PhotoModel {
        self@
    }
}

impl Clone for NewsPhoto {
    fn clone(&self) -> (r: Self)
        ensures
            r@ == self@,
    {
        NewsPhoto {
            image_url: self.image_url.clone(),
            story_url: self.story_url.clone(),
            description: match &self.description {
                Some(d) => Some(d.clone()),
                None => None,
            },
            credit: match &self.credit {
                Some(c) => Some(c.clone()),
                None => None,
            },
        }
    }
}

impl NewsPhoto {
    /// An empty record, to be filled in by the extraction pipeline.
    pub fn new() -> (r: Self)
        ensures
            r@ == PhotoModel::empty(),
    {
        let r = NewsPhoto {
            image_url: String::new(),
            story_url: String::new(),
            description: None,
            credit: None,
        };
        r
    }

    /// Both URLs are present: the record may be stored and served.
    pub fn valid(&self) -> (r: bool)
        ensures
            r == self@.is_valid(),
    {
        !self.image_url.as_str().is_empty() && !self.story_url.as_str().is_empty()
    }

    /// The text a caller links with: the description and credit when both
    /// exist, either alone otherwise, and the story URL as a last resort.
    pub fn link_text(&self) -> (r: String)
        ensures
            r@ == self@.spec_link_text(),
    {
        match (&self.description, &self.credit) {
            (None, None) => self.story_url.clone(),
            (None, Some(c)) => c.clone(),
            (Some(d), None) => d.clone(),
            (Some(d), Some(c)) => {
                let mut s = d.clone();
                s.append(" (");
                s.append(c.as_str());
                s.append(")");
                s
            },
        }
    }
}

/// URLs with one of these fragments are never photographs: movie enclosures
/// and a known tracking pixel.
pub open spec fn spec_ignore(url: Seq<char>) -> bool {
    spec_contains(url, ".mp4"@) || spec_contains(url, ".mov"@) || spec_contains(
        url,
        "npr-rss-pixel.png"@,
    )
}

/// The denylist test applied to every image URL candidate.
pub fn ignore(url: &String) -> (r: bool)
    ensures
        r == spec_ignore(url@),
{
    contains_substr(url.as_str(), ".mp4") || contains_substr(url.as_str(), ".mov")
        || contains_substr(url.as_str(), "npr-rss-pixel.png")
}

/// The mathematical value of an [`ImgTag`].
pub ghost struct TagModel {
    pub src: Option<Seq<char>>,
    pub alt: Option<Seq<char>>,
}

/// One `img` element found in an HTML fragment: its `src` and `alt`
/// attributes, either of which may be absent.
pub struct ImgTag {
    pub src: Option<String>,
    pub alt: Option<String>,
}

impl DeepView for ImgTag {
    type V = TagModel;

    open spec fn deep_view(&self) -> TagModel {
        TagModel {
            src: match self.src {
                Some(s) => Some(s@),
                None => None,
            },
            alt: match self.alt {
                Some(a) => Some(a@),
                None => None,
            },
        }
    }
}

/// The list of `img` tags an HTML fragment scan finds in a text, in document
/// order, or `None` when the scan cannot run. The scan is a fixed function
/// of the text alone.
pub uninterp spec fn img_scan(text: Seq<char>) -> Option<Seq<TagModel>>;

/// Relies on scraper's `Html::parse_fragment` and `Selector::parse` with the
/// selector `img`: the elements found, with their `src` and `alt`
/// attributes, depend on the fragment text alone; `None` reports a selector
/// that did not parse.
#[verifier::external_body]
fn scan_img_tags(text: &str) -> (r: Option<Vec<ImgTag>>)
    ensures
        r is Some <==> img_scan(text@) is Some,
        r matches Some(tags) ==> img_scan(text@) == Some(tags.deep_view()),
{
    let selector = match scraper::Selector::parse("img") {
        Ok(s) => s,
        Err(_) => return None,
    };
    let fragment = scraper::Html::parse_fragment(text);
    let mut out = Vec::new();
    for elem in fragment.select(&selector) {
        out.push(ImgTag {
            src: elem.value().attr("src").map(|s| s.to_string()),
            alt: elem.value().attr("alt").map(|s| s.to_string()),
        });
    }
    Some(out)
}

/// The mathematical value of an [`Enclosure`].
pub ghost struct EnclosureModel {
    pub mime_type: Seq<char>,
    pub url: Seq<char>,
}

/// A feed item's enclosure: a linked media object with its MIME type.
pub struct Enclosure {
    pub mime_type: String,
    pub url: String,
}

impl DeepView for Enclosure {
    type V = EnclosureModel;

    open spec fn deep_view(&self) -> EnclosureModel {
        EnclosureModel { mime_type: self.mime_type@, url: self.url@ }
    }
}

/// The mathematical value of an [`ExtensionElement`].
pub ghost struct ExtElemModel {
    pub name: Seq<char>,
    pub attrs: Seq<(Seq<char>, Seq<char>)>,
    pub value: Option<Seq<char>>,
}

/// One extension element: its qualified name, its attributes in document
/// order, and its optional text value.
pub struct ExtensionElement {
    pub name: String,
    pub attrs: Vec<(String, String)>,
    pub value: Option<String>,
}

impl DeepView for ExtensionElement {
    type V = ExtElemModel;

    open spec fn deep_view(&self) -> ExtElemModel {
        ExtElemModel {
            name: self.name@,
            attrs: self.attrs.deep_view(),
            value: match self.value {
                Some(v) => Some(v@),
                None => None,
            },
        }
    }
}

/// The mathematical value of an [`ExtensionList`].
pub ghost struct ExtListModel {
    pub element: Seq<char>,
    pub elements: Seq<ExtElemModel>,
}

/// All extension elements sharing one element name within a namespace.
pub struct ExtensionList {
    pub element: String,
    pub elements: Vec<ExtensionElement>,
}

impl DeepView for ExtensionList {
    type V = ExtListModel;

    open spec fn deep_view(&self) -> ExtListModel {
        ExtListModel { element: self.element@, elements: self.elements.deep_view() }
    }
}

/// The mathematical value of an [`ExtensionNamespace`].
pub ghost struct NamespaceModel {
    pub namespace: Seq<char>,
    pub lists: Seq<ExtListModel>,
}

/// One namespace of a feed item's extension map: the element lists keyed by
/// element name.
pub struct ExtensionNamespace {
    pub namespace: String,
    pub lists: Vec<ExtensionList>,
}

impl DeepView for ExtensionNamespace {
    type V = NamespaceModel;

    open spec fn deep_view(&self) -> NamespaceModel {
        NamespaceModel { namespace: self.namespace@, lists: self.lists.deep_view() }
    }
}

/// The mathematical value of a [`FeedItem`].
pub ghost struct ItemModel {
    pub link: Option<Seq<char>>,
    pub title: Option<Seq<char>>,
    pub content: Option<Seq<char>>,
    pub description: Option<Seq<char>>,
    pub enclosure: Option<EnclosureModel>,
    pub source_title: Option<Seq<char>>,
    pub dublin_core_creators: Option<Seq<Seq<char>>>,
    pub extensions: Seq<NamespaceModel>,
}

/// One decoded feed item: the fixed capability set the extractor reads.
/// Decoding a syndication document into values of this type is a
/// collaborator's concern; the extractor never sees raw feed bytes.
pub struct FeedItem {
    pub link: Option<String>,
    pub title: Option<String>,
    pub content: Option<String>,
    pub description: Option<String>,
    pub enclosure: Option<Enclosure>,
    pub source_title: Option<String>,
    pub dublin_core_creators: Option<Vec<String>>,
    pub extensions: Vec<ExtensionNamespace>,
}

impl DeepView for FeedItem {
    type V = ItemModel;

    open spec fn deep_view(&self) -> ItemModel {
        ItemModel {
            link: match self.link {
                Some(l) => Some(l@),
                None => None,
            },
            title: match self.title {
                Some(t) => Some(t@),
                None => None,
            },
            content: match self.content {
                Some(c) => Some(c@),
                None => None,
            },
            description: match self.description {
                Some(d) => Some(d@),
                None => None,
            },
            enclosure: match self.enclosure {
                Some(ref e) => Some(e.deep_view()),
                None => None,
            },
            source_title: match self.source_title {
                Some(s) => Some(s@),
                None => None,
            },
            dublin_core_creators: match self.dublin_core_creators {
                Some(ref cs) => Some(cs.deep_view()),
                None => None,
            },
            extensions: self.extensions.deep_view(),
        }
    }
}

// ---------------------------------------------------------------------------
// The override pipeline, as a mathematical function of the item.
//
// Later steps overwrite earlier ones: general-purpose fields are applied
// first and the dialect-specific signals last, so a feed that follows the
// full Media RSS convention is trusted over its own looser HTML.
// ---------------------------------------------------------------------------

/// One `img` tag: a non-ignored `src` overwrites the image, a non-empty
/// `alt` overwrites the description.
pub open spec fn apply_tag(p: PhotoModel, t: TagModel) -> PhotoModel {
    let p1 = match t.src {
        Some(u) => if !spec_ignore(u) {
            PhotoModel { image_url: u, ..p }
        } else {
            p
        },
        None => p,
    };
    match t.alt {
        Some(a) => if a.len() > 0 {
            PhotoModel { description: Some(a), ..p1 }
        } else {
            p1
        },
        None => p1,
    }
}

/// All `img` tags of a fragment, in document order.
pub open spec fn apply_tags(p: PhotoModel, tags: Seq<TagModel>) -> PhotoModel
    decreases tags.len(),
{
    if tags.len() == 0 {
        p
    } else {
        apply_tag(apply_tags(p, tags.drop_last()), tags.last())
    }
}

/// Scanning a free-text field: its `img` tags are applied when the scan
/// runs, and the raw text becomes the description when it cannot.
pub open spec fn apply_scan(p: PhotoModel, text: Seq<char>) -> PhotoModel {
    match img_scan(text) {
        Some(tags) => apply_tags(p, tags),
        None => PhotoModel { description: Some(text), ..p },
    }
}

/// An `href` attribute overwrites the story URL.
pub open spec fn apply_href_attr(p: PhotoModel, kv: (Seq<char>, Seq<char>)) -> PhotoModel {
    if kv.0 == "href"@ {
        PhotoModel { story_url: kv.1, ..p }
    } else {
        p
    }
}

pub open spec fn apply_href_attrs(p: PhotoModel, attrs: Seq<(Seq<char>, Seq<char>)>) -> PhotoModel
    decreases attrs.len(),
{
    if attrs.len() == 0 {
        p
    } else {
        apply_href_attr(apply_href_attrs(p, attrs.drop_last()), attrs.last())
    }
}

/// A `url` attribute that passes the ignore filter overwrites the image URL.
pub open spec fn apply_url_attr(p: PhotoModel, kv: (Seq<char>, Seq<char>)) -> PhotoModel {
    if kv.0 == "url"@ && !spec_ignore(kv.1) {
        PhotoModel { image_url: kv.1, ..p }
    } else {
        p
    }
}

pub open spec fn apply_url_attrs(p: PhotoModel, attrs: Seq<(Seq<char>, Seq<char>)>) -> PhotoModel
    decreases attrs.len(),
{
    if attrs.len() == 0 {
        p
    } else {
        apply_url_attr(apply_url_attrs(p, attrs.drop_last()), attrs.last())
    }
}

/// An element named `atom:link` contributes its `href` attributes.
pub open spec fn apply_atom_link(p: PhotoModel, e: ExtElemModel) -> PhotoModel {
    if e.name == "atom:link"@ {
        apply_href_attrs(p, e.attrs)
    } else {
        p
    }
}

pub open spec fn apply_atom_links(p: PhotoModel, es: Seq<ExtElemModel>) -> PhotoModel
    decreases es.len(),
{
    if es.len() == 0 {
        p
    } else {
        apply_atom_link(apply_atom_links(p, es.drop_last()), es.last())
    }
}

/// An element whose qualified name matches (`media:thumbnail` or
/// `media:content`) contributes its `url` attributes.
pub open spec fn apply_media_url_elem(p: PhotoModel, e: ExtElemModel, tag: Seq<char>) -> PhotoModel {
    if e.name == tag {
        apply_url_attrs(p, e.attrs)
    } else {
        p
    }
}

pub open spec fn apply_media_url_elems(
    p: PhotoModel,
    es: Seq<ExtElemModel>,
    tag: Seq<char>,
) -> PhotoModel
    decreases es.len(),
{
    if es.len() == 0 {
        p
    } else {
        apply_media_url_elem(apply_media_url_elems(p, es.drop_last(), tag), es.last(), tag)
    }
}

/// A `media:credit` element's text value overwrites the credit.
pub open spec fn apply_credit_elem(p: PhotoModel, e: ExtElemModel) -> PhotoModel {
    match e.value {
        Some(v) => if e.name == "media:credit"@ {
            PhotoModel { credit: Some(v), ..p }
        } else {
            p
        },
        None => p,
    }
}

pub open spec fn apply_credit_elems(p: PhotoModel, es: Seq<ExtElemModel>) -> PhotoModel
    decreases es.len(),
{
    if es.len() == 0 {
        p
    } else {
        apply_credit_elem(apply_credit_elems(p, es.drop_last()), es.last())
    }
}

/// A `media:description` element's text value overwrites the description.
pub open spec fn apply_description_elem(p: PhotoModel, e: ExtElemModel) -> PhotoModel {
    match e.value {
        Some(v) => if e.name == "media:description"@ {
            PhotoModel { description: Some(v), ..p }
        } else {
            p
        },
        None => p,
    }
}

pub open spec fn apply_description_elems(p: PhotoModel, es: Seq<ExtElemModel>) -> PhotoModel
    decreases es.len(),
{
    if es.len() == 0 {
        p
    } else {
        apply_description_elem(apply_description_elems(p, es.drop_last()), es.last())
    }
}

/// The element list registered under `element` in a namespace, if any: the
/// first entry with that name.
pub open spec fn lookup_list(
    lists: Seq<ExtListModel>,
    element: Seq<char>,
) -> Option<Seq<ExtElemModel>>
    decreases lists.len(),
{
    if lists.len() == 0 {
        None
    } else if lists[0].element == element {
        Some(lists[0].elements)
    } else {
        lookup_list(lists.drop_first(), element)
    }
}

/// One namespace of the extension map, in the fixed sub-order: atom links,
/// then media thumbnail, content, credit and description — so that, of the
/// two image signals, `media:content` always has the last word.
pub open spec fn apply_namespace(p: PhotoModel, ns: NamespaceModel) -> PhotoModel {
    let p1 = if ns.namespace == "atom"@ {
        match lookup_list(ns.lists, "link"@) {
            Some(es) => apply_atom_links(p, es),
            None => p,
        }
    } else {
        p
    };
    if ns.namespace == "media"@ {
        let p2 = match lookup_list(ns.lists, "thumbnail"@) {
            Some(es) => apply_media_url_elems(p1, es, "media:thumbnail"@),
            None => p1,
        };
        let p3 = match lookup_list(ns.lists, "content"@) {
            Some(es) => apply_media_url_elems(p2, es, "media:content"@),
            None => p2,
        };
        let p4 = match lookup_list(ns.lists, "credit"@) {
            Some(es) => apply_credit_elems(p3, es),
            None => p3,
        };
        match lookup_list(ns.lists, "description"@) {
            Some(es) => apply_description_elems(p4, es),
            None => p4,
        }
    } else {
        p1
    }
}

pub open spec fn apply_extensions(p: PhotoModel, nss: Seq<NamespaceModel>) -> PhotoModel
    decreases nss.len(),
{
    if nss.len() == 0 {
        p
    } else {
        apply_namespace(apply_extensions(p, nss.drop_last()), nss.last())
    }
}

/// Dublin Core creators joined with `", "`.
pub open spec fn join_creators(cs: Seq<Seq<char>>) -> Seq<char>
    decreases cs.len(),
{
    if cs.len() == 0 {
        Seq::empty()
    } else if cs.len() == 1 {
        cs[0]
    } else {
        join_creators(cs.drop_last()) + ", "@ + cs.last()
    }
}

/// The whole override pipeline over one item, before the validity check.
pub open spec fn spec_build(item: ItemModel) -> PhotoModel {
    let p = PhotoModel::empty();
    let p = match item.link {
        Some(l) => PhotoModel { story_url: l, ..p },
        None => p,
    };
    let p = match item.title {
        Some(t) => PhotoModel { description: Some(t), ..p },
        None => p,
    };
    let p = match item.content {
        Some(c) => apply_scan(p, c),
        None => p,
    };
    let p = match item.description {
        Some(d) => apply_scan(p, d),
        None => p,
    };
    let p = match item.enclosure {
        Some(e) => if spec_starts_with(e.mime_type, "image/"@) && !spec_ignore(e.url) {
            PhotoModel { image_url: e.url, ..p }
        } else {
            p
        },
        None => p,
    };
    let p = match item.source_title {
        Some(s) => PhotoModel { credit: Some(s), ..p },
        None => p,
    };
    let p = match item.dublin_core_creators {
        Some(cs) => PhotoModel { credit: Some(join_creators(cs)), ..p },
        None => p,
    };
    apply_extensions(p, item.extensions)
}

/// What extraction returns for one item: the built record when it is valid,
/// nothing otherwise.
pub open spec fn spec_extract(item: ItemModel) -> Option<PhotoModel> {
    let p = spec_build(item);
    if p.is_valid() {
        Some(p)
    } else {
        None
    }
}

/// What extraction returns for a whole document: the valid records, in item
/// order.
pub open spec fn spec_extract_all(items: Seq<ItemModel>) -> Seq<PhotoModel>
    decreases items.len(),
{
    if items.len() == 0 {
        Seq::empty()
    } else {
        spec_extract_all(items.drop_last()) + match spec_extract(items.last()) {
            Some(p) => seq![p],
            None => Seq::empty(),
        }
    }
}

// ---------------------------------------------------------------------------
// The executable pipeline, step by step against the spec above.
// ---------------------------------------------------------------------------

fn apply_img_tags(photo: NewsPhoto, tags: &Vec<ImgTag>) -> (r: NewsPhoto)
    ensures
        r@ == apply_tags(photo@, tags.deep_view()),
{
    let ghost p0 = photo@;
    let ghost tm = tags.deep_view();
    let mut photo = photo;
    let mut i: usize = 0;
    while i < tags.len()
        invariant
            0 <= i <= tags.len(),
            tm == tags.deep_view(),
            tm.len() == tags@.len(),
            photo@ == apply_tags(p0, tm.take(i as int)),
        decreases tags.len() - i,
    {
        let ghost before = photo@;
        let tag = &tags[i];
        if let Some(src) = &tag.src {
            if !ignore(src) {
                photo.image_url = src.clone();
            }
        }
        if let Some(alt) = &tag.alt {
            if !alt.as_str().is_empty() {
                photo.description = Some(alt.clone());
            }
        }
        proof {
            assert(tm[i as int] == tag.deep_view());
            assert(photo@ == apply_tag(before, tm[i as int]));
            assert(tm.take(i + 1).drop_last() =~= tm.take(i as int));
            assert(tm.take(i + 1).last() == tm[i as int]);
        }
        i = i + 1;
    }
    proof {
        assert(tm.take(tags@.len() as int) =~= tm);
    }
    photo
}

/// A free-text field holding HTML: scan it for `img` tags, or fall back to
/// the raw text as a description when the scan cannot run.
fn apply_fragment(photo: NewsPhoto, text: &String) -> (r: NewsPhoto)
    ensures
        r@ == apply_scan(photo@, text@),
{
    match scan_img_tags(text.as_str()) {
        Some(tags) => apply_img_tags(photo, &tags),
        None => {
            let mut photo = photo;
            photo.description = Some(text.clone());
            photo
        },
    }
}

fn apply_href_attrs_exec(photo: NewsPhoto, attrs: &Vec<(String, String)>) -> (r: NewsPhoto)
    ensures
        r@ == apply_href_attrs(photo@, attrs.deep_view()),
{
    let ghost p0 = photo@;
    let ghost am = attrs.deep_view();
    let mut photo = photo;
    let mut i: usize = 0;
    while i < attrs.len()
        invariant
            0 <= i <= attrs.len(),
            am == attrs.deep_view(),
            am.len() == attrs@.len(),
            photo@ == apply_href_attrs(p0, am.take(i as int)),
        decreases attrs.len() - i,
    {
        let ghost before = photo@;
        let kv = &attrs[i];
        if str_eq(kv.0.as_str(), "href") {
            photo.story_url = kv.1.clone();
        }
        proof {
            assert(am[i as int] == attrs@[i as int].deep_view());
            assert(photo@ == apply_href_attr(before, am[i as int]));
            assert(am.take(i + 1).drop_last() =~= am.take(i as int));
        }
        i = i + 1;
    }
    proof {
        assert(am.take(attrs@.len() as int) =~= am);
    }
    photo
}

fn apply_url_attrs_exec(photo: NewsPhoto, attrs: &Vec<(String, String)>) -> (r: NewsPhoto)
    ensures
        r@ == apply_url_attrs(photo@, attrs.deep_view()),
{
    let ghost p0 = photo@;
    let ghost am = attrs.deep_view();
    let mut photo = photo;
    let mut i: usize = 0;
    while i < attrs.len()
        invariant
            0 <= i <= attrs.len(),
            am == attrs.deep_view(),
            am.len() == attrs@.len(),
            photo@ == apply_url_attrs(p0, am.take(i as int)),
        decreases attrs.len() - i,
    {
        let ghost before = photo@;
        let kv = &attrs[i];
        if str_eq(kv.0.as_str(), "url") {
            if !ignore(&kv.1) {
                photo.image_url = kv.1.clone();
            }
        }
        proof {
            assert(am[i as int] == attrs@[i as int].deep_view());
            assert(photo@ == apply_url_attr(before, am[i as int]));
            assert(am.take(i + 1).drop_last() =~= am.take(i as int));
        }
        i = i + 1;
    }
    proof {
        assert(am.take(attrs@.len() as int) =~= am);
    }
    photo
}

fn apply_atom_links_exec(photo: NewsPhoto, es: &Vec<ExtensionElement>) -> (r: NewsPhoto)
    ensures
        r@ == apply_atom_links(photo@, es.deep_view()),
{
    let ghost p0 = photo@;
    let ghost em = es.deep_view();
    let mut photo = photo;
    let mut i: usize = 0;
    while i < es.len()
        invariant
            0 <= i <= es.len(),
            em == es.deep_view(),
            em.len() == es@.len(),
            photo@ == apply_atom_links(p0, em.take(i as int)),
        decreases es.len() - i,
    {
        let ghost before = photo@;
        let e = &es[i];
        if str_eq(e.name.as_str(), "atom:link") {
            photo = apply_href_attrs_exec(photo, &e.attrs);
        }
        proof {
            assert(em[i as int] == es@[i as int].deep_view());
            assert(photo@ == apply_atom_link(before, em[i as int]));
            assert(em.take(i + 1).drop_last() =~= em.take(i as int));
        }
        i = i + 1;
    }
    proof {
        assert(em.take(es@.len() as int) =~= em);
    }
    photo
}

fn apply_media_urls_exec(photo: NewsPhoto, es: &Vec<ExtensionElement>, tag: &str) -> (r: NewsPhoto)
    ensures
        r@ == apply_media_url_elems(photo@, es.deep_view(), tag@),
{
    let ghost p0 = photo@;
    let ghost em = es.deep_view();
    let mut photo = photo;
    let mut i: usize = 0;
    while i < es.len()
        invariant
            0 <= i <= es.len(),
            em == es.deep_view(),
            em.len() == es@.len(),
            photo@ == apply_media_url_elems(p0, em.take(i as int), tag@),
        decreases es.len() - i,
    {
        let ghost before = photo@;
        let e = &es[i];
        if str_eq(e.name.as_str(), tag) {
            photo = apply_url_attrs_exec(photo, &e.attrs);
        }
        proof {
            assert(em[i as int] == es@[i as int].deep_view());
            assert(photo@ == apply_media_url_elem(before, em[i as int], tag@));
            assert(em.take(i + 1).drop_last() =~= em.take(i as int));
        }
        i = i + 1;
    }
    proof {
        assert(em.take(es@.len() as int) =~= em);
    }
    photo
}

fn apply_credit_elems_exec(photo: NewsPhoto, es: &Vec<ExtensionElement>) -> (r: NewsPhoto)
    ensures
        r@ == apply_credit_elems(photo@, es.deep_view()),
{
    let ghost p0 = photo@;
    let ghost em = es.deep_view();
    let mut photo = photo;
    let mut i: usize = 0;
    while i < es.len()
        invariant
            0 <= i <= es.len(),
            em == es.deep_view(),
            em.len() == es@.len(),
            photo@ == apply_credit_elems(p0, em.take(i as int)),
        decreases es.len() - i,
    {
        let ghost before = photo@;
        let e = &es[i];
        if let Some(v) = &e.value {
            if str_eq(e.name.as_str(), "media:credit") {
                photo.credit = Some(v.clone());
            }
        }
        proof {
            assert(em[i as int] == es@[i as int].deep_view());
            assert(photo@ == apply_credit_elem(before, em[i as int]));
            assert(em.take(i + 1).drop_last() =~= em.take(i as int));
        }
        i = i + 1;
    }
    proof {
        assert(em.take(es@.len() as int) =~= em);
    }
    photo
}

fn apply_description_elems_exec(photo: NewsPhoto, es: &Vec<ExtensionElement>) -> (r: NewsPhoto)
    ensures
        r@ == apply_description_elems(photo@, es.deep_view()),
{
    let ghost p0 = photo@;
    let ghost em = es.deep_view();
    let mut photo = photo;
    let mut i: usize = 0;
    while i < es.len()
        invariant
            0 <= i <= es.len(),
            em == es.deep_view(),
            em.len() == es@.len(),
            photo@ == apply_description_elems(p0, em.take(i as int)),
        decreases es.len() - i,
    {
        let ghost before = photo@;
        let e = &es[i];
        if let Some(v) = &e.value {
            if str_eq(e.name.as_str(), "media:description") {
                photo.description = Some(v.clone());
            }
        }
        proof {
            assert(em[i as int] == es@[i as int].deep_view());
            assert(photo@ == apply_description_elem(before, em[i as int]));
            assert(em.take(i + 1).drop_last() =~= em.take(i as int));
        }
        i = i + 1;
    }
    proof {
        assert(em.take(es@.len() as int) =~= em);
    }
    photo
}

/// The element list registered under `element` in a namespace, if any.
fn lookup_elements<'a>(lists: &'a Vec<ExtensionList>, element: &str) -> (r: Option<
    &'a Vec<ExtensionElement>,
>)
    ensures
        match r {
            Some(es) => lookup_list(lists.deep_view(), element@) == Some(es.deep_view()),
            None => lookup_list(lists.deep_view(), element@) is None,
        },
{
    let ghost lm = lists.deep_view();
    proof {
        assert(lm.skip(0) =~= lm);
    }
    let mut i: usize = 0;
    while i < lists.len()
        invariant
            0 <= i <= lists.len(),
            lm == lists.deep_view(),
            lm.len() == lists@.len(),
            lookup_list(lm, element@) == lookup_list(lm.skip(i as int), element@),
        decreases lists.len() - i,
    {
        proof {
            assert(lm[i as int] == lists@[i as int].deep_view());
            assert(lm.skip(i as int)[0] == lm[i as int]);
        }
        let l = &lists[i];
        if str_eq(l.element.as_str(), element) {
            return Some(&l.elements);
        }
        proof {
            assert(lm.skip(i as int).drop_first() =~= lm.skip(i + 1));
        }
        i = i + 1;
    }
    proof {
        assert(lm.skip(lists@.len() as int) =~= Seq::<ExtListModel>::empty());
    }
    None
}

/// The extension map's contribution for one namespace.
fn apply_namespace_exec(photo: NewsPhoto, ns: &ExtensionNamespace) -> (r: NewsPhoto)
    ensures
        r@ == apply_namespace(photo@, ns.deep_view()),
{
    let mut photo = photo;
    if str_eq(ns.namespace.as_str(), "atom") {
        if let Some(es) = lookup_elements(&ns.lists, "link") {
            photo = apply_atom_links_exec(photo, es);
        }
    }
    if str_eq(ns.namespace.as_str(), "media") {
        if let Some(es) = lookup_elements(&ns.lists, "thumbnail") {
            photo = apply_media_urls_exec(photo, es, "media:thumbnail");
        }
        if let Some(es) = lookup_elements(&ns.lists, "content") {
            photo = apply_media_urls_exec(photo, es, "media:content");
        }
        if let Some(es) = lookup_elements(&ns.lists, "credit") {
            photo = apply_credit_elems_exec(photo, es);
        }
        if let Some(es) = lookup_elements(&ns.lists, "description") {
            photo = apply_description_elems_exec(photo, es);
        }
    }
    photo
}

/// Dublin Core creators joined with `", "`.
fn join_with_commas(cs: &Vec<String>) -> (r: String)
    ensures
        r@ == join_creators(cs.deep_view()),
{
    let ghost cm = cs.deep_view();
    let mut r = String::new();
    let mut i: usize = 0;
    while i < cs.len()
        invariant
            0 <= i <= cs.len(),
            cm == cs.deep_view(),
            cm.len() == cs@.len(),
            r@ == join_creators(cm.take(i as int)),
        decreases cs.len() - i,
    {
        proof {
            assert(cm[i as int] == cs@[i as int]@);
        }
        if i > 0 {
            r.append(", ");
        }
        r.append(cs[i].as_str());
        proof {
            assert(cm.take(i + 1).drop_last() =~= cm.take(i as int));
            assert(cm.take(i + 1).last() == cm[i as int]);
            if i == 0 {
                assert(cm.take(1)[0] == cm[0]);
                assert(r@ == join_creators(cm.take(1)));
            }
        }
        i = i + 1;
    }
    proof {
        assert(cm.take(cs@.len() as int) =~= cm);
    }
    r
}

// ---------------------------------------------------------------------------
// The filter invariant: the pipeline never leaves an ignored URL in the
// image field, because every step that writes it checks the denylist first.
// ---------------------------------------------------------------------------

/// The image field is either still unset or passed the ignore filter.
spec fn image_filtered(p: PhotoModel) -> bool {
    p.image_url.len() == 0 || !spec_ignore(p.image_url)
}

proof fn lemma_tags_filtered(p: PhotoModel, tags: Seq<TagModel>)
    requires
        image_filtered(p),
    ensures
        image_filtered(apply_tags(p, tags)),
    decreases tags.len(),
{
    if tags.len() > 0 {
        lemma_tags_filtered(p, tags.drop_last());
    }
}

proof fn lemma_url_attrs_filtered(p: PhotoModel, attrs: Seq<(Seq<char>, Seq<char>)>)
    requires
        image_filtered(p),
    ensures
        image_filtered(apply_url_attrs(p, attrs)),
    decreases attrs.len(),
{
    if attrs.len() > 0 {
        lemma_url_attrs_filtered(p, attrs.drop_last());
    }
}

/// `apply_href_attrs` writes the story URL only.
proof fn lemma_href_attrs_fields(p: PhotoModel, attrs: Seq<(Seq<char>, Seq<char>)>)
    ensures
        apply_href_attrs(p, attrs).image_url == p.image_url,
        apply_href_attrs(p, attrs).description == p.description,
        apply_href_attrs(p, attrs).credit == p.credit,
    decreases attrs.len(),
{
    if attrs.len() > 0 {
        lemma_href_attrs_fields(p, attrs.drop_last());
    }
}

/// `apply_atom_links` writes the story URL only.
proof fn lemma_atom_links_fields(p: PhotoModel, es: Seq<ExtElemModel>)
    ensures
        apply_atom_links(p, es).image_url == p.image_url,
        apply_atom_links(p, es).description == p.description,
        apply_atom_links(p, es).credit == p.credit,
    decreases es.len(),
{
    if es.len() > 0 {
        lemma_atom_links_fields(p, es.drop_last());
        lemma_href_attrs_fields(apply_atom_links(p, es.drop_last()), es.last().attrs);
    }
}

/// `apply_url_attrs` writes the image URL only.
proof fn lemma_url_attrs_fields(p: PhotoModel, attrs: Seq<(Seq<char>, Seq<char>)>)
    ensures
        apply_url_attrs(p, attrs).story_url == p.story_url,
        apply_url_attrs(p, attrs).description == p.description,
        apply_url_attrs(p, attrs).credit == p.credit,
    decreases attrs.len(),
{
    if attrs.len() > 0 {
        lemma_url_attrs_fields(p, attrs.drop_last());
    }
}

/// `apply_media_url_elems` writes the image URL only.
proof fn lemma_media_urls_fields(p: PhotoModel, es: Seq<ExtElemModel>, tag: Seq<char>)
    ensures
        apply_media_url_elems(p, es, tag).story_url == p.story_url,
        apply_media_url_elems(p, es, tag).description == p.description,
        apply_media_url_elems(p, es, tag).credit == p.credit,
    decreases es.len(),
{
    if es.len() > 0 {
        lemma_media_urls_fields(p, es.drop_last(), tag);
        lemma_url_attrs_fields(apply_media_url_elems(p, es.drop_last(), tag), es.last().attrs);
    }
}

proof fn lemma_media_urls_filtered(p: PhotoModel, es: Seq<ExtElemModel>, tag: Seq<char>)
    requires
        image_filtered(p),
    ensures
        image_filtered(apply_media_url_elems(p, es, tag)),
    decreases es.len(),
{
    if es.len() > 0 {
        lemma_media_urls_filtered(p, es.drop_last(), tag);
        lemma_url_attrs_filtered(apply_media_url_elems(p, es.drop_last(), tag), es.last().attrs);
    }
}

/// `apply_credit_elems` writes the credit only.
proof fn lemma_credit_elems_fields(p: PhotoModel, es: Seq<ExtElemModel>)
    ensures
        apply_credit_elems(p, es).image_url == p.image_url,
        apply_credit_elems(p, es).story_url == p.story_url,
        apply_credit_elems(p, es).description == p.description,
    decreases es.len(),
{
    if es.len() > 0 {
        lemma_credit_elems_fields(p, es.drop_last());
    }
}

/// `apply_description_elems` writes the description only.
proof fn lemma_description_elems_fields(p: PhotoModel, es: Seq<ExtElemModel>)
    ensures
        apply_description_elems(p, es).image_url == p.image_url,
        apply_description_elems(p, es).story_url == p.story_url,
        apply_description_elems(p, es).credit == p.credit,
    decreases es.len(),
{
    if es.len() > 0 {
        lemma_description_elems_fields(p, es.drop_last());
    }
}

proof fn lemma_namespace_filtered(p: PhotoModel, ns: NamespaceModel)
    requires
        image_filtered(p),
    ensures
        image_filtered(apply_namespace(p, ns)),
{
    let p1 = if ns.namespace == "atom"@ {
        match lookup_list(ns.lists, "link"@) {
            Some(es) => apply_atom_links(p, es),
            None => p,
        }
    } else {
        p
    };
    if ns.namespace == "atom"@ {
        match lookup_list(ns.lists, "link"@) {
            Some(es) => lemma_atom_links_fields(p, es),
            None => {},
        }
    }
    if ns.namespace == "media"@ {
        let p2 = match lookup_list(ns.lists, "thumbnail"@) {
            Some(es) => apply_media_url_elems(p1, es, "media:thumbnail"@),
            None => p1,
        };
        match lookup_list(ns.lists, "thumbnail"@) {
            Some(es) => lemma_media_urls_filtered(p1, es, "media:thumbnail"@),
            None => {},
        }
        let p3 = match lookup_list(ns.lists, "content"@) {
            Some(es) => apply_media_url_elems(p2, es, "media:content"@),
            None => p2,
        };
        match lookup_list(ns.lists, "content"@) {
            Some(es) => lemma_media_urls_filtered(p2, es, "media:content"@),
            None => {},
        }
        let p4 = match lookup_list(ns.lists, "credit"@) {
            Some(es) => apply_credit_elems(p3, es),
            None => p3,
        };
        match lookup_list(ns.lists, "credit"@) {
            Some(es) => lemma_credit_elems_fields(p3, es),
            None => {},
        }
        match lookup_list(ns.lists, "description"@) {
            Some(es) => lemma_description_elems_fields(p4, es),
            None => {},
        }
    }
}

proof fn lemma_extensions_filtered(p: PhotoModel, nss: Seq<NamespaceModel>)
    requires
        image_filtered(p),
    ensures
        image_filtered(apply_extensions(p, nss)),
    decreases nss.len(),
{
    if nss.len() > 0 {
        lemma_extensions_filtered(p, nss.drop_last());
        lemma_namespace_filtered(apply_extensions(p, nss.drop_last()), nss.last());
    }
}

proof fn lemma_scan_filtered(p: PhotoModel, text: Seq<char>)
    requires
        image_filtered(p),
    ensures
        image_filtered(apply_scan(p, text)),
{
    match img_scan(text) {
        Some(tags) => lemma_tags_filtered(p, tags),
        None => {},
    }
}

/// The built record never carries an ignored image URL: every step that
/// writes the image field checks the denylist first.
pub proof fn lemma_build_image_filtered(item: ItemModel)
    ensures
        spec_build(item).image_url.len() == 0 || !spec_ignore(spec_build(item).image_url),
{
    let p0 = PhotoModel::empty();
    let p1 = match item.link {
        Some(l) => PhotoModel { story_url: l, ..p0 },
        None => p0,
    };
    let p2 = match item.title {
        Some(t) => PhotoModel { description: Some(t), ..p1 },
        None => p1,
    };
    let p3 = match item.content {
        Some(c) => apply_scan(p2, c),
        None => p2,
    };
    match item.content {
        Some(c) => lemma_scan_filtered(p2, c),
        None => {},
    }
    let p4 = match item.description {
        Some(d) => apply_scan(p3, d),
        None => p3,
    };
    match item.description {
        Some(d) => lemma_scan_filtered(p3, d),
        None => {},
    }
    let p5 = match item.enclosure {
        Some(e) => if spec_starts_with(e.mime_type, "image/"@) && !spec_ignore(e.url) {
            PhotoModel { image_url: e.url, ..p4 }
        } else {
            p4
        },
        None => p4,
    };
    let p6 = match item.source_title {
        Some(s) => PhotoModel { credit: Some(s), ..p5 },
        None => p5,
    };
    let p7 = match item.dublin_core_creators {
        Some(cs) => PhotoModel { credit: Some(join_creators(cs)), ..p6 },
        None => p6,
    };
    lemma_extensions_filtered(p7, item.extensions);
}

/// Every record the document-level extraction emits is valid and free of
/// ignored image URLs, and at most one record per item comes out.
pub proof fn lemma_extract_all_props(items: Seq<ItemModel>)
    ensures
        spec_extract_all(items).len() <= items.len(),
        forall|k: int|
            0 <= k < spec_extract_all(items).len() ==> (#[trigger] spec_extract_all(
                items,
            )[k]).is_valid() && !spec_ignore(spec_extract_all(items)[k].image_url),
    decreases items.len(),
{
    if items.len() > 0 {
        lemma_extract_all_props(items.drop_last());
        lemma_build_image_filtered(items.last());
    }
}

/// Law: extraction is a pure function of the decoded document. Any two
/// results that meet `get_photos`'s contract for the same items — two runs
/// over one document — are identical.
pub proof fn lemma_extract_all_deterministic(
    items: Seq<ItemModel>,
    r1: Seq<PhotoModel>,
    r2: Seq<PhotoModel>,
)
    requires
        r1 == spec_extract_all(items),
        r2 == spec_extract_all(items),
    ensures
        r1 == r2,
{
}

// ---------------------------------------------------------------------------
// Precedence: which URL a run of media elements leaves behind.
// ---------------------------------------------------------------------------

/// The image URL a run of `url` attributes would leave behind: the last one
/// that passes the ignore filter.
pub open spec fn selected_url_attrs(attrs: Seq<(Seq<char>, Seq<char>)>) -> Option<Seq<char>>
    decreases attrs.len(),
{
    if attrs.len() == 0 {
        None
    } else if attrs.last().0 == "url"@ && !spec_ignore(attrs.last().1) {
        Some(attrs.last().1)
    } else {
        selected_url_attrs(attrs.drop_last())
    }
}

/// The image URL a run of media elements named `tag` would leave behind.
pub open spec fn selected_url(es: Seq<ExtElemModel>, tag: Seq<char>) -> Option<Seq<char>>
    decreases es.len(),
{
    if es.len() == 0 {
        None
    } else {
        let from_last = if es.last().name == tag {
            selected_url_attrs(es.last().attrs)
        } else {
            None
        };
        match from_last {
            Some(v) => Some(v),
            None => selected_url(es.drop_last(), tag),
        }
    }
}

proof fn lemma_url_attrs_image(p: PhotoModel, attrs: Seq<(Seq<char>, Seq<char>)>)
    ensures
        apply_url_attrs(p, attrs).image_url == match selected_url_attrs(attrs) {
            Some(v) => v,
            None => p.image_url,
        },
    decreases attrs.len(),
{
    if attrs.len() > 0 {
        lemma_url_attrs_image(p, attrs.drop_last());
    }
}

proof fn lemma_media_urls_image(p: PhotoModel, es: Seq<ExtElemModel>, tag: Seq<char>)
    ensures
        apply_media_url_elems(p, es, tag).image_url == match selected_url(es, tag) {
            Some(v) => v,
            None => p.image_url,
        },
    decreases es.len(),
{
    if es.len() > 0 {
        lemma_media_urls_image(p, es.drop_last(), tag);
        lemma_url_attrs_image(apply_media_url_elems(p, es.drop_last(), tag), es.last().attrs);
    }
}

/// Law: when a `media` namespace carries a `content` list that selects an
/// image URL, that URL is the namespace's last word on the image — whatever
/// any thumbnail in the same namespace, or any earlier pipeline step, chose.
pub proof fn lemma_media_content_precedence(
    p: PhotoModel,
    ns: NamespaceModel,
    es: Seq<ExtElemModel>,
    v: Seq<char>,
)
    requires
        ns.namespace == "media"@,
        lookup_list(ns.lists, "content"@) == Some(es),
        selected_url(es, "media:content"@) == Some(v),
    ensures
        apply_namespace(p, ns).image_url == v,
{
    let p1 = if ns.namespace == "atom"@ {
        match lookup_list(ns.lists, "link"@) {
            Some(links) => apply_atom_links(p, links),
            None => p,
        }
    } else {
        p
    };
    if ns.namespace == "atom"@ {
        match lookup_list(ns.lists, "link"@) {
            Some(links) => lemma_atom_links_fields(p, links),
            None => {},
        }
    }
    let p2 = match lookup_list(ns.lists, "thumbnail"@) {
        Some(ts) => apply_media_url_elems(p1, ts, "media:thumbnail"@),
        None => p1,
    };
    let p3 = apply_media_url_elems(p2, es, "media:content"@);
    lemma_media_urls_image(p2, es, "media:content"@);
    let p4 = match lookup_list(ns.lists, "credit"@) {
        Some(cs) => apply_credit_elems(p3, cs),
        None => p3,
    };
    match lookup_list(ns.lists, "credit"@) {
        Some(cs) => lemma_credit_elems_fields(p3, cs),
        None => {},
    }
    match lookup_list(ns.lists, "description"@) {
        Some(ds) => lemma_description_elems_fields(p4, ds),
        None => {},
    }
}

proof fn lemma_namespace_image_not_media(p: PhotoModel, ns: NamespaceModel)
    requires
        ns.namespace != "media"@,
    ensures
        apply_namespace(p, ns).image_url == p.image_url,
{
    if ns.namespace == "atom"@ {
        match lookup_list(ns.lists, "link"@) {
            Some(es) => lemma_atom_links_fields(p, es),
            None => {},
        }
    }
}

proof fn lemma_extensions_image_not_media(p: PhotoModel, nss: Seq<NamespaceModel>)
    requires
        forall|j: int| 0 <= j < nss.len() ==> (#[trigger] nss[j]).namespace != "media"@,
    ensures
        apply_extensions(p, nss).image_url == p.image_url,
    decreases nss.len(),
{
    if nss.len() > 0 {
        lemma_extensions_image_not_media(p, nss.drop_last());
        lemma_namespace_image_not_media(apply_extensions(p, nss.drop_last()), nss.last());
    }
}

proof fn lemma_extensions_concat(p: PhotoModel, a: Seq<NamespaceModel>, b: Seq<NamespaceModel>)
    ensures
        apply_extensions(p, a + b) == apply_extensions(apply_extensions(p, a), b),
    decreases b.len(),
{
    if b.len() == 0 {
        assert(a + b =~= a);
    } else {
        lemma_extensions_concat(p, a, b.drop_last());
        assert((a + b).drop_last() =~= a + b.drop_last());
        assert((a + b).last() == b.last());
    }
}

/// Law: for a whole item, when extension namespace `i` is `media`, its
/// `content` list selects the image URL `v`, and no later namespace is
/// `media` again, the built record's image URL is exactly `v` — the
/// standardized Media RSS signal outranks every other source of images.
pub proof fn lemma_item_media_content_precedence(
    item: ItemModel,
    i: int,
    es: Seq<ExtElemModel>,
    v: Seq<char>,
)
    requires
        0 <= i < item.extensions.len(),
        item.extensions[i].namespace == "media"@,
        lookup_list(item.extensions[i].lists, "content"@) == Some(es),
        selected_url(es, "media:content"@) == Some(v),
        forall|j: int|
            i < j < item.extensions.len() ==> (#[trigger] item.extensions[j]).namespace
                != "media"@,
    ensures
        spec_build(item).image_url == v,
{
    let exts = item.extensions;
    let p0 = PhotoModel::empty();
    let p1 = match item.link {
        Some(l) => PhotoModel { story_url: l, ..p0 },
        None => p0,
    };
    let p2 = match item.title {
        Some(t) => PhotoModel { description: Some(t), ..p1 },
        None => p1,
    };
    let p3 = match item.content {
        Some(c) => apply_scan(p2, c),
        None => p2,
    };
    let p4 = match item.description {
        Some(d) => apply_scan(p3, d),
        None => p3,
    };
    let p5 = match item.enclosure {
        Some(e) => if spec_starts_with(e.mime_type, "image/"@) && !spec_ignore(e.url) {
            PhotoModel { image_url: e.url, ..p4 }
        } else {
            p4
        },
        None => p4,
    };
    let p6 = match item.source_title {
        Some(s) => PhotoModel { credit: Some(s), ..p5 },
        None => p5,
    };
    let p7 = match item.dublin_core_creators {
        Some(cs) => PhotoModel { credit: Some(join_creators(cs)), ..p6 },
        None => p6,
    };
    assert(spec_build(item) == apply_extensions(p7, exts));

    assert(exts =~= exts.take(i + 1) + exts.skip(i + 1));
    lemma_extensions_concat(p7, exts.take(i + 1), exts.skip(i + 1));
    assert(exts.take(i + 1).drop_last() =~= exts.take(i));
    assert(exts.take(i + 1).last() == exts[i]);
    let before = apply_extensions(p7, exts.take(i));
    assert(apply_extensions(p7, exts.take(i + 1)) == apply_namespace(before, exts[i]));
    lemma_media_content_precedence(before, exts[i], es, v);
    assert(forall|j: int|
        0 <= j < exts.skip(i + 1).len() ==> (#[trigger] exts.skip(i + 1)[j]).namespace
            != "media"@);
    lemma_extensions_image_not_media(apply_extensions(p7, exts.take(i + 1)), exts.skip(i + 1));
}

/// Extract zero or one photo from a decoded feed item by running the whole
/// override pipeline, keeping the record only when both URLs are filled.
pub fn extract_photo(item: &FeedItem) -> (r: Option<NewsPhoto>)
    ensures
        r.deep_view() == spec_extract(item.deep_view()),
        r matches Some(p) ==> p@.is_valid() && !spec_ignore(p@.image_url),
{
    let mut photo = NewsPhoto::new();

    if let Some(link) = &item.link {
        photo.story_url = link.clone();
    }
    if let Some(title) = &item.title {
        photo.description = Some(title.clone());
    }
    if let Some(content) = &item.content {
        photo = apply_fragment(photo, content);
    }
    if let Some(desc) = &item.description {
        photo = apply_fragment(photo, desc);
    }
    if let Some(enc) = &item.enclosure {
        if starts_with(enc.mime_type.as_str(), "image/") {
            if !ignore(&enc.url) {
                photo.image_url = enc.url.clone();
            }
        }
    }
    if let Some(st) = &item.source_title {
        photo.credit = Some(st.clone());
    }
    if let Some(cs) = &item.dublin_core_creators {
        photo.credit = Some(join_with_commas(cs));
    }

    let ghost p_pre = photo@;
    let ghost xm = item.extensions.deep_view();
    let mut i: usize = 0;
    while i < item.extensions.len()
        invariant
            0 <= i <= item.extensions.len(),
            xm == item.extensions.deep_view(),
            xm.len() == item.extensions@.len(),
            photo@ == apply_extensions(p_pre, xm.take(i as int)),
        decreases item.extensions.len() - i,
    {
        let ghost before = photo@;
        photo = apply_namespace_exec(photo, &item.extensions[i]);
        proof {
            assert(xm[i as int] == item.extensions@[i as int].deep_view());
            assert(photo@ == apply_namespace(before, xm[i as int]));
            assert(xm.take(i + 1).drop_last() =~= xm.take(i as int));
        }
        i = i + 1;
    }
    proof {
        assert(xm.take(item.extensions@.len() as int) =~= xm);
        assert(photo@ == spec_build(item.deep_view()));
        lemma_build_image_filtered(item.deep_view());
    }

    if photo.valid() {
        Some(photo)
    } else {
        None
    }
}

/// Extract every photo a decoded document yields, in item order. At most
/// one photo per item comes out, so the result is never longer than the
/// input.
pub fn get_photos(items: &Vec<FeedItem>) -> (r: Vec<NewsPhoto>)
    ensures
        r.deep_view() == spec_extract_all(items.deep_view()),
        r@.len() <= items@.len(),
        forall|k: int|
            0 <= k < r@.len() ==> (#[trigger] r.deep_view()[k]).is_valid() && !spec_ignore(
                r.deep_view()[k].image_url,
            ),
{
    proof {
        lemma_extract_all_props(items.deep_view());
    }
    let ghost im = items.deep_view();
    let mut r: Vec<NewsPhoto> = Vec::new();
    let mut i: usize = 0;
    while i < items.len()
        invariant
            0 <= i <= items.len(),
            im == items.deep_view(),
            im.len() == items@.len(),
            r.deep_view() == spec_extract_all(im.take(i as int)),
            r@.len() <= i,
        decreases items.len() - i,
    {
        let ghost before = r.deep_view();
        match extract_photo(&items[i]) {
            Some(p) => {
                r.push(p);
            },
            None => {},
        }
        proof {
            assert(im[i as int] == items@[i as int].deep_view());
            assert(im.take(i + 1).drop_last() =~= im.take(i as int));
            assert(im.take(i + 1).last() == im[i as int]);
            assert(r.deep_view() =~= spec_extract_all(im.take(i + 1)));
        }
        i = i + 1;
    }
    proof {
        assert(im.take(items@.len() as int) =~= im);
    }
    r
}

} // verus!
