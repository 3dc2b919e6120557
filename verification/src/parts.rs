//! The markup decoder: the document-sequence, document, page and structure
//! parts, decoded from their element trees into typed records and the render
//! tree.
//!
//! The decoder is namespace-tolerant — each tag check accepts either of the
//! two format-variant namespaces — and permissive: unknown elements are
//! skipped, malformed attributes resolve to defaults, and the one structural
//! validation failure is a paint property without a recognized brush.

use vstd::prelude::*;

use crate::error::{Error, ParseError};
use crate::renderer::{same_canvas_props, nodes_of, lemma_nodes_of_push, spec_branch_children,
    spec_parse_transform,
    wf_node, BleedBox, Brush, Canvas, CanvasModel, Clip, ContentBox, Fill, Glyphs, GlyphsModel,
    IsSideways, Indices, NodeModel, Opacity, OpacityMask, Path, PathModel, RenderNode,
    RenderTransform, StyleSimulations, Stroke, StrokeDashArray, StrokeDashOffset,
    StrokeEndLineCap, StrokeLineJoin, StrokeStartLineCap, UnicodeString};
use crate::scalar::{spec_parse_bool, spec_parse_scalar, spec_parse_size, Scalar};
use crate::scalar;
use crate::xml::{attr_in, parse_xml, tree_has_name, trees_of, lemma_trees_of_index, XmlElem,
    XmlTree, xml_tree_of};
use crate::xps::{Outline, OutlineEntry, OutlineEntryModel};

verus! {

/// The fixed-layout markup namespace.
pub open spec fn ns_xps() -> Seq<char> {
    "http://schemas.microsoft.com/xps/2005/06"@
}

fn ns_xps_str() -> (r: &'static str)
    ensures
        r@ == ns_xps(),
{
    "http://schemas.microsoft.com/xps/2005/06"
}

/// The format-variant namespace recognized as a synonym of [`ns_xps`].
pub open spec fn ns_oxps() -> Seq<char> {
    "http://schemas.openxps.org/oxps/v1.0"@
}

fn ns_oxps_str() -> (r: &'static str)
    ensures
        r@ == ns_oxps(),
{
    "http://schemas.openxps.org/oxps/v1.0"
}

/// The document-structure namespace.
pub open spec fn ns_doc_struct() -> Seq<char> {
    "http://schemas.microsoft.com/xps/2005/06/documentstructure"@
}

fn ns_doc_struct_str() -> (r: &'static str)
    ensures
        r@ == ns_doc_struct(),
{
    "http://schemas.microsoft.com/xps/2005/06/documentstructure"
}

/// Whether the element bears the tag in either recognized markup namespace.
pub open spec fn has_xps_name(t: XmlTree, tag: Seq<char>) -> bool {
    tree_has_name(t, ns_xps(), tag) || tree_has_name(t, ns_oxps(), tag)
}

/// Whether the element bears the tag in either recognized markup namespace.
pub fn has_xps_tag_name(node: &XmlElem, tag: &str) -> (r: bool)
    ensures
        r == has_xps_name(node.deep_view(), tag@),
{
    node.has_name(ns_xps_str(), tag) || node.has_name(ns_oxps_str(), tag)
}

/// The ordered document part paths of a sequence part.
pub struct FixedDocumentSequence {
    pub sources: Vec<String>,
}

/// The `Source` attributes of the `DocumentReference` children, in order.
pub open spec fn spec_doc_refs(cs: Seq<XmlTree>) -> Seq<Seq<char>>
    decreases cs.len(),
{
    if cs.len() == 0 {
        Seq::empty()
    } else {
        spec_doc_refs(cs.drop_last()) + (
        if has_xps_name(cs.last(), "DocumentReference"@) {
            match attr_in(cs.last().attrs, "Source"@) {
                Some(src) => seq![src],
                None => Seq::empty(),
            }
        } else {
            Seq::empty()
        })
    }
}

/// The document part paths a sequence part declares: the references of a
/// well-named root, and none of any other root.
pub open spec fn spec_doc_sequence(t: XmlTree) -> Seq<Seq<char>> {
    if has_xps_name(t, "FixedDocumentSequence"@) {
        spec_doc_refs(t.children)
    } else {
        Seq::empty()
    }
}

impl FixedDocumentSequence {
    /// Parses a document-sequence part.
    pub fn parse(repr: &str) -> (r: Result<FixedDocumentSequence, Error>)
        ensures
            match r {
                Ok(s) => xml_tree_of(repr@) matches Some(t) && s.sources.deep_view()
                    == spec_doc_sequence(t),
                Err(e) => xml_tree_of(repr@) is None && e == Error::Xml,
            },
    {
        let root = match parse_xml(repr) {
            Ok(root) => root,
            Err(e) => {
                return Err(e);
            },
        };
        Ok(Self::from_xml(&root))
    }

    /// Decodes a parsed document-sequence part.
    pub fn from_xml(root: &XmlElem) -> (r: FixedDocumentSequence)
        ensures
            r.sources.deep_view() == spec_doc_sequence(root.deep_view()),
    {
        let mut sources: Vec<String> = Vec::new();
        let ghost t = root.deep_view();
        proof {
            assert(sources.deep_view() =~= Seq::<Seq<char>>::empty());
        }
        if !has_xps_tag_name(root, "FixedDocumentSequence") {
            return FixedDocumentSequence { sources };
        }
        proof {
            lemma_trees_of_index(root.children@);
            assert(t.children.take(0) =~= Seq::<XmlTree>::empty());
        }
        let n = root.children.len();
        for i in 0..n
            invariant
                n == root.children@.len(),
                t == root.deep_view(),
                t.children == trees_of(root.children@),
                t.children.len() == n,
                forall|j: int|
                    0 <= j < n ==> t.children[j] == #[trigger] root.children@[j].deep_view(),
                sources.deep_view() == spec_doc_refs(t.children.take(i as int)),
        {
            let child = &root.children[i];
            let ghost sources0 = sources.deep_view();
            proof {
                assert(t.children.take(i + 1).drop_last() =~= t.children.take(i as int));
                assert(t.children.take(i + 1).last() == t.children[i as int]);
            }
            if has_xps_tag_name(child, "DocumentReference") {
                if let Some(src) = child.attribute("Source") {
                    let ghost srcv = src@;
                    sources.push(src);
                    proof {
                        assert(sources.deep_view() =~= sources0.push(srcv));
                        assert(spec_doc_refs(t.children.take(i + 1)) =~= sources0.push(srcv));
                    }
                }
            }
        }
        proof {
            assert(t.children.take(n as int) =~= t.children);
        }
        FixedDocumentSequence { sources }
    }
}

/// A page as a document declares it: its part path, sequence-declared size,
/// and named link targets.
#[derive(Debug)]
pub struct FixedDocumentPage {
    pub source: Option<String>,
    pub width: Scalar,
    pub height: Scalar,
    pub links: Vec<String>,
}

/// The mathematical value of a [`FixedDocumentPage`].
pub struct PageStubModel {
    pub source: Option<Seq<char>>,
    pub width: int,
    pub height: int,
    pub links: Seq<Seq<char>>,
}

impl DeepView for FixedDocumentPage {
    type V = PageStubModel;

    open spec fn deep_view(&self) -> PageStubModel {
        PageStubModel {
            source: self.source.deep_view(),
            width: self.width.micros as int,
            height: self.height.micros as int,
            links: self.links.deep_view(),
        }
    }
}

/// The `Name` attributes of the `LinkTarget` children, in order.
pub open spec fn spec_link_names(cs: Seq<XmlTree>) -> Seq<Seq<char>>
    decreases cs.len(),
{
    if cs.len() == 0 {
        Seq::empty()
    } else {
        spec_link_names(cs.drop_last()) + (
        if has_xps_name(cs.last(), "LinkTarget"@) {
            match attr_in(cs.last().attrs, "Name"@) {
                Some(nm) => seq![nm],
                None => Seq::empty(),
            }
        } else {
            Seq::empty()
        })
    }
}

/// The link-target names under all `PageContent.LinkTargets` children, in
/// order.
pub open spec fn spec_stub_links(cs: Seq<XmlTree>) -> Seq<Seq<char>>
    decreases cs.len(),
{
    if cs.len() == 0 {
        Seq::empty()
    } else {
        spec_stub_links(cs.drop_last()) + (
        if has_xps_name(cs.last(), "PageContent.LinkTargets"@) {
            spec_link_names(cs.last().children)
        } else {
            Seq::empty()
        })
    }
}

/// What a `PageContent` element declares: part path, size (absent or
/// malformed size attributes resolve to zero) and link targets.
pub open spec fn spec_page_stub(t: XmlTree) -> PageStubModel {
    PageStubModel {
        source: attr_in(t.attrs, "Source"@),
        width: match attr_in(t.attrs, "Width"@) {
            Some(w) => spec_parse_size(w),
            None => 0,
        },
        height: match attr_in(t.attrs, "Height"@) {
            Some(h) => spec_parse_size(h),
            None => 0,
        },
        links: spec_stub_links(t.children),
    }
}

/// The stubs of the `PageContent` children, in order.
pub open spec fn spec_page_stubs(cs: Seq<XmlTree>) -> Seq<PageStubModel>
    decreases cs.len(),
{
    if cs.len() == 0 {
        Seq::empty()
    } else {
        spec_page_stubs(cs.drop_last()) + (
        if has_xps_name(cs.last(), "PageContent"@) {
            seq![spec_page_stub(cs.last())]
        } else {
            Seq::empty()
        })
    }
}

/// The page stubs a document part declares: those of a well-named root, and
/// none of any other root.
pub open spec fn spec_fixed_document(t: XmlTree) -> Seq<PageStubModel> {
    if has_xps_name(t, "FixedDocument"@) {
        spec_page_stubs(t.children)
    } else {
        Seq::empty()
    }
}

/// A document part; parsing yields its page stubs.
#[derive(Debug)]
pub struct FixedDocument;

impl FixedDocument {
    /// Parses a document part into its declared page stubs.
    pub fn parse(fixed_doc: &str) -> (r: Result<Vec<FixedDocumentPage>, Error>)
        ensures
            match r {
                Ok(pages) => xml_tree_of(fixed_doc@) matches Some(t) && pages.deep_view()
                    == spec_fixed_document(t),
                Err(e) => xml_tree_of(fixed_doc@) is None && e == Error::Xml,
            },
    {
        let root = match parse_xml(fixed_doc) {
            Ok(root) => root,
            Err(e) => {
                return Err(e);
            },
        };
        Ok(Self::from_xml(&root))
    }

    /// Decodes a parsed document part.
    pub fn from_xml(root: &XmlElem) -> (r: Vec<FixedDocumentPage>)
        ensures
            r.deep_view() == spec_fixed_document(root.deep_view()),
    {
        let mut pages: Vec<FixedDocumentPage> = Vec::new();
        let ghost t = root.deep_view();
        proof {
            assert(pages.deep_view() =~= Seq::<PageStubModel>::empty());
        }
        if !has_xps_tag_name(root, "FixedDocument") {
            return pages;
        }
        proof {
            lemma_trees_of_index(root.children@);
            assert(t.children.take(0) =~= Seq::<XmlTree>::empty());
        }
        let n = root.children.len();
        for i in 0..n
            invariant
                n == root.children@.len(),
                t == root.deep_view(),
                t.children == trees_of(root.children@),
                t.children.len() == n,
                forall|j: int|
                    0 <= j < n ==> t.children[j] == #[trigger] root.children@[j].deep_view(),
                pages.deep_view() == spec_page_stubs(t.children.take(i as int)),
        {
            let child = &root.children[i];
            let ghost pages0 = pages.deep_view();
            proof {
                assert(t.children.take(i + 1).drop_last() =~= t.children.take(i as int));
                assert(t.children.take(i + 1).last() == t.children[i as int]);
            }
            if has_xps_tag_name(child, "PageContent") {
                let stub = Self::decode_stub(child);
                let ghost stubv = stub.deep_view();
                pages.push(stub);
                proof {
                    assert(pages.deep_view() =~= pages0.push(stubv));
                    assert(spec_page_stubs(t.children.take(i + 1)) =~= pages0.push(stubv));
                }
            }
        }
        proof {
            assert(t.children.take(n as int) =~= t.children);
        }
        pages
    }

    /// Decodes one `PageContent` element into its stub.
    fn decode_stub(node: &XmlElem) -> (r: FixedDocumentPage)
        ensures
            r.deep_view() == spec_page_stub(node.deep_view()),
    {
        let source = node.attribute("Source");
        let width = match node.attribute("Width") {
            Some(w) => scalar::parse_size(w.as_str()),
            None => Scalar::zero(),
        };
        let height = match node.attribute("Height") {
            Some(h) => scalar::parse_size(h.as_str()),
            None => Scalar::zero(),
        };
        let links = Self::decode_links(node);
        FixedDocumentPage { source, width, height, links }
    }

    /// Collects the link-target names under a `PageContent` element.
    fn decode_links(node: &XmlElem) -> (r: Vec<String>)
        ensures
            r.deep_view() == spec_stub_links(node.deep_view().children),
    {
        let mut links: Vec<String> = Vec::new();
        let ghost cs = node.deep_view().children;
        proof {
            lemma_trees_of_index(node.children@);
            assert(links.deep_view() =~= Seq::<Seq<char>>::empty());
            assert(cs.take(0) =~= Seq::<XmlTree>::empty());
        }
        let n = node.children.len();
        for i in 0..n
            invariant
                n == node.children@.len(),
                cs == node.deep_view().children,
                cs == trees_of(node.children@),
                cs.len() == n,
                forall|j: int|
                    0 <= j < n ==> cs[j] == #[trigger] node.children@[j].deep_view(),
                links.deep_view() == spec_stub_links(cs.take(i as int)),
        {
            let child = &node.children[i];
            proof {
                assert(cs.take(i + 1).drop_last() =~= cs.take(i as int));
                assert(cs.take(i + 1).last() == cs[i as int]);
            }
            if has_xps_tag_name(child, "PageContent.LinkTargets") {
                let ghost inner = cs[i as int].children;
                let ghost links0 = links.deep_view();
                proof {
                    lemma_trees_of_index(child.children@);
                    assert(inner.take(0) =~= Seq::<XmlTree>::empty());
                    assert(links.deep_view() =~= links0 + spec_link_names(inner.take(0)));
                }
                let m = child.children.len();
                for k in 0..m
                    invariant
                        m == child.children@.len(),
                        inner == cs[i as int].children,
                        inner == trees_of(child.children@),
                        inner.len() == m,
                        forall|j: int|
                            0 <= j < m ==> inner[j] == #[trigger] child.children@[j].deep_view(),
                        links.deep_view() == links0 + spec_link_names(inner.take(k as int)),
                {
                    let target = &child.children[k];
                    let ghost linksk = links.deep_view();
                    proof {
                        assert(inner.take(k + 1).drop_last() =~= inner.take(k as int));
                        assert(inner.take(k + 1).last() == inner[k as int]);
                    }
                    if has_xps_tag_name(target, "LinkTarget") {
                        if let Some(nm) = target.attribute("Name") {
                            let ghost nmv = nm@;
                            links.push(nm);
                            proof {
                                assert(links.deep_view() =~= linksk.push(nmv));
                                assert(links0 + spec_link_names(inner.take(k + 1)) =~= linksk.push(
                                    nmv,
                                ));
                            }
                        }
                    }
                }
                proof {
                    assert(inner.take(m as int) =~= inner);
                }
            }
        }
        proof {
            assert(cs.take(n as int) =~= cs);
        }
        links
    }
}

/// The outline entries of the `OutlineEntry` children, in order, their
/// attributes recorded verbatim.
pub open spec fn spec_outline_entries(cs: Seq<XmlTree>) -> Seq<OutlineEntryModel>
    decreases cs.len(),
{
    if cs.len() == 0 {
        Seq::empty()
    } else {
        spec_outline_entries(cs.drop_last()) + (
        if tree_has_name(cs.last(), ns_doc_struct(), "OutlineEntry"@) {
            seq![
                OutlineEntryModel {
                    level: attr_in(cs.last().attrs, "OutlineLevel"@),
                    description: attr_in(cs.last().attrs, "Description"@),
                    target: attr_in(cs.last().attrs, "OutlineTarget"@),
                },
            ]
        } else {
            Seq::empty()
        })
    }
}

/// The entries of the last `DocumentOutline` child, if any.
pub open spec fn spec_last_doc_outline(cs: Seq<XmlTree>) -> Option<Seq<OutlineEntryModel>>
    decreases cs.len(),
{
    if cs.len() == 0 {
        None
    } else if tree_has_name(cs.last(), ns_doc_struct(), "DocumentOutline"@) {
        Some(spec_outline_entries(cs.last().children))
    } else {
        spec_last_doc_outline(cs.drop_last())
    }
}

/// The outline of the last `DocumentStructure.Outline` child that holds a
/// `DocumentOutline`, if any.
pub open spec fn spec_last_outline(cs: Seq<XmlTree>) -> Option<Seq<OutlineEntryModel>>
    decreases cs.len(),
{
    if cs.len() == 0 {
        None
    } else {
        let tail = if tree_has_name(cs.last(), ns_doc_struct(), "DocumentStructure.Outline"@) {
            spec_last_doc_outline(cs.last().children)
        } else {
            None
        };
        if tail is Some {
            tail
        } else {
            spec_last_outline(cs.drop_last())
        }
    }
}

/// The outline a structure part declares: that of a well-named root, and
/// none of any other root.
pub open spec fn spec_structure(t: XmlTree) -> Option<Seq<OutlineEntryModel>> {
    if tree_has_name(t, ns_doc_struct(), "DocumentStructure"@) {
        spec_last_outline(t.children)
    } else {
        None
    }
}

/// A document-structure part: its optional outline.
#[derive(Debug)]
pub struct DocumentStructure {
    pub outline: Option<Outline>,
}

impl DocumentStructure {
    /// Parses a document-structure part.
    pub fn parse(structure: &str) -> (r: Result<DocumentStructure, Error>)
        ensures
            match r {
                Ok(s) => xml_tree_of(structure@) matches Some(t) && s.outline.deep_view()
                    == spec_structure(t),
                Err(e) => xml_tree_of(structure@) is None && e == Error::Xml,
            },
    {
        let root = match parse_xml(structure) {
            Ok(root) => root,
            Err(e) => {
                return Err(e);
            },
        };
        Ok(Self::from_xml(&root))
    }

    /// Decodes a parsed document-structure part.
    pub fn from_xml(root: &XmlElem) -> (r: DocumentStructure)
        ensures
            r.outline.deep_view() == spec_structure(root.deep_view()),
    {
        let mut outline: Option<Outline> = None;
        let ghost t = root.deep_view();
        if !root.has_name(ns_doc_struct_str(), "DocumentStructure") {
            return DocumentStructure { outline };
        }
        proof {
            lemma_trees_of_index(root.children@);
            assert(t.children.take(0) =~= Seq::<XmlTree>::empty());
        }
        let n = root.children.len();
        for i in 0..n
            invariant
                n == root.children@.len(),
                t == root.deep_view(),
                t.children == trees_of(root.children@),
                t.children.len() == n,
                forall|j: int|
                    0 <= j < n ==> t.children[j] == #[trigger] root.children@[j].deep_view(),
                outline.deep_view() == spec_last_outline(t.children.take(i as int)),
        {
            let child = &root.children[i];
            proof {
                assert(t.children.take(i + 1).drop_last() =~= t.children.take(i as int));
                assert(t.children.take(i + 1).last() == t.children[i as int]);
            }
            if child.has_name(ns_doc_struct_str(), "DocumentStructure.Outline") {
                let ghost inner = t.children[i as int].children;
                proof {
                    lemma_trees_of_index(child.children@);
                    assert(inner.take(0) =~= Seq::<XmlTree>::empty());
                }
                let m = child.children.len();
                let mut found: Option<Outline> = None;
                for k in 0..m
                    invariant
                        m == child.children@.len(),
                        inner == t.children[i as int].children,
                        inner == trees_of(child.children@),
                        inner.len() == m,
                        forall|j: int|
                            0 <= j < m ==> inner[j] == #[trigger] child.children@[j].deep_view(),
                        found.deep_view() == spec_last_doc_outline(inner.take(k as int)),
                {
                    let doc_outline = &child.children[k];
                    proof {
                        assert(inner.take(k + 1).drop_last() =~= inner.take(k as int));
                        assert(inner.take(k + 1).last() == inner[k as int]);
                    }
                    if doc_outline.has_name(ns_doc_struct_str(), "DocumentOutline") {
                        found = Some(Self::decode_outline(doc_outline));
                    }
                }
                proof {
                    assert(inner.take(m as int) =~= inner);
                }
                if found.is_some() {
                    outline = found;
                }
            }
        }
        proof {
            assert(t.children.take(n as int) =~= t.children);
        }
        DocumentStructure { outline }
    }

    /// Decodes the entries of one `DocumentOutline` element.
    fn decode_outline(node: &XmlElem) -> (r: Outline)
        ensures
            r.deep_view() == spec_outline_entries(node.deep_view().children),
    {
        let mut entries: Vec<OutlineEntry> = Vec::new();
        let ghost cs = node.deep_view().children;
        proof {
            lemma_trees_of_index(node.children@);
            assert(entries.deep_view() =~= Seq::<OutlineEntryModel>::empty());
            assert(cs.take(0) =~= Seq::<XmlTree>::empty());
        }
        let n = node.children.len();
        for i in 0..n
            invariant
                n == node.children@.len(),
                cs == node.deep_view().children,
                cs == trees_of(node.children@),
                cs.len() == n,
                forall|j: int|
                    0 <= j < n ==> cs[j] == #[trigger] node.children@[j].deep_view(),
                entries.deep_view() == spec_outline_entries(cs.take(i as int)),
        {
            let child = &node.children[i];
            let ghost entries0 = entries.deep_view();
            proof {
                assert(cs.take(i + 1).drop_last() =~= cs.take(i as int));
                assert(cs.take(i + 1).last() == cs[i as int]);
            }
            if child.has_name(ns_doc_struct_str(), "OutlineEntry") {
                let entry = OutlineEntry {
                    level: child.attribute("OutlineLevel"),
                    description: child.attribute("Description"),
                    target: child.attribute("OutlineTarget"),
                };
                let ghost entryv = entry.deep_view();
                entries.push(entry);
                proof {
                    assert(entries.deep_view() =~= entries0.push(entryv));
                    assert(spec_outline_entries(cs.take(i + 1)) =~= entries0.push(entryv));
                }
            }
        }
        proof {
            assert(cs.take(n as int) =~= cs);
        }
        Outline { entries }
    }
}

/// An optional attribute whose mere presence sets a property.
pub open spec fn unit_attr(o: Option<Seq<char>>) -> Option<()> {
    match o {
        Some(_) => Some(()),
        None => None,
    }
}

/// The brush a paint element resolves to: the first recognized brush child
/// wins, and no recognized brush child is the one structural failure.
pub open spec fn spec_brush(cs: Seq<XmlTree>) -> Option<Brush>
    decreases cs.len(),
{
    if cs.len() == 0 {
        None
    } else if has_xps_name(cs[0], "ImageBrush"@) {
        Some(Brush::Image)
    } else if has_xps_name(cs[0], "LinearGradientBrush"@) {
        Some(Brush::LinearGradient)
    } else if has_xps_name(cs[0], "RadialGradientBrush"@) {
        Some(Brush::RadialGradient)
    } else if has_xps_name(cs[0], "SolidColorBrush"@) {
        Some(Brush::SolidColor)
    } else if has_xps_name(cs[0], "VisualBrush"@) {
        Some(Brush::Visual)
    } else {
        spec_brush(cs.drop_first())
    }
}

/// Resolves the brush of a paint element: the first recognized brush child
/// in document order.
pub fn parse_brush(node: &XmlElem) -> (r: Result<Brush, Error>)
    ensures
        match r {
            Ok(b) => spec_brush(node.deep_view().children) == Some(b),
            Err(e) => spec_brush(node.deep_view().children) is None && e == Error::Xps(
                ParseError::MissingBrush,
            ),
        },
{
    let ghost cs = node.deep_view().children;
    proof {
        lemma_trees_of_index(node.children@);
        assert(cs.skip(0) =~= cs);
    }
    let n = node.children.len();
    for i in 0..n
        invariant
            n == node.children@.len(),
            cs == node.deep_view().children,
            cs == trees_of(node.children@),
            cs.len() == n,
            forall|j: int| 0 <= j < n ==> cs[j] == #[trigger] node.children@[j].deep_view(),
            spec_brush(cs) == spec_brush(cs.skip(i as int)),
    {
        proof {
            assert(cs.skip(i as int).drop_first() =~= cs.skip(i + 1));
            assert(cs.skip(i as int)[0] == cs[i as int]);
        }
        let c = &node.children[i];
        if has_xps_tag_name(c, "ImageBrush") {
            return Ok(Brush::Image);
        } else if has_xps_tag_name(c, "LinearGradientBrush") {
            return Ok(Brush::LinearGradient);
        } else if has_xps_tag_name(c, "RadialGradientBrush") {
            return Ok(Brush::RadialGradient);
        } else if has_xps_tag_name(c, "SolidColorBrush") {
            return Ok(Brush::SolidColor);
        } else if has_xps_tag_name(c, "VisualBrush") {
            return Ok(Brush::Visual);
        }
    }
    proof {
        assert(cs.skip(n as int) =~= Seq::<XmlTree>::empty());
    }
    Err(Error::Xps(ParseError::MissingBrush))
}

/// Whether the element bears one of three paint-property tags.
pub open spec fn needs_brush(t: XmlTree, a: Seq<char>, b: Seq<char>, c: Seq<char>) -> bool {
    has_xps_name(t, a) || has_xps_name(t, b) || has_xps_name(t, c)
}

/// Whether every paint-property child with one of the three tags holds a
/// recognized brush.
pub open spec fn spec_paint_props_ok(
    cs: Seq<XmlTree>,
    a: Seq<char>,
    b: Seq<char>,
    c: Seq<char>,
) -> bool {
    forall|i: int|
        0 <= i < cs.len() ==> (needs_brush(#[trigger] cs[i], a, b, c) ==> spec_brush(cs[i].children)
            is Some)
}

/// Checks the paint-property children bearing one of three tags; the first
/// one without a recognized brush fails the decode.
fn check_paint_props(node: &XmlElem, a: &str, b: &str, c: &str) -> (r: Result<(), Error>)
    ensures
        match r {
            Ok(_) => spec_paint_props_ok(node.deep_view().children, a@, b@, c@),
            Err(e) => !spec_paint_props_ok(node.deep_view().children, a@, b@, c@) && e
                == Error::Xps(ParseError::MissingBrush),
        },
{
    let ghost cs = node.deep_view().children;
    proof {
        lemma_trees_of_index(node.children@);
    }
    let n = node.children.len();
    for i in 0..n
        invariant
            n == node.children@.len(),
            cs == node.deep_view().children,
            cs == trees_of(node.children@),
            cs.len() == n,
            forall|j: int| 0 <= j < n ==> cs[j] == #[trigger] node.children@[j].deep_view(),
            forall|j: int|
                0 <= j < i ==> (needs_brush(#[trigger] cs[j], a@, b@, c@) ==> spec_brush(
                    cs[j].children,
                ) is Some),
    {
        let child = &node.children[i];
        if has_xps_tag_name(child, a) || has_xps_tag_name(child, b) || has_xps_tag_name(child, c) {
            match parse_brush(child) {
                Ok(_) => {},
                Err(e) => {
                    return Err(e);
                },
            }
        }
    }
    Ok(())
}

/// What a `Path` element decodes to, or `None` on its one structural
/// failure: a paint-property child without a recognized brush.
pub open spec fn spec_path(t: XmlTree) -> Option<PathModel> {
    if spec_paint_props_ok(t.children, "Path.Fill"@, "Path.Stroke"@, "Path.OpacityMask"@) {
        Some(
            PathModel {
                name: attr_in(t.attrs, "Name"@),
                xml_lang: None,
                fill: unit_attr(attr_in(t.attrs, "Fill"@)),
                render_transform: match attr_in(t.attrs, "RenderTransform"@) {
                    Some(s) => spec_parse_transform(s),
                    None => None,
                },
                clip: unit_attr(attr_in(t.attrs, "Clip"@)),
                opacity: match attr_in(t.attrs, "Opacity"@) {
                    Some(s) => spec_parse_scalar(s),
                    None => None,
                },
                opacity_mask: unit_attr(attr_in(t.attrs, "OpacityMask"@)),
                stroke: unit_attr(attr_in(t.attrs, "Stroke"@)),
                stroke_dash_array: unit_attr(attr_in(t.attrs, "StrokeDashArray"@)),
                stroke_dash_offset: unit_attr(attr_in(t.attrs, "StrokeDashOffset"@)),
                stroke_end_line_cap: unit_attr(attr_in(t.attrs, "StrokeEndLineCap"@)),
                stroke_start_line_cap: unit_attr(attr_in(t.attrs, "StrokeStartLineCap"@)),
                stroke_line_join: unit_attr(attr_in(t.attrs, "StrokeLineJoin"@)),
                stroke_miter_limit: None,
                stroke_thickness: None,
                navigate_uri: None,
                data: attr_in(t.attrs, "Data"@),
            },
        )
    } else {
        None
    }
}

/// Decodes a `Path` element.
pub fn parse_path(node: &XmlElem) -> (r: Result<Path, Error>)
    ensures
        match r {
            Ok(p) => spec_path(node.deep_view()) == Some(p.deep_view()),
            Err(e) => spec_path(node.deep_view()) is None && e == Error::Xps(
                ParseError::MissingBrush,
            ),
        },
{
    match check_paint_props(node, "Path.Fill", "Path.Stroke", "Path.OpacityMask") {
        Ok(_) => {},
        Err(e) => {
            return Err(e);
        },
    }
    let p = Path {
        name: node.attribute("Name"),
        xml_lang: None,
        fill: match node.attribute("Fill") {
            Some(_) => Some(Fill {  }),
            None => None,
        },
        render_transform: match node.attribute("RenderTransform") {
            Some(s) => RenderTransform::parse(s.as_str()),
            None => None,
        },
        clip: match node.attribute("Clip") {
            Some(_) => Some(Clip {  }),
            None => None,
        },
        opacity: match node.attribute("Opacity") {
            Some(s) => Opacity::parse(s.as_str()),
            None => None,
        },
        opacity_mask: match node.attribute("OpacityMask") {
            Some(_) => Some(OpacityMask {  }),
            None => None,
        },
        stroke: match node.attribute("Stroke") {
            Some(_) => Some(Stroke {  }),
            None => None,
        },
        stroke_dash_array: match node.attribute("StrokeDashArray") {
            Some(_) => Some(StrokeDashArray {  }),
            None => None,
        },
        stroke_dash_offset: match node.attribute("StrokeDashOffset") {
            Some(_) => Some(StrokeDashOffset {  }),
            None => None,
        },
        stroke_end_line_cap: match node.attribute("StrokeEndLineCap") {
            Some(_) => Some(StrokeEndLineCap {  }),
            None => None,
        },
        stroke_start_line_cap: match node.attribute("StrokeStartLineCap") {
            Some(_) => Some(StrokeStartLineCap {  }),
            None => None,
        },
        stroke_line_join: match node.attribute("StrokeLineJoin") {
            Some(_) => Some(StrokeLineJoin {  }),
            None => None,
        },
        stroke_miter_limit: None,
        stroke_thickness: None,
        navigate_uri: None,
        data: node.attribute("Data"),
    };
    Ok(p)
}

/// What a `Glyphs` element decodes to, or `None` on a paint-property child
/// without a recognized brush.
pub open spec fn spec_glyphs(t: XmlTree) -> Option<GlyphsModel> {
    if spec_paint_props_ok(t.children, "Glyphs.Fill"@, "Glyphs.OpacityMask"@, "Glyphs.OpacityMask"@) {
        Some(
            GlyphsModel {
                name: attr_in(t.attrs, "Name"@),
                xml_lang: None,
                origin: (
                    match attr_in(t.attrs, "OriginX"@) {
                        Some(s) => match spec_parse_scalar(s) {
                            Some(v) => v,
                            None => 0,
                        },
                        None => 0,
                    },
                    match attr_in(t.attrs, "OriginY"@) {
                        Some(s) => match spec_parse_scalar(s) {
                            Some(v) => v,
                            None => 0,
                        },
                        None => 0,
                    },
                ),
                font_uri: match attr_in(t.attrs, "FontUri"@) {
                    Some(u) => u,
                    None => Seq::empty(),
                },
                font_rendering_em_size: match attr_in(t.attrs, "FontRenderingEmSize"@) {
                    Some(s) => spec_parse_size(s),
                    None => 0,
                },
                fill: unit_attr(attr_in(t.attrs, "Fill"@)),
                render_transform: match attr_in(t.attrs, "RenderTransform"@) {
                    Some(s) => spec_parse_transform(s),
                    None => None,
                },
                clip: unit_attr(attr_in(t.attrs, "Clip"@)),
                opacity: match attr_in(t.attrs, "Opacity"@) {
                    Some(s) => spec_parse_scalar(s),
                    None => None,
                },
                opacity_mask: unit_attr(attr_in(t.attrs, "OpacityMask"@)),
                is_sideways: match attr_in(t.attrs, "IsSideways"@) {
                    Some(s) => spec_parse_bool(s),
                    None => None,
                },
                indices: match attr_in(t.attrs, "Indices"@) {
                    Some(s) => spec_parse_bool(s),
                    None => None,
                },
                unicode_string: match attr_in(t.attrs, "UnicodeString"@) {
                    Some(s) => spec_parse_bool(s),
                    None => None,
                },
                style_simulations: match attr_in(t.attrs, "StyleSimulations"@) {
                    Some(s) => spec_parse_bool(s),
                    None => None,
                },
                edge_mode: None,
                navigate_uri: unit_attr(attr_in(t.attrs, "FixedPage.NavigateUri"@)),
            },
        )
    } else {
        None
    }
}

/// Decodes a `Glyphs` element.
pub fn parse_glyphs(node: &XmlElem) -> (r: Result<Glyphs, Error>)
    ensures
        match r {
            Ok(g) => spec_glyphs(node.deep_view()) == Some(g.deep_view()),
            Err(e) => spec_glyphs(node.deep_view()) is None && e == Error::Xps(
                ParseError::MissingBrush,
            ),
        },
{
    match check_paint_props(node, "Glyphs.Fill", "Glyphs.OpacityMask", "Glyphs.OpacityMask") {
        Ok(_) => {},
        Err(e) => {
            return Err(e);
        },
    }
    let origin_x = match node.attribute("OriginX") {
        Some(s) => match Scalar::parse(s.as_str()) {
            Some(v) => v,
            None => Scalar::zero(),
        },
        None => Scalar::zero(),
    };
    let origin_y = match node.attribute("OriginY") {
        Some(s) => match Scalar::parse(s.as_str()) {
            Some(v) => v,
            None => Scalar::zero(),
        },
        None => Scalar::zero(),
    };
    let g = Glyphs {
        name: node.attribute("Name"),
        xml_lang: None,
        origin: (origin_x, origin_y),
        font_uri: match node.attribute("FontUri") {
            Some(u) => u,
            None => String::new(),
        },
        font_rendering_em_size: match node.attribute("FontRenderingEmSize") {
            Some(s) => scalar::parse_size(s.as_str()),
            None => Scalar::zero(),
        },
        fill: match node.attribute("Fill") {
            Some(_) => Some(Fill {  }),
            None => None,
        },
        render_transform: match node.attribute("RenderTransform") {
            Some(s) => RenderTransform::parse(s.as_str()),
            None => None,
        },
        clip: match node.attribute("Clip") {
            Some(_) => Some(Clip {  }),
            None => None,
        },
        opacity: match node.attribute("Opacity") {
            Some(s) => Opacity::parse(s.as_str()),
            None => None,
        },
        opacity_mask: match node.attribute("OpacityMask") {
            Some(_) => Some(OpacityMask {  }),
            None => None,
        },
        is_sideways: match node.attribute("IsSideways") {
            Some(s) => IsSideways::parse(s.as_str()),
            None => None,
        },
        indices: match node.attribute("Indices") {
            Some(s) => Indices::parse(s.as_str()),
            None => None,
        },
        unicode_string: match node.attribute("UnicodeString") {
            Some(s) => UnicodeString::parse(s.as_str()),
            None => None,
        },
        style_simulations: match node.attribute("StyleSimulations") {
            Some(s) => StyleSimulations::parse(s.as_str()),
            None => None,
        },
        edge_mode: None,
        navigate_uri: match node.attribute("FixedPage.NavigateUri") {
            Some(_) => Some(crate::renderer::NavigateUri {  }),
            None => None,
        },
    };
    Ok(g)
}

/// What a `Canvas` element's own properties decode to, children apart, or
/// `None` on an opacity-mask child without a recognized brush.
pub open spec fn spec_canvas_props(t: XmlTree) -> Option<CanvasModel> {
    if spec_paint_props_ok(
        t.children,
        "Canvas.OpacityMask"@,
        "Canvas.OpacityMask"@,
        "Canvas.OpacityMask"@,
    ) {
        Some(
            CanvasModel {
                name: attr_in(t.attrs, "Name"@),
                xml_lang: None,
                render_transform: match attr_in(t.attrs, "RenderTransform"@) {
                    Some(s) => spec_parse_transform(s),
                    None => None,
                },
                clip: unit_attr(attr_in(t.attrs, "Clip"@)),
                opacity: match attr_in(t.attrs, "Opacity"@) {
                    Some(s) => spec_parse_scalar(s),
                    None => None,
                },
                opacity_mask: unit_attr(attr_in(t.attrs, "OpacityMask"@)),
                edge_mode: unit_attr(attr_in(t.attrs, "RenderOptions.EdgeMode"@)),
                navigate_uri: unit_attr(attr_in(t.attrs, "FixedPage.NavigateUri"@)),
                children: Seq::empty(),
            },
        )
    } else {
        None
    }
}

/// Decodes a `Canvas` element's own properties; its children are decoded by
/// the tree walk.
pub fn parse_canvas(node: &XmlElem) -> (r: Result<Canvas, Error>)
    ensures
        match r {
            Ok(c) => spec_canvas_props(node.deep_view()) == Some(c.deep_view()) && c.children@.len()
                == 0,
            Err(e) => spec_canvas_props(node.deep_view()) is None && e == Error::Xps(
                ParseError::MissingBrush,
            ),
        },
{
    match check_paint_props(node, "Canvas.OpacityMask", "Canvas.OpacityMask",
        "Canvas.OpacityMask") {
        Ok(_) => {},
        Err(e) => {
            return Err(e);
        },
    }
    let c = Canvas {
        name: node.attribute("Name"),
        xml_lang: None,
        render_transform: match node.attribute("RenderTransform") {
            Some(s) => RenderTransform::parse(s.as_str()),
            None => None,
        },
        clip: match node.attribute("Clip") {
            Some(_) => Some(Clip {  }),
            None => None,
        },
        opacity: match node.attribute("Opacity") {
            Some(s) => Opacity::parse(s.as_str()),
            None => None,
        },
        opacity_mask: match node.attribute("OpacityMask") {
            Some(_) => Some(OpacityMask {  }),
            None => None,
        },
        edge_mode: match node.attribute("RenderOptions.EdgeMode") {
            Some(_) => Some(crate::renderer::EdgeMode {  }),
            None => None,
        },
        navigate_uri: match node.attribute("FixedPage.NavigateUri") {
            Some(_) => Some(crate::renderer::NavigateUri {  }),
            None => None,
        },
        children: Vec::new(),
    };
    proof {
        assert(nodes_of(c.children@) =~= Seq::<NodeModel>::empty());
    }
    Ok(c)
}

/// The outcome of decoding one element of page content.
pub enum DecodedChild {
    /// The element is no recognized shape and is skipped.
    Skipped,
    /// The element is a recognized shape whose decode fails.
    Failed,
    /// The element decodes to this node.
    Node(NodeModel),
}

/// What one child element of page content decodes to.
pub open spec fn spec_child_node(t: XmlTree) -> DecodedChild
    decreases t,
{
    if has_xps_name(t, "Path"@) {
        match spec_path(t) {
            Some(p) => DecodedChild::Node(NodeModel::Path(p)),
            None => DecodedChild::Failed,
        }
    } else if has_xps_name(t, "Glyphs"@) {
        match spec_glyphs(t) {
            Some(g) => DecodedChild::Node(NodeModel::Glyphs(g)),
            None => DecodedChild::Failed,
        }
    } else if has_xps_name(t, "Canvas"@) {
        match spec_canvas_props(t) {
            Some(c) => match spec_render_children(t.children) {
                Some(kids) => DecodedChild::Node(
                    NodeModel::Canvas(CanvasModel { children: kids, ..c }),
                ),
                None => DecodedChild::Failed,
            },
            None => DecodedChild::Failed,
        }
    } else {
        DecodedChild::Skipped
    }
}

/// The nodes the recognized children of an element decode to, in document
/// order, or `None` when one of them fails.
pub open spec fn spec_render_children(cs: Seq<XmlTree>) -> Option<Seq<NodeModel>>
    decreases cs,
{
    if cs.len() == 0 {
        Some(Seq::empty())
    } else {
        match spec_render_children(cs.drop_last()) {
            None => None,
            Some(ns) => match spec_child_node(cs.last()) {
                DecodedChild::Skipped => Some(ns),
                DecodedChild::Failed => None,
                DecodedChild::Node(n) => Some(ns.push(n)),
            },
        }
    }
}

/// A failed prefix fails the whole decode.
pub proof fn lemma_render_children_none(cs: Seq<XmlTree>, i: int)
    requires
        0 <= i <= cs.len(),
        spec_render_children(cs.take(i)) is None,
    ensures
        spec_render_children(cs) is None,
    decreases cs.len() - i,
{
    if i < cs.len() {
        assert(cs.take(i + 1).drop_last() =~= cs.take(i));
        lemma_render_children_none(cs, i + 1);
    } else {
        assert(cs.take(i) =~= cs);
    }
}

/// Every node the decoder yields is well formed and is no root.
pub proof fn lemma_decoded_children_wf(cs: Seq<XmlTree>)
    ensures
        spec_render_children(cs) matches Some(ns) ==> forall|i: int|
            0 <= i < ns.len() ==> !(#[trigger] ns[i] is Root) && wf_node(ns[i]),
    decreases cs, 1int,
{
    if cs.len() > 0 {
        lemma_decoded_children_wf(cs.drop_last());
        lemma_decoded_child_wf(cs.last());
    }
}

/// A node decoded from one element is well formed and is no root.
pub proof fn lemma_decoded_child_wf(t: XmlTree)
    ensures
        spec_child_node(t) matches DecodedChild::Node(n) ==> !(n is Root) && wf_node(n),
    decreases t, 2int,
{
    if has_xps_name(t, "Path"@) {
    } else if has_xps_name(t, "Glyphs"@) {
    } else if has_xps_name(t, "Canvas"@) {
        lemma_decoded_children_wf(t.children);
    }
}

/// Decodes the recognized children of an element and appends their nodes to
/// a branching node of the render tree.
pub fn parse_render_node(xml_node: &XmlElem, render_node: &mut RenderNode) -> (r: Result<
    (),
    Error,
>)
    requires
        *old(render_node) is Root || *old(render_node) is Canvas,
    ensures
        match r {
            Ok(_) => spec_render_children(xml_node.deep_view().children) matches Some(ns) && {
                &&& *old(render_node) is Root ==> *final(render_node) is Root && nodes_of(
                    (*final(render_node))->Root_0@,
                ) == nodes_of((*old(render_node))->Root_0@) + ns
                &&& *old(render_node) is Canvas ==> *final(render_node) is Canvas && nodes_of(
                    (*final(render_node))->Canvas_0.children@,
                ) == nodes_of((*old(render_node))->Canvas_0.children@) + ns && same_canvas_props(
                    (*final(render_node))->Canvas_0,
                    (*old(render_node))->Canvas_0,
                )
            },
            Err(e) => spec_render_children(xml_node.deep_view().children) is None && e
                == Error::Xps(ParseError::MissingBrush) && (*final(render_node) is Root <==> *old(
                render_node,
            ) is Root) && (*final(render_node) is Root || *final(render_node) is Canvas) && (*old(
                render_node,
            ) is Canvas ==> same_canvas_props(
                (*final(render_node))->Canvas_0,
                (*old(render_node))->Canvas_0,
            )) && nodes_of(spec_branch_children(*old(render_node))).is_prefix_of(
                nodes_of(spec_branch_children(*final(render_node))),
            ),
        },
    decreases xml_node,
{
    let ghost cs = xml_node.deep_view().children;
    let ghost old_children = if *render_node is Root {
        (*render_node)->Root_0@
    } else {
        (*render_node)->Canvas_0.children@
    };
    proof {
        lemma_trees_of_index(xml_node.children@);
        assert(cs.take(0) =~= Seq::<XmlTree>::empty());
        assert(nodes_of(old_children) + Seq::<NodeModel>::empty() =~= nodes_of(old_children));
    }
    let n = xml_node.children.len();
    for i in 0..n
        invariant
            n == xml_node.children@.len(),
            cs == xml_node.deep_view().children,
            cs == trees_of(xml_node.children@),
            cs.len() == n,
            forall|j: int| 0 <= j < n ==> cs[j] == #[trigger] xml_node.children@[j].deep_view(),
            *old(render_node) is Root || *old(render_node) is Canvas,
            old_children == if *old(render_node) is Root {
                (*old(render_node))->Root_0@
            } else {
                (*old(render_node))->Canvas_0.children@
            },
            *render_node is Root <==> *old(render_node) is Root,
            *render_node is Root || *render_node is Canvas,
            *render_node is Canvas ==> same_canvas_props(
                (*render_node)->Canvas_0,
                (*old(render_node))->Canvas_0,
            ),
            spec_render_children(cs.take(i as int)) matches Some(ns) && nodes_of(
                if *render_node is Root {
                    (*render_node)->Root_0@
                } else {
                    (*render_node)->Canvas_0.children@
                },
            ) == nodes_of(old_children) + ns,
    {
        let child = &xml_node.children[i];
        let ghost t = cs[i as int];
        let ghost before = if *render_node is Root {
            (*render_node)->Root_0@
        } else {
            (*render_node)->Canvas_0.children@
        };
        proof {
            assert(cs.take(i + 1).drop_last() =~= cs.take(i as int));
            assert(cs.take(i + 1).last() == t);
        }
        let ghost ns = spec_render_children(cs.take(i as int)).unwrap();
        if has_xps_tag_name(child, "Path") {
            match parse_path(child) {
                Ok(p) => {
                    let node = RenderNode::Path(p);
                    let ghost nodeg = node;
                    let ghost nv = node.deep_view();
                    proof {
                        assert(spec_child_node(t) == DecodedChild::Node(nv));
                        assert(spec_render_children(cs.take(i + 1)) == Some(ns.push(nv)));
                    }
                    render_node.append(node);
                    proof {
                        lemma_nodes_of_push(before, nodeg);
                        assert(nodes_of(old_children) + ns.push(nv) =~= (nodes_of(old_children)
                            + ns).push(nv));
                    }
                },
                Err(e) => {
                    proof {
                        assert(spec_child_node(t) is Failed);
                        assert(spec_render_children(cs.take(i + 1)) is None);
                        lemma_render_children_none(cs, i + 1);
                        assert((nodes_of(old_children) + ns).subrange(
                            0,
                            nodes_of(old_children).len() as int,
                        ) =~= nodes_of(old_children));
                    }
                    return Err(e);
                },
            }
        } else if has_xps_tag_name(child, "Glyphs") {
            match parse_glyphs(child) {
                Ok(g) => {
                    let node = RenderNode::Glyphs(g);
                    let ghost nodeg = node;
                    let ghost nv = node.deep_view();
                    proof {
                        assert(spec_child_node(t) == DecodedChild::Node(nv));
                        assert(spec_render_children(cs.take(i + 1)) == Some(ns.push(nv)));
                    }
                    render_node.append(node);
                    proof {
                        lemma_nodes_of_push(before, nodeg);
                        assert(nodes_of(old_children) + ns.push(nv) =~= (nodes_of(old_children)
                            + ns).push(nv));
                    }
                },
                Err(e) => {
                    proof {
                        assert(spec_child_node(t) is Failed);
                        assert(spec_render_children(cs.take(i + 1)) is None);
                        lemma_render_children_none(cs, i + 1);
                        assert((nodes_of(old_children) + ns).subrange(
                            0,
                            nodes_of(old_children).len() as int,
                        ) =~= nodes_of(old_children));
                    }
                    return Err(e);
                },
            }
        } else if has_xps_tag_name(child, "Canvas") {
            match parse_canvas(child) {
                Ok(c) => {
                    let ghost cd = c.deep_view();
                    let ghost empty_kids = c.children@;
                    let mut canvas_node = RenderNode::Canvas(c);
                    match parse_render_node(child, &mut canvas_node) {
                        Ok(_) => {
                            let ghost kids = spec_render_children(t.children).unwrap();
                            let ghost nodeg = canvas_node;
                            let ghost nv = canvas_node.deep_view();
                            proof {
                                assert(nodes_of(empty_kids) =~= Seq::<NodeModel>::empty());
                                assert(nodes_of(canvas_node->Canvas_0.children@) =~= kids);
                                assert(canvas_node->Canvas_0.deep_view().name == cd.name);
                                assert(canvas_node->Canvas_0.deep_view() == CanvasModel {
                                    children: kids,
                                    ..cd
                                });
                                assert(spec_child_node(t) == DecodedChild::Node(nv));
                                assert(spec_render_children(cs.take(i + 1)) == Some(ns.push(nv)));
                            }
                            render_node.append(canvas_node);
                            proof {
                                lemma_nodes_of_push(before, nodeg);
                                assert(nodes_of(old_children) + ns.push(nv) =~= (nodes_of(
                                    old_children,
                                ) + ns).push(nv));
                            }
                        },
                        Err(e) => {
                            proof {
                                assert(spec_child_node(t) is Failed);
                                assert(spec_render_children(cs.take(i + 1)) is None);
                                lemma_render_children_none(cs, i + 1);
                                assert((nodes_of(old_children) + ns).subrange(
                                    0,
                                    nodes_of(old_children).len() as int,
                                ) =~= nodes_of(old_children));
                            }
                            return Err(e);
                        },
                    }
                },
                Err(e) => {
                    proof {
                        assert(spec_child_node(t) is Failed);
                        assert(spec_render_children(cs.take(i + 1)) is None);
                        lemma_render_children_none(cs, i + 1);
                        assert((nodes_of(old_children) + ns).subrange(
                            0,
                            nodes_of(old_children).len() as int,
                        ) =~= nodes_of(old_children));
                    }
                    return Err(e);
                },
            }
        } else {
            proof {
                assert(spec_child_node(t) is Skipped);
                assert(spec_render_children(cs.take(i + 1)) == Some(ns));
            }
        }
    }
    proof {
        assert(cs.take(n as int) =~= cs);
    }
    Ok(())
}

/// A page part: its own declared size and name, and its render tree.
#[derive(Debug)]
pub struct FixedPage {
    pub name: Option<String>,
    pub width: Option<Scalar>,
    pub height: Option<Scalar>,
    pub content_box: Option<ContentBox>,
    pub bleed_box: Option<BleedBox>,
    pub xml_lang: Option<String>,
    pub render_tree: RenderNode,
}

/// The mathematical value of a [`FixedPage`].
pub struct FixedPageModel {
    pub name: Option<Seq<char>>,
    pub width: Option<int>,
    pub height: Option<int>,
    pub content_box: Option<()>,
    pub bleed_box: Option<()>,
    pub xml_lang: Option<Seq<char>>,
    pub render_tree: NodeModel,
}

impl DeepView for FixedPage {
    type V = FixedPageModel;

    open spec fn deep_view(&self) -> FixedPageModel {
        FixedPageModel {
            name: self.name.deep_view(),
            width: match self.width {
                Some(w) => Some(w.micros as int),
                None => None,
            },
            height: match self.height {
                Some(h) => Some(h.micros as int),
                None => None,
            },
            content_box: self.content_box.deep_view(),
            bleed_box: self.bleed_box.deep_view(),
            xml_lang: self.xml_lang.deep_view(),
            render_tree: self.render_tree.deep_view(),
        }
    }
}

/// What a page part decodes to, or `None` on a paint-property child without
/// a recognized brush.  A root of any other name yields the empty page.
pub open spec fn spec_fixed_page(t: XmlTree) -> Option<FixedPageModel> {
    if has_xps_name(t, "FixedPage"@) {
        match spec_render_children(t.children) {
            Some(kids) => Some(
                FixedPageModel {
                    name: attr_in(t.attrs, "Name"@),
                    width: match attr_in(t.attrs, "Width"@) {
                        Some(w) => Some(spec_parse_size(w)),
                        None => None,
                    },
                    height: match attr_in(t.attrs, "Height"@) {
                        Some(h) => Some(spec_parse_size(h)),
                        None => None,
                    },
                    content_box: None,
                    bleed_box: None,
                    xml_lang: None,
                    render_tree: NodeModel::Root(kids),
                },
            ),
            None => None,
        }
    } else {
        Some(
            FixedPageModel {
                name: None,
                width: None,
                height: None,
                content_box: None,
                bleed_box: None,
                xml_lang: None,
                render_tree: NodeModel::Root(Seq::empty()),
            },
        )
    }
}

impl FixedPage {
    /// Parses a page part.
    pub fn parse(fixed_page: &str) -> (r: Result<FixedPage, Error>)
        ensures
            match r {
                Ok(p) => xml_tree_of(fixed_page@) matches Some(t) && spec_fixed_page(t) == Some(
                    p.deep_view(),
                ) && p.render_tree is Root && wf_node(p.deep_view().render_tree),
                Err(e) => (xml_tree_of(fixed_page@) is None && e == Error::Xml) || (xml_tree_of(
                    fixed_page@,
                ) matches Some(t) && spec_fixed_page(t) is None && e == Error::Xps(
                    ParseError::MissingBrush,
                )),
            },
    {
        let root = match parse_xml(fixed_page) {
            Ok(root) => root,
            Err(e) => {
                return Err(e);
            },
        };
        Self::from_xml(&root)
    }

    /// Decodes a parsed page part.
    pub fn from_xml(root: &XmlElem) -> (r: Result<FixedPage, Error>)
        ensures
            match r {
                Ok(p) => spec_fixed_page(root.deep_view()) == Some(p.deep_view()) && p.render_tree
                    is Root && wf_node(p.deep_view().render_tree),
                Err(e) => spec_fixed_page(root.deep_view()) is None && e == Error::Xps(
                    ParseError::MissingBrush,
                ),
            },
    {
        let ghost t = root.deep_view();
        let mut tree = RenderNode::Root(Vec::new());
        proof {
            assert(nodes_of(tree->Root_0@) =~= Seq::<NodeModel>::empty());
        }
        if !has_xps_tag_name(root, "FixedPage") {
            let p = FixedPage {
                name: None,
                width: None,
                height: None,
                content_box: None,
                bleed_box: None,
                xml_lang: None,
                render_tree: tree,
            };
            proof {
                assert(p.deep_view().render_tree == NodeModel::Root(Seq::<NodeModel>::empty()));
            }
            return Ok(p);
        }
        match parse_render_node(root, &mut tree) {
            Ok(_) => {},
            Err(e) => {
                return Err(e);
            },
        }
        let ghost kids = spec_render_children(t.children).unwrap();
        proof {
            assert(nodes_of(tree->Root_0@) =~= kids);
            lemma_decoded_children_wf(t.children);
        }
        let p = FixedPage {
            name: root.attribute("Name"),
            width: match root.attribute("Width") {
                Some(w) => Some(scalar::parse_size(w.as_str())),
                None => None,
            },
            height: match root.attribute("Height") {
                Some(h) => Some(scalar::parse_size(h.as_str())),
                None => None,
            },
            content_box: None,
            bleed_box: None,
            xml_lang: None,
            render_tree: tree,
        };
        proof {
            assert(p.deep_view().render_tree == NodeModel::Root(kids));
        }
        Ok(p)
    }
}

} // verus!
