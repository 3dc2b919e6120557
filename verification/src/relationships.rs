//! Relationship documents: typed maps from recognized relationship-kind URIs
//! to target part paths.
//!
//! Only a fixed set of kinds is recognized; the last relationship of a given
//! kind wins, and relationships of unrecognized kinds are dropped.

use vstd::prelude::*;

use crate::error::Error;
use crate::xml::{attr_in, parse_xml, str_eq, tree_has_name, trees_of, lemma_trees_of_index,
    XmlElem, XmlTree, xml_tree_of};

verus! {

/// The relationships namespace.
pub open spec fn ns_rels() -> Seq<char> {
    "http://schemas.openxmlformats.org/package/2006/relationships"@
}

fn ns_rels_str() -> (r: &'static str)
    ensures
        r@ == ns_rels(),
{
    "http://schemas.openxmlformats.org/package/2006/relationships"
}

/// The core-properties relationship kind.
pub open spec fn kind_core_properties() -> Seq<Seq<char>> {
    seq![
        "http://schemas.openxmlformats.org/package/2006/relationships/metadata/core-properties"@,
    ]
}

fn core_properties_str() -> (r: &'static str)
    ensures
        r@ == kind_core_properties()[0],
{
    "http://schemas.openxmlformats.org/package/2006/relationships/metadata/core-properties"
}

/// The thumbnail relationship kind.
pub open spec fn kind_thumbnail() -> Seq<Seq<char>> {
    seq!["http://schemas.openxmlformats.org/package/2006/relationships/metadata/thumbnail"@]
}

fn thumbnail_str() -> (r: &'static str)
    ensures
        r@ == kind_thumbnail()[0],
{
    "http://schemas.openxmlformats.org/package/2006/relationships/metadata/thumbnail"
}

/// The fixed-representation relationship kind: two historical URIs fill the
/// same slot.
pub open spec fn kind_fixed_representation() -> Seq<Seq<char>> {
    seq![
        "http://schemas.microsoft.com/xps/2005/06/fixedrepresentation"@,
        "http://schemas.openxps.org/oxps/v1.0/fixedrepresentation"@,
    ]
}

fn fixed_representation_str() -> (r: &'static str)
    ensures
        r@ == kind_fixed_representation()[0],
{
    "http://schemas.microsoft.com/xps/2005/06/fixedrepresentation"
}

fn oxps_fixed_representation_str() -> (r: &'static str)
    ensures
        r@ == kind_fixed_representation()[1],
{
    "http://schemas.openxps.org/oxps/v1.0/fixedrepresentation"
}

/// The document-structure relationship kind.
pub open spec fn kind_document_structure() -> Seq<Seq<char>> {
    seq!["http://schemas.microsoft.com/xps/2005/06/documentstructure"@]
}

fn document_structure_str() -> (r: &'static str)
    ensures
        r@ == kind_document_structure()[0],
{
    "http://schemas.microsoft.com/xps/2005/06/documentstructure"
}

/// The relationship children considered: the children of a well-named
/// `Relationships` root, and nothing of any other root.
pub open spec fn rels_children(t: XmlTree) -> Seq<XmlTree> {
    if tree_has_name(t, ns_rels(), "Relationships"@) {
        t.children
    } else {
        Seq::empty()
    }
}

/// Whether the element is a `Relationship` whose `Type` is one of the given
/// kind URIs.
pub open spec fn is_rel_of(t: XmlTree, kinds: Seq<Seq<char>>) -> bool {
    tree_has_name(t, ns_rels(), "Relationship"@) && match attr_in(t.attrs, "Type"@) {
        Some(ty) => kinds.contains(ty),
        None => false,
    }
}

/// The resolved target for a kind: the `Target` of the last relationship of
/// that kind, or `None` when there is none (or it has no `Target`).
pub open spec fn spec_rel_slot(children: Seq<XmlTree>, kinds: Seq<Seq<char>>) -> Option<Seq<char>>
    decreases children.len(),
{
    if children.len() == 0 {
        None
    } else if is_rel_of(children.last(), kinds) {
        attr_in(children.last().attrs, "Target"@)
    } else {
        spec_rel_slot(children.drop_last(), kinds)
    }
}

/// With exactly one relationship of a kind among the children, the resolved
/// slot for that kind is exactly that relationship's target.
pub proof fn lemma_unique_kind_resolves(children: Seq<XmlTree>, i: int, kinds: Seq<Seq<char>>)
    requires
        0 <= i < children.len(),
        is_rel_of(children[i], kinds),
        forall|j: int| 0 <= j < children.len() && j != i ==> !is_rel_of(#[trigger] children[j], kinds),
    ensures
        spec_rel_slot(children, kinds) == attr_in(children[i].attrs, "Target"@),
    decreases children.len(),
{
    if i + 1 == children.len() {
    } else {
        assert(children.drop_last()[i] == children[i]);
        lemma_unique_kind_resolves(children.drop_last(), i, kinds);
    }
}

/// With no relationship of a kind among the children, the resolved slot for
/// that kind is empty: unrecognized kinds never appear in the result.
pub proof fn lemma_absent_kind_resolves_none(children: Seq<XmlTree>, kinds: Seq<Seq<char>>)
    requires
        forall|j: int| 0 <= j < children.len() ==> !is_rel_of(#[trigger] children[j], kinds),
    ensures
        spec_rel_slot(children, kinds) is None,
    decreases children.len(),
{
    if children.len() > 0 {
        lemma_absent_kind_resolves_none(children.drop_last(), kinds);
    }
}

/// The package-level relationships: one optional target per recognized kind.
pub struct PackageRelationships {
    pub core_properties: Option<String>,
    pub thumbnail: Option<String>,
    pub fixed_representation: Option<String>,
}

/// The document-level relationships: only the document-structure kind is
/// recognized.
pub struct DocumentRelationships {
    pub structure: Option<String>,
}

impl PackageRelationships {
    /// Whether the fields hold exactly the resolved slots of the tree.
    pub open spec fn decodes(self, t: XmlTree) -> bool {
        &&& self.core_properties.deep_view() == spec_rel_slot(
            rels_children(t),
            kind_core_properties(),
        )
        &&& self.thumbnail.deep_view() == spec_rel_slot(rels_children(t), kind_thumbnail())
        &&& self.fixed_representation.deep_view() == spec_rel_slot(
            rels_children(t),
            kind_fixed_representation(),
        )
    }

    /// Parses a package relationship document.
    pub fn parse(rels: &str) -> (r: Result<PackageRelationships, Error>)
        ensures
            match r {
                Ok(p) => xml_tree_of(rels@) matches Some(t) && p.decodes(t),
                Err(e) => xml_tree_of(rels@) is None && e == Error::Xml,
            },
    {
        let root = match parse_xml(rels) {
            Ok(root) => root,
            Err(e) => {
                return Err(e);
            },
        };
        Ok(Self::from_xml(&root))
    }

    /// Resolves the recognized package relationship kinds of a parsed
    /// relationship document.
    pub fn from_xml(root: &XmlElem) -> (r: PackageRelationships)
        ensures
            r.decodes(root.deep_view()),
    {
        let mut r = PackageRelationships {
            core_properties: None,
            thumbnail: None,
            fixed_representation: None,
        };
        let ghost cs = rels_children(root.deep_view());
        if !root.has_name(ns_rels_str(), "Relationships") {
            return r;
        }
        proof {
            lemma_trees_of_index(root.children@);
            assert(cs.take(0) =~= Seq::<XmlTree>::empty());
        }
        let n = root.children.len();
        for i in 0..n
            invariant
                n == root.children@.len(),
                cs == rels_children(root.deep_view()),
                cs == trees_of(root.children@),
                cs.len() == n,
                forall|j: int| 0 <= j < n ==> cs[j] == #[trigger] root.children@[j].deep_view(),
                r.core_properties.deep_view() == spec_rel_slot(
                    cs.take(i as int),
                    kind_core_properties(),
                ),
                r.thumbnail.deep_view() == spec_rel_slot(cs.take(i as int), kind_thumbnail()),
                r.fixed_representation.deep_view() == spec_rel_slot(
                    cs.take(i as int),
                    kind_fixed_representation(),
                ),
        {
            let child = &root.children[i];
            let ghost t = cs[i as int];
            proof {
                assert(cs.take(i + 1).drop_last() =~= cs.take(i as int));
                assert(cs.take(i + 1).last() == t);
            }
            if child.has_name(ns_rels_str(), "Relationship") {
                if let Some(ty) = child.attribute("Type") {
                    if str_eq(ty.as_str(), core_properties_str()) {
                        r.core_properties = child.attribute("Target");
                    }
                    if str_eq(ty.as_str(), thumbnail_str()) {
                        r.thumbnail = child.attribute("Target");
                    }
                    if str_eq(ty.as_str(), fixed_representation_str()) || str_eq(
                        ty.as_str(),
                        oxps_fixed_representation_str(),
                    ) {
                        r.fixed_representation = child.attribute("Target");
                    }
                }
            }
        }
        proof {
            assert(cs.take(n as int) =~= cs);
        }
        r
    }
}

impl DocumentRelationships {
    /// Whether the field holds exactly the resolved structure slot of the
    /// tree.
    pub open spec fn decodes(self, t: XmlTree) -> bool {
        self.structure.deep_view() == spec_rel_slot(rels_children(t), kind_document_structure())
    }

    /// Parses a document relationship document.
    pub fn parse(rels: &str) -> (r: Result<DocumentRelationships, Error>)
        ensures
            match r {
                Ok(p) => xml_tree_of(rels@) matches Some(t) && p.decodes(t),
                Err(e) => xml_tree_of(rels@) is None && e == Error::Xml,
            },
    {
        let root = match parse_xml(rels) {
            Ok(root) => root,
            Err(e) => {
                return Err(e);
            },
        };
        Ok(Self::from_xml(&root))
    }

    /// Resolves the document-structure relationship of a parsed relationship
    /// document.
    pub fn from_xml(root: &XmlElem) -> (r: DocumentRelationships)
        ensures
            r.decodes(root.deep_view()),
    {
        let mut r = DocumentRelationships { structure: None };
        let ghost cs = rels_children(root.deep_view());
        if !root.has_name(ns_rels_str(), "Relationships") {
            return r;
        }
        proof {
            lemma_trees_of_index(root.children@);
            assert(cs.take(0) =~= Seq::<XmlTree>::empty());
        }
        let n = root.children.len();
        for i in 0..n
            invariant
                n == root.children@.len(),
                cs == rels_children(root.deep_view()),
                cs == trees_of(root.children@),
                cs.len() == n,
                forall|j: int| 0 <= j < n ==> cs[j] == #[trigger] root.children@[j].deep_view(),
                r.structure.deep_view() == spec_rel_slot(
                    cs.take(i as int),
                    kind_document_structure(),
                ),
        {
            let child = &root.children[i];
            let ghost t = cs[i as int];
            proof {
                assert(cs.take(i + 1).drop_last() =~= cs.take(i as int));
                assert(cs.take(i + 1).last() == t);
            }
            if child.has_name(ns_rels_str(), "Relationship") {
                if let Some(ty) = child.attribute("Type") {
                    let target = child.attribute("Target");
                    if str_eq(ty.as_str(), document_structure_str()) {
                        r.structure = target;
                    }
                }
            }
        }
        proof {
            assert(cs.take(n as int) =~= cs);
        }
        r
    }
}

} // verus!
