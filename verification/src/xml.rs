//! An owned, namespace-aware model of a parsed XML element tree.
//!
//! The markup decoder works entirely on this model; the one trusted entry
//! point is [`parse_xml`], which relies on `roxmltree` to turn a text into
//! the element tree.

use vstd::prelude::*;

use crate::error::Error;

verus! {

/// One attribute of an element: local name and value.
///
/// Attribute lookups in this format go by local name alone, so no namespace
/// is kept for attributes.
pub struct XmlAttr {
    pub name: String,
    pub value: String,
}

/// One node of the document, in document order.  An element carries its
/// namespace URI (if any), local name, attributes and children.  Text,
/// comment and processing-instruction nodes carry no expanded name, so they
/// come through as nameless, attribute-less nodes that no tag check matches.
pub struct XmlElem {
    pub ns: Option<String>,
    pub name: String,
    pub attrs: Vec<XmlAttr>,
    pub children: Vec<XmlElem>,
}

/// The mathematical value of an [`XmlAttr`].
pub struct XmlAttrModel {
    pub name: Seq<char>,
    pub value: Seq<char>,
}

/// The mathematical value of an [`XmlElem`]: the same tree over sequences.
pub struct XmlTree {
    pub ns: Option<Seq<char>>,
    pub name: Seq<char>,
    pub attrs: Seq<XmlAttrModel>,
    pub children: Seq<XmlTree>,
}

impl DeepView for XmlAttr {
    type V = XmlAttrModel;

    open spec fn deep_view(&self) -> XmlAttrModel {
        XmlAttrModel { name: self.name@, value: self.value@ }
    }
}

impl DeepView for XmlElem {
    type V = XmlTree;

    open spec fn deep_view(&self) -> XmlTree
        decreases self,
    {
        XmlTree {
            ns: self.ns.deep_view(),
            name: self.name@,
            attrs: self.attrs.deep_view(),
            children: trees_of(self.children@),
        }
    }
}

/// The mathematical values of a sequence of elements, in order.
pub open spec fn trees_of(s: Seq<XmlElem>) -> Seq<XmlTree>
    decreases s,
{
    if s.len() == 0 {
        Seq::empty()
    } else {
        seq![s[0].deep_view()] + trees_of(s.subrange(1, s.len() as int))
    }
}

/// Taking the values of a sequence of elements goes element by element.
pub proof fn lemma_trees_of_index(s: Seq<XmlElem>)
    ensures
        trees_of(s).len() == s.len(),
        forall|i: int| 0 <= i < s.len() ==> trees_of(s)[i] == #[trigger] s[i].deep_view(),
    decreases s.len(),
{
    if s.len() > 0 {
        let rest = s.subrange(1, s.len() as int);
        lemma_trees_of_index(rest);
        assert forall|i: int| 0 <= i < s.len() implies trees_of(s)[i] == #[trigger] s[i]
            .deep_view() by {
            if i > 0 {
                assert(rest[i - 1] == s[i]);
                let first = seq![s[0].deep_view()];
                assert(trees_of(s) == first + trees_of(rest));
                assert(first.len() == 1);
                assert((first + trees_of(rest))[i] == trees_of(rest)[i - 1]);
            }
        }
    }
}

/// The element tree that parsing a text yields, or `None` when the text is
/// not well-formed XML.  The outcome of parsing depends on the text alone.
pub uninterp spec fn xml_tree_of(text: Seq<char>) -> Option<XmlTree>;

/// Relies on `roxmltree::Document::parse`: well-formed XML parses into a
/// document whose root element, its attributes and its children are copied
/// here one for one; malformed XML is an error.
#[verifier::external_body]
pub fn parse_xml(text: &str) -> (r: Result<XmlElem, Error>)
    ensures
        match r {
            Ok(root) => xml_tree_of(text@) == Some(root.deep_view()),
            Err(e) => xml_tree_of(text@) is None && e == Error::Xml,
        },
{
    match roxmltree::Document::parse(text) {
        Ok(doc) => Ok(convert_node(doc.root_element())),
        Err(_) => Err(Error::Xml),
    }
}

/// Declares `roxmltree::Node`, the parsed document's node handle, so the
/// conversion below can take one; it stays opaque here.
#[verifier::external_type_specification]
#[verifier::external_body]
pub struct ExNode<'a, 'input>(roxmltree::Node<'a, 'input>)
where
    'input: 'a;

/// Relies on `roxmltree::Node`: copies one node of the parsed document,
/// keeping its namespace, local name, attribute names and values, and its
/// children, in document order.  A node with no tag name (text, a comment)
/// yields an empty namespace, name and attribute list.
#[verifier::external_body]
fn convert_node(n: roxmltree::Node<'_, '_>) -> XmlElem {
    XmlElem {
        ns: n.tag_name().namespace().map(String::from),
        name: String::from(n.tag_name().name()),
        attrs: n.attributes().map(
            |a| XmlAttr { name: String::from(a.name()), value: String::from(a.value()) },
        ).collect(),
        children: n.children().map(convert_node).collect(),
    }
}

/// Whether two texts hold the same characters.
pub fn str_eq(a: &str, b: &str) -> (r: bool)
    ensures
        r == (a@ == b@),
{
    let sa = String::from_str(a);
    let sb = String::from_str(b);
    sa == sb
}

/// The value of the first attribute with the given local name, if any.
pub open spec fn attr_in(attrs: Seq<XmlAttrModel>, name: Seq<char>) -> Option<Seq<char>>
    decreases attrs.len(),
{
    if attrs.len() == 0 {
        None
    } else if attrs[0].name == name {
        Some(attrs[0].value)
    } else {
        attr_in(attrs.drop_first(), name)
    }
}

/// Whether the element has the given namespace URI and local name.
pub open spec fn tree_has_name(t: XmlTree, ns: Seq<char>, local: Seq<char>) -> bool {
    t.ns == Some(ns) && t.name == local
}

impl XmlElem {
    /// Whether this element has the given namespace URI and local name.
    pub fn has_name(&self, ns: &str, local: &str) -> (r: bool)
        ensures
            r == tree_has_name(self.deep_view(), ns@, local@),
    {
        match &self.ns {
            Some(u) => str_eq(u.as_str(), ns) && str_eq(self.name.as_str(), local),
            None => false,
        }
    }

    /// The value of the first attribute with the given local name, if any.
    pub fn attribute(&self, name: &str) -> (r: Option<String>)
        ensures
            r.deep_view() == attr_in(self.deep_view().attrs, name@),
    {
        let ghost attrs = self.deep_view().attrs;
        proof {
            assert(attrs.skip(0) =~= attrs);
        }
        let n = self.attrs.len();
        for i in 0..n
            invariant
                n == self.attrs.len(),
                attrs == self.deep_view().attrs,
                attr_in(attrs, name@) == attr_in(attrs.skip(i as int), name@),
        {
            proof {
                assert(attrs.skip(i as int).drop_first() =~= attrs.skip(i + 1));
                assert(attrs.skip(i as int)[0] == attrs[i as int]);
            }
            if str_eq(self.attrs[i].name.as_str(), name) {
                return Some(self.attrs[i].value.clone());
            }
        }
        proof {
            assert(attrs.skip(n as int) =~= Seq::<XmlAttrModel>::empty());
        }
        None
    }
}

} // verus!
