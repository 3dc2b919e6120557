use rxps::error::{Error, ParseError};
use rxps::parts::{DocumentStructure, FixedDocument, FixedDocumentSequence, FixedPage};
use rxps::relationships::{DocumentRelationships, PackageRelationships};
use rxps::renderer::{RenderNode, RenderTransform};
use rxps::scalar::{parse_bool, parse_size, Scalar, SCALE};

const RELS_NS: &str = "http://schemas.openxmlformats.org/package/2006/relationships";
const XPS_NS: &str = "http://schemas.microsoft.com/xps/2005/06";
const OXPS_NS: &str = "http://schemas.openxps.org/oxps/v1.0";
const STRUCT_NS: &str = "http://schemas.microsoft.com/xps/2005/06/documentstructure";

#[test]
fn scalar_parses_integers() {
    assert_eq!(Scalar::parse("100").unwrap().micros, 100 * SCALE);
    assert_eq!(Scalar::parse("0").unwrap().micros, 0);
    assert_eq!(Scalar::parse("-42").unwrap().micros, -42 * SCALE);
    assert_eq!(Scalar::parse("+7").unwrap().micros, 7 * SCALE);
}

#[test]
fn scalar_parses_fractions() {
    assert_eq!(Scalar::parse("10.25").unwrap().micros, 10_250_000);
    assert_eq!(Scalar::parse(".5").unwrap().micros, 500_000);
    assert_eq!(Scalar::parse("5.").unwrap().micros, 5 * SCALE);
    assert_eq!(Scalar::parse("-0.125").unwrap().micros, -125_000);
    assert_eq!(Scalar::parse("1.2345678").unwrap().micros, 1_234_567);
}

#[test]
fn scalar_rejects_malformed_literals() {
    assert!(Scalar::parse("").is_none());
    assert!(Scalar::parse(".").is_none());
    assert!(Scalar::parse("abc").is_none());
    assert!(Scalar::parse("1e3").is_none());
    assert!(Scalar::parse("1.2.3").is_none());
    assert!(Scalar::parse("--5").is_none());
    assert!(Scalar::parse("1 0").is_none());
    assert!(Scalar::parse("9999999999999").is_none());
}

#[test]
fn size_resolves_negative_and_unparsable_to_zero() {
    assert_eq!(parse_size("-5").micros, 0);
    assert_eq!(parse_size("nonsense").micros, 0);
    assert_eq!(parse_size("").micros, 0);
    assert_eq!(parse_size("100").micros, 100 * SCALE);
    assert_eq!(parse_size("0.5").micros, 500_000);
}

#[test]
fn bool_attribute_is_exactly_true_or_false() {
    assert_eq!(parse_bool("true"), Some(true));
    assert_eq!(parse_bool("false"), Some(false));
    assert_eq!(parse_bool("True"), None);
    assert_eq!(parse_bool(""), None);
}

#[test]
fn transform_parses_six_fields() {
    let t = RenderTransform::parse("1,0,0,1,10,20").unwrap();
    assert_eq!(t.xx.micros, SCALE);
    assert_eq!(t.yx.micros, 0);
    assert_eq!(t.xy.micros, 0);
    assert_eq!(t.yy.micros, SCALE);
    assert_eq!(t.x0.micros, 10 * SCALE);
    assert_eq!(t.y0.micros, 20 * SCALE);
}

#[test]
fn transform_with_wrong_field_count_is_unset() {
    assert!(RenderTransform::parse("1,0,0,1,10").is_none());
    assert!(RenderTransform::parse("1,0,0,1,10,20,30").is_none());
    assert!(RenderTransform::parse("").is_none());
    assert!(RenderTransform::parse("1,0,0,x,10,20").is_none());
}

#[test]
fn package_relationships_resolve_each_recognized_kind() {
    let xml = format!(
        "<Relationships xmlns=\"{}\">\
         <Relationship Type=\"{}/metadata/core-properties\" Target=\"/docProps/core.xml\"/>\
         <Relationship Type=\"{}/metadata/thumbnail\" Target=\"/thumb.jpg\"/>\
         <Relationship Type=\"http://schemas.microsoft.com/xps/2005/06/fixedrepresentation\" Target=\"/FixedDocSeq.fdseq\"/>\
         <Relationship Type=\"http://example.com/unknown\" Target=\"/nowhere\"/>\
         </Relationships>",
        RELS_NS, RELS_NS, RELS_NS
    );
    let rels = PackageRelationships::parse(&xml).unwrap();
    assert_eq!(rels.core_properties.as_deref(), Some("/docProps/core.xml"));
    assert_eq!(rels.thumbnail.as_deref(), Some("/thumb.jpg"));
    assert_eq!(rels.fixed_representation.as_deref(), Some("/FixedDocSeq.fdseq"));
}

#[test]
fn oxps_fixed_representation_uri_fills_the_same_slot() {
    let xml = format!(
        "<Relationships xmlns=\"{}\">\
         <Relationship Type=\"http://schemas.openxps.org/oxps/v1.0/fixedrepresentation\" Target=\"/fd.fdseq\"/>\
         </Relationships>",
        RELS_NS
    );
    let rels = PackageRelationships::parse(&xml).unwrap();
    assert_eq!(rels.fixed_representation.as_deref(), Some("/fd.fdseq"));
    assert!(rels.core_properties.is_none());
    assert!(rels.thumbnail.is_none());
}

#[test]
fn last_relationship_of_a_kind_wins() {
    let xml = format!(
        "<Relationships xmlns=\"{}\">\
         <Relationship Type=\"http://schemas.microsoft.com/xps/2005/06/fixedrepresentation\" Target=\"/first\"/>\
         <Relationship Type=\"http://schemas.microsoft.com/xps/2005/06/fixedrepresentation\" Target=\"/second\"/>\
         </Relationships>",
        RELS_NS
    );
    let rels = PackageRelationships::parse(&xml).unwrap();
    assert_eq!(rels.fixed_representation.as_deref(), Some("/second"));
}

#[test]
fn malformed_relationships_xml_is_an_error() {
    assert!(matches!(PackageRelationships::parse("<unclosed"), Err(Error::Xml)));
    assert!(matches!(DocumentRelationships::parse(""), Err(Error::Xml)));
}

#[test]
fn document_relationships_recognize_only_structure() {
    let xml = format!(
        "<Relationships xmlns=\"{}\">\
         <Relationship Type=\"http://schemas.microsoft.com/xps/2005/06/documentstructure\" Target=\"Structure/DocStructure.struct\"/>\
         <Relationship Type=\"http://example.com/other\" Target=\"/other\"/>\
         </Relationships>",
        RELS_NS
    );
    let rels = DocumentRelationships::parse(&xml).unwrap();
    assert_eq!(rels.structure.as_deref(), Some("Structure/DocStructure.struct"));
}

#[test]
fn document_sequence_lists_sources_in_order() {
    let xml = format!(
        "<FixedDocumentSequence xmlns=\"{}\">\
         <DocumentReference Source=\"/Documents/1/FixedDocument.fdoc\"/>\
         <DocumentReference Source=\"/Documents/2/FixedDocument.fdoc\"/>\
         <DocumentReference/>\
         </FixedDocumentSequence>",
        XPS_NS
    );
    let seq = FixedDocumentSequence::parse(&xml).unwrap();
    assert_eq!(seq.sources.len(), 2);
    assert_eq!(seq.sources[0], "/Documents/1/FixedDocument.fdoc");
    assert_eq!(seq.sources[1], "/Documents/2/FixedDocument.fdoc");
}

#[test]
fn document_sequence_accepts_the_oxps_namespace() {
    let xml = format!(
        "<FixedDocumentSequence xmlns=\"{}\">\
         <DocumentReference Source=\"/d.fdoc\"/>\
         </FixedDocumentSequence>",
        OXPS_NS
    );
    let seq = FixedDocumentSequence::parse(&xml).unwrap();
    assert_eq!(seq.sources, vec!["/d.fdoc".to_string()]);
}

#[test]
fn fixed_document_declares_page_stubs() {
    let xml = format!(
        "<FixedDocument xmlns=\"{}\">\
         <PageContent Source=\"Pages/1.fpage\" Width=\"100\" Height=\"200\">\
         <PageContent.LinkTargets>\
         <LinkTarget Name=\"intro\"/>\
         <LinkTarget Name=\"summary\"/>\
         </PageContent.LinkTargets>\
         </PageContent>\
         <PageContent Source=\"Pages/2.fpage\" Width=\"-4\" Height=\"oops\"/>\
         <PageContent/>\
         </FixedDocument>",
        XPS_NS
    );
    let stubs = FixedDocument::parse(&xml).unwrap();
    assert_eq!(stubs.len(), 3);
    assert_eq!(stubs[0].source.as_deref(), Some("Pages/1.fpage"));
    assert_eq!(stubs[0].width.micros, 100 * SCALE);
    assert_eq!(stubs[0].height.micros, 200 * SCALE);
    assert_eq!(stubs[0].links, vec!["intro".to_string(), "summary".to_string()]);
    assert_eq!(stubs[1].width.micros, 0);
    assert_eq!(stubs[1].height.micros, 0);
    assert!(stubs[1].links.is_empty());
    assert!(stubs[2].source.is_none());
}

#[test]
fn fixed_page_decodes_size_and_content() {
    let xml = format!(
        "<FixedPage xmlns=\"{}\" Name=\"p1\" Width=\"150\">\
         <Path Data=\"M 0,0 L 10,10\" Fill=\"#ff0000\"/>\
         <Glyphs OriginX=\"4.5\" OriginY=\"-2\" FontUri=\"/Resources/f.odttf\" FontRenderingEmSize=\"12\" UnicodeString=\"true\"/>\
         <Unknown/>\
         </FixedPage>",
        XPS_NS
    );
    let page = FixedPage::parse(&xml).unwrap();
    assert_eq!(page.name.as_deref(), Some("p1"));
    assert_eq!(page.width.map(|w| w.micros), Some(150 * SCALE));
    assert!(page.height.is_none());
    match &page.render_tree {
        RenderNode::Root(children) => {
            assert_eq!(children.len(), 2);
            match &children[0] {
                RenderNode::Path(p) => {
                    assert_eq!(p.data.as_deref(), Some("M 0,0 L 10,10"));
                    assert!(p.fill.is_some());
                    assert!(p.stroke.is_none());
                },
                other => panic!("expected a path, got {:?}", other),
            }
            match &children[1] {
                RenderNode::Glyphs(g) => {
                    assert_eq!(g.origin.0.micros, 4_500_000);
                    assert_eq!(g.origin.1.micros, -2 * SCALE);
                    assert_eq!(g.font_uri, "/Resources/f.odttf");
                    assert_eq!(g.font_rendering_em_size.micros, 12 * SCALE);
                    assert_eq!(g.unicode_string.map(|u| u.0), Some(true));
                    assert!(g.is_sideways.is_none());
                },
                other => panic!("expected a glyph run, got {:?}", other),
            }
        },
        other => panic!("expected a root, got {:?}", other),
    }
}

#[test]
fn fixed_page_with_other_root_is_empty() {
    let page = FixedPage::parse("<Unrelated/>").unwrap();
    assert!(page.name.is_none());
    assert!(page.width.is_none());
    match &page.render_tree {
        RenderNode::Root(children) => assert!(children.is_empty()),
        other => panic!("expected a root, got {:?}", other),
    }
}

#[test]
fn paint_property_without_brush_is_the_missing_brush_error() {
    let xml = format!(
        "<FixedPage xmlns=\"{}\">\
         <Path><Path.Fill><NotABrush/></Path.Fill></Path>\
         </FixedPage>",
        XPS_NS
    );
    let r = FixedPage::parse(&xml);
    assert!(matches!(r, Err(Error::Xps(ParseError::MissingBrush))));
}

#[test]
fn paint_property_with_brush_decodes() {
    let xml = format!(
        "<FixedPage xmlns=\"{}\">\
         <Path><Path.Fill><SolidColorBrush Color=\"#ff0000\"/></Path.Fill></Path>\
         <Canvas><Canvas.OpacityMask><ImageBrush/></Canvas.OpacityMask></Canvas>\
         </FixedPage>",
        XPS_NS
    );
    let page = FixedPage::parse(&xml).unwrap();
    match &page.render_tree {
        RenderNode::Root(children) => assert_eq!(children.len(), 2),
        other => panic!("expected a root, got {:?}", other),
    }
}

#[test]
fn glyphs_fill_without_brush_fails() {
    let xml = format!(
        "<FixedPage xmlns=\"{}\">\
         <Glyphs FontUri=\"/f.odttf\"><Glyphs.Fill><NotABrush/></Glyphs.Fill></Glyphs>\
         </FixedPage>",
        XPS_NS
    );
    assert!(matches!(FixedPage::parse(&xml), Err(Error::Xps(ParseError::MissingBrush))));
}

#[test]
fn glyphs_opacity_mask_without_brush_fails() {
    let xml = format!(
        "<FixedPage xmlns=\"{}\">\
         <Glyphs FontUri=\"/f.odttf\"><Glyphs.OpacityMask><Nothing/></Glyphs.OpacityMask></Glyphs>\
         </FixedPage>",
        XPS_NS
    );
    assert!(matches!(FixedPage::parse(&xml), Err(Error::Xps(ParseError::MissingBrush))));
}

#[test]
fn glyphs_fill_with_brush_decodes() {
    let xml = format!(
        "<FixedPage xmlns=\"{}\">\
         <Glyphs FontUri=\"/f.odttf\"><Glyphs.Fill><SolidColorBrush Color=\"#000000\"/></Glyphs.Fill></Glyphs>\
         </FixedPage>",
        XPS_NS
    );
    let page = FixedPage::parse(&xml).unwrap();
    match &page.render_tree {
        RenderNode::Root(children) => {
            assert_eq!(children.len(), 1);
            assert!(matches!(&children[0], RenderNode::Glyphs(_)));
        },
        other => panic!("expected a root, got {:?}", other),
    }
}

#[test]
fn unknown_property_elements_are_skipped() {
    let xml = format!(
        "<FixedPage xmlns=\"{}\">\
         <Glyphs FontUri=\"/f.odttf\"><Glyphs.Shadow><NotABrush/></Glyphs.Shadow></Glyphs>\
         </FixedPage>",
        XPS_NS
    );
    let page = FixedPage::parse(&xml).unwrap();
    match &page.render_tree {
        RenderNode::Root(children) => assert_eq!(children.len(), 1),
        other => panic!("expected a root, got {:?}", other),
    }
}

#[test]
fn canvas_opacity_mask_without_brush_fails() {
    let xml = format!(
        "<FixedPage xmlns=\"{}\">\
         <Canvas><Canvas.OpacityMask><Nothing/></Canvas.OpacityMask></Canvas>\
         </FixedPage>",
        XPS_NS
    );
    assert!(matches!(FixedPage::parse(&xml), Err(Error::Xps(ParseError::MissingBrush))));
}

#[test]
fn canvas_attributes_decode() {
    let xml = format!(
        "<FixedPage xmlns=\"{}\">\
         <Canvas Name=\"g\" RenderTransform=\"1,0,0,1,5,6\" Opacity=\"0.5\" Clip=\"M 0,0\"/>\
         </FixedPage>",
        XPS_NS
    );
    let page = FixedPage::parse(&xml).unwrap();
    match &page.render_tree {
        RenderNode::Root(children) => match &children[0] {
            RenderNode::Canvas(c) => {
                assert_eq!(c.name.as_deref(), Some("g"));
                let t = c.render_transform.unwrap();
                assert_eq!(t.x0.micros, 5 * SCALE);
                assert_eq!(t.y0.micros, 6 * SCALE);
                assert_eq!(c.opacity.map(|o| o.0.micros), Some(500_000));
                assert!(c.clip.is_some());
                assert!(c.opacity_mask.is_none());
                assert!(c.children.is_empty());
            },
            other => panic!("expected a canvas, got {:?}", other),
        },
        other => panic!("expected a root, got {:?}", other),
    }
}

#[test]
fn document_structure_collects_outline_entries() {
    let xml = format!(
        "<DocumentStructure xmlns=\"{}\">\
         <DocumentStructure.Outline>\
         <DocumentOutline>\
         <OutlineEntry OutlineLevel=\"1\" Description=\"Intro\" OutlineTarget=\"/p1\"/>\
         <OutlineEntry Description=\"Next\"/>\
         </DocumentOutline>\
         </DocumentStructure.Outline>\
         </DocumentStructure>",
        STRUCT_NS
    );
    let s = DocumentStructure::parse(&xml).unwrap();
    let outline = s.outline.expect("an outline");
    let entries = outline.entries();
    assert_eq!(entries.len(), 2);
    assert_eq!(entries[0].level.as_deref(), Some("1"));
    assert_eq!(entries[0].description.as_deref(), Some("Intro"));
    assert_eq!(entries[0].target.as_deref(), Some("/p1"));
    assert!(entries[1].level.is_none());
    assert_eq!(entries[1].description.as_deref(), Some("Next"));
}

#[test]
fn document_structure_without_outline_has_none() {
    let xml = format!("<DocumentStructure xmlns=\"{}\"/>", STRUCT_NS);
    let s = DocumentStructure::parse(&xml).unwrap();
    assert!(s.outline.is_none());
}

#[test]
fn twelve_integer_digits_are_the_largest_size() {
    assert_eq!(parse_size("999999999999").micros, 999_999_999_999 * SCALE);
    assert_eq!(parse_size("9999999999999").micros, 0);
}

#[test]
fn the_last_document_outline_wins() {
    let xml = format!(
        "<DocumentStructure xmlns=\"{}\">\
         <DocumentStructure.Outline>\
         <DocumentOutline><OutlineEntry Description=\"old\"/></DocumentOutline>\
         <DocumentOutline><OutlineEntry Description=\"new\"/></DocumentOutline>\
         </DocumentStructure.Outline>\
         </DocumentStructure>",
        STRUCT_NS
    );
    let s = DocumentStructure::parse(&xml).unwrap();
    let outline = s.outline.expect("an outline");
    assert_eq!(outline.entries().len(), 1);
    assert_eq!(outline.entries()[0].description.as_deref(), Some("new"));
}

fn elem(ns: &str, name: &str, attrs: &[(&str, &str)], children: Vec<rxps::xml::XmlElem>)
    -> rxps::xml::XmlElem {
    rxps::xml::XmlElem {
        ns: Some(ns.to_string()),
        name: name.to_string(),
        attrs: attrs
            .iter()
            .map(|(n, v)| rxps::xml::XmlAttr { name: n.to_string(), value: v.to_string() })
            .collect(),
        children,
    }
}

#[test]
fn the_first_recognized_brush_child_wins() {
    let node = elem(
        XPS_NS,
        "Path.Fill",
        &[],
        vec![
            elem(XPS_NS, "NotABrush", &[], Vec::new()),
            elem(XPS_NS, "SolidColorBrush", &[], Vec::new()),
            elem(XPS_NS, "ImageBrush", &[], Vec::new()),
        ],
    );
    let brush = rxps::parts::parse_brush(&node).unwrap();
    assert_eq!(brush, rxps::renderer::Brush::SolidColor);
}

#[test]
fn an_empty_paint_property_has_no_brush() {
    let node = elem(XPS_NS, "Path.Fill", &[], Vec::new());
    assert!(matches!(
        rxps::parts::parse_brush(&node),
        Err(Error::Xps(ParseError::MissingBrush))
    ));
}

#[test]
fn relationships_decode_from_a_built_tree() {
    let root = elem(
        RELS_NS,
        "Relationships",
        &[],
        vec![elem(
            RELS_NS,
            "Relationship",
            &[
                ("Type", "http://schemas.microsoft.com/xps/2005/06/fixedrepresentation"),
                ("Target", "/seq.fdseq"),
            ],
            Vec::new(),
        )],
    );
    let rels = PackageRelationships::from_xml(&root);
    assert_eq!(rels.fixed_representation.as_deref(), Some("/seq.fdseq"));
    assert!(rels.core_properties.is_none());
}

#[test]
fn a_misnamed_relationships_root_yields_nothing() {
    let root = elem(RELS_NS, "NotRelationships", &[], Vec::new());
    let rels = PackageRelationships::from_xml(&root);
    assert!(rels.core_properties.is_none());
    assert!(rels.thumbnail.is_none());
    assert!(rels.fixed_representation.is_none());
}

#[test]
fn error_wraps_parse_and_render_failures() {
    let e: Error = Error::from(ParseError::MissingBrush);
    assert!(matches!(e, Error::Xps(ParseError::MissingBrush)));
    let e: Error = Error::from(rxps::error::RenderError::Unknown);
    assert!(matches!(e, Error::Render(rxps::error::RenderError::Unknown)));
}
