use std::cell::RefCell;
use std::io::Write;

use rxps::archive::{decode_text, Archive};
use rxps::error::Error;
use rxps::renderer::{Canvas, Glyphs, Path, RenderNode, RenderResult};
use rxps::scalar::SCALE;
use rxps::xps::{resolve, rels_path, XPS};
use rxps::Renderer;

const RELS_NS: &str = "http://schemas.openxmlformats.org/package/2006/relationships";
const XPS_NS: &str = "http://schemas.microsoft.com/xps/2005/06";
const STRUCT_NS: &str = "http://schemas.microsoft.com/xps/2005/06/documentstructure";

#[test]
fn text_without_bom_decodes_as_utf8() {
    let s = decode_text(b"hello".to_vec()).unwrap();
    assert_eq!(s, "hello");
    assert_eq!(decode_text(Vec::new()).unwrap(), "");
}

#[test]
fn invalid_utf8_is_an_error() {
    assert!(matches!(decode_text(vec![0xc3]), Err(Error::Utf8)));
    assert!(matches!(decode_text(vec![0xff, 0xff, 0xff]), Err(Error::Utf8)));
}

#[test]
fn text_with_bom_decodes_remaining_units_as_utf16() {
    let s = decode_text(vec![0xff, 0xfe, 0x48, 0x00, 0x69, 0x00]).unwrap();
    assert_eq!(s, "Hi");
    let empty = decode_text(vec![0xff, 0xfe]).unwrap();
    assert_eq!(empty, "");
}

#[test]
fn surrogate_pairs_decode() {
    let s = decode_text(vec![0xff, 0xfe, 0x3d, 0xd8, 0x00, 0xde]).unwrap();
    assert_eq!(s.chars().count(), 1);
    assert_eq!(s.chars().next(), char::from_u32(0x1f600));
}

#[test]
fn odd_byte_count_after_bom_is_an_error() {
    assert!(matches!(decode_text(vec![0xff, 0xfe, 0x48]), Err(Error::Utf16)));
}

#[test]
fn unpaired_surrogate_is_an_error() {
    assert!(matches!(decode_text(vec![0xff, 0xfe, 0x00, 0xd8]), Err(Error::Utf16)));
}

#[test]
fn resolve_strips_the_package_root_marker() {
    assert_eq!(resolve("", "/FixedDocSeq.fdseq"), "FixedDocSeq.fdseq");
    assert_eq!(resolve("Documents/1/FixedDocument.fdoc", "/Other/part.xml"), "Other/part.xml");
}

#[test]
fn resolve_joins_relative_references_to_the_base_directory() {
    assert_eq!(resolve("Documents/1/FixedDocument.fdoc", "Pages/1.fpage"), "Documents/1/Pages/1.fpage");
    assert_eq!(resolve("FixedDocSeq.fdseq", "doc.fdoc"), "doc.fdoc");
}

#[test]
fn rels_path_follows_the_convention() {
    assert_eq!(rels_path("Documents/1/FixedDocument.fdoc"), "Documents/1/_rels/FixedDocument.fdoc.rels");
    assert_eq!(rels_path("FixedDocSeq.fdseq"), "_rels/FixedDocSeq.fdseq.rels");
}

fn build_package(entries: &[(&str, String)]) -> Vec<u8> {
    let cursor = std::io::Cursor::new(Vec::new());
    let mut writer = zip::ZipWriter::new(cursor);
    let options = zip::write::SimpleFileOptions::default();
    for (name, content) in entries {
        writer.start_file(*name, options).unwrap();
        writer.write_all(content.as_bytes()).unwrap();
    }
    writer.finish().unwrap().into_inner()
}

fn sample_package() -> Vec<u8> {
    let package_rels = format!(
        "<Relationships xmlns=\"{}\">\
         <Relationship Type=\"http://schemas.microsoft.com/xps/2005/06/fixedrepresentation\" Target=\"/FixedDocSeq.fdseq\"/>\
         </Relationships>",
        RELS_NS
    );
    let sequence = format!(
        "<FixedDocumentSequence xmlns=\"{}\">\
         <DocumentReference Source=\"/Documents/1/FixedDocument.fdoc\"/>\
         </FixedDocumentSequence>",
        XPS_NS
    );
    let doc_rels = format!(
        "<Relationships xmlns=\"{}\">\
         <Relationship Type=\"http://schemas.microsoft.com/xps/2005/06/documentstructure\" Target=\"Structure/DocStructure.struct\"/>\
         </Relationships>",
        RELS_NS
    );
    let structure = format!(
        "<DocumentStructure xmlns=\"{}\">\
         <DocumentStructure.Outline>\
         <DocumentOutline>\
         <OutlineEntry OutlineLevel=\"1\" Description=\"First page\" OutlineTarget=\"/Documents/1/Pages/1.fpage\"/>\
         </DocumentOutline>\
         </DocumentStructure.Outline>\
         </DocumentStructure>",
        STRUCT_NS
    );
    let document = format!(
        "<FixedDocument xmlns=\"{}\">\
         <PageContent Source=\"Pages/1.fpage\" Width=\"100\" Height=\"200\">\
         <PageContent.LinkTargets><LinkTarget Name=\"top\"/></PageContent.LinkTargets>\
         </PageContent>\
         <PageContent Source=\"Pages/2.fpage\" Width=\"300\" Height=\"400\"/>\
         </FixedDocument>",
        XPS_NS
    );
    let page1 = format!(
        "<FixedPage xmlns=\"{}\" Width=\"150\">\
         <Canvas Name=\"outer\">\
         <Path Data=\"M 0,0 L 10,10\"/>\
         <Canvas Name=\"inner\">\
         <Glyphs OriginX=\"1\" OriginY=\"2\" FontUri=\"/Resources/f.odttf\" FontRenderingEmSize=\"10\"/>\
         </Canvas>\
         </Canvas>\
         </FixedPage>",
        XPS_NS
    );
    let page2 = format!("<FixedPage xmlns=\"{}\"/>", XPS_NS);
    build_package(&[
        ("_rels/.rels", package_rels),
        ("FixedDocSeq.fdseq", sequence),
        ("Documents/1/_rels/FixedDocument.fdoc.rels", doc_rels),
        ("Documents/1/Structure/DocStructure.struct", structure),
        ("Documents/1/FixedDocument.fdoc", document),
        ("Documents/1/Pages/1.fpage", page1),
        ("Documents/1/Pages/2.fpage", page2),
    ])
}

#[test]
fn archive_yields_entries_by_exact_name() {
    let data = build_package(&[("a/b.txt", "content".to_string())]);
    let mut archive = Archive::new(data).unwrap();
    assert_eq!(archive.get("a/b.txt").unwrap(), b"content".to_vec());
    assert!(archive.get("a/B.txt").is_err());
    assert!(archive.get("missing").is_err());
    assert_eq!(archive.get_as_string("a/b.txt").unwrap(), "content");
}

#[test]
fn garbage_bytes_are_no_archive() {
    assert!(matches!(Archive::new(b"not a zip".to_vec()), Err(Error::Zip)));
}

#[test]
fn loading_the_sample_package_builds_the_document_model() {
    let archive = Archive::new(sample_package()).unwrap();
    let xps = XPS::load(archive).unwrap();
    let docs = xps.documents();
    assert_eq!(docs.len(), 1);
    let doc = &docs[0];

    let outline = doc.outline().expect("an outline");
    let entries = outline.entries();
    assert_eq!(entries.len(), 1);
    assert_eq!(entries[0].description.as_deref(), Some("First page"));

    let pages = doc.pages();
    assert_eq!(pages.len(), 2);

    let (w, h) = pages[0].size();
    assert_eq!(w.micros, 150 * SCALE);
    assert_eq!(h.micros, 200 * SCALE);
    assert_eq!(pages[0].links, vec!["top".to_string()]);

    match &pages[0].render_tree {
        RenderNode::Root(children) => {
            assert_eq!(children.len(), 1);
            match &children[0] {
                RenderNode::Canvas(outer) => {
                    assert_eq!(outer.name.as_deref(), Some("outer"));
                    assert_eq!(outer.children.len(), 2);
                    assert!(matches!(&outer.children[0], RenderNode::Path(_)));
                    match &outer.children[1] {
                        RenderNode::Canvas(inner) => {
                            assert_eq!(inner.children.len(), 1);
                            assert!(matches!(&inner.children[0], RenderNode::Glyphs(_)));
                        },
                        other => panic!("expected a canvas, got {:?}", other),
                    }
                },
                other => panic!("expected a canvas, got {:?}", other),
            }
        },
        other => panic!("expected a root, got {:?}", other),
    }

    let (w2, h2) = pages[1].size();
    assert_eq!(w2.micros, 300 * SCALE);
    assert_eq!(h2.micros, 400 * SCALE);
    match &pages[1].render_tree {
        RenderNode::Root(children) => assert!(children.is_empty()),
        other => panic!("expected a root, got {:?}", other),
    }
}

#[test]
fn page_part_size_overrides_stub_size_per_dimension() {
    let fp = rxps::parts::FixedPage {
        name: None,
        width: Some(rxps::scalar::Scalar::from_micros(150 * SCALE)),
        height: None,
        content_box: None,
        bleed_box: None,
        xml_lang: None,
        render_tree: RenderNode::Root(Vec::new()),
    };
    let stub = rxps::parts::FixedDocumentPage {
        source: Some("p.fpage".to_string()),
        width: rxps::scalar::Scalar::from_micros(100 * SCALE),
        height: rxps::scalar::Scalar::from_micros(200 * SCALE),
        links: Vec::new(),
    };
    let page = rxps::xps::Page::assemble(fp, &stub);
    let (w, h) = page.size();
    assert_eq!(w.micros, 150 * SCALE);
    assert_eq!(h.micros, 200 * SCALE);
}

#[test]
fn loading_fails_when_a_referenced_part_is_absent() {
    let package_rels = format!(
        "<Relationships xmlns=\"{}\">\
         <Relationship Type=\"http://schemas.microsoft.com/xps/2005/06/fixedrepresentation\" Target=\"/Missing.fdseq\"/>\
         </Relationships>",
        RELS_NS
    );
    let data = build_package(&[("_rels/.rels", package_rels)]);
    let archive = Archive::new(data).unwrap();
    assert!(XPS::load(archive).is_err());
}

#[test]
fn package_without_fixed_representation_has_no_documents() {
    let package_rels = format!("<Relationships xmlns=\"{}\"/>", RELS_NS);
    let data = build_package(&[("_rels/.rels", package_rels)]);
    let archive = Archive::new(data).unwrap();
    let xps = XPS::load(archive).unwrap();
    assert!(xps.documents().is_empty());
}

struct CountingRenderer {
    canvases: RefCell<usize>,
    glyph_runs: RefCell<usize>,
    paths: RefCell<usize>,
}

impl Renderer for CountingRenderer {
    fn render_canvas(&self, canvas: &Canvas) -> RenderResult<()> {
        *self.canvases.borrow_mut() += 1;
        self.render_children(&canvas.children)
    }

    fn render_glyphs(&self, _glyphs: &Glyphs) -> RenderResult<()> {
        *self.glyph_runs.borrow_mut() += 1;
        Ok(())
    }

    fn render_path(&self, _path: &Path) -> RenderResult<()> {
        *self.paths.borrow_mut() += 1;
        Ok(())
    }
}

#[test]
fn a_renderer_that_recurses_sees_every_node() {
    let archive = Archive::new(sample_package()).unwrap();
    let xps = XPS::load(archive).unwrap();
    let renderer = CountingRenderer {
        canvases: RefCell::new(0),
        glyph_runs: RefCell::new(0),
        paths: RefCell::new(0),
    };
    xps.documents()[0].pages()[0].render(&renderer).unwrap();
    assert_eq!(*renderer.canvases.borrow(), 2);
    assert_eq!(*renderer.glyph_runs.borrow(), 1);
    assert_eq!(*renderer.paths.borrow(), 1);
}
