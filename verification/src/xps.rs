//! The document model and the loader: an opened package becomes an ordered
//! collection of documents, each with ordered pages and an optional outline.

use vstd::prelude::*;

use crate::archive::{spec_read_text, Archive};
use crate::error::Error;
use crate::parts::{has_xps_name, needs_brush, ns_xps, spec_canvas_props, spec_child_node,
    spec_doc_refs, spec_doc_sequence, spec_fixed_document, spec_fixed_page, spec_glyphs,
    spec_page_stub, spec_page_stubs, spec_paint_props_ok, spec_path, spec_render_children,
    spec_structure, DecodedChild, DocumentStructure, FixedDocument, FixedDocumentPage,
    FixedDocumentSequence, FixedPage, FixedPageModel, PageStubModel};
use crate::relationships::{is_rel_of, kind_document_structure, kind_fixed_representation,
    ns_rels, rels_children, spec_rel_slot, DocumentRelationships, PackageRelationships};
use crate::renderer::{wf_node, CanvasModel, GlyphsModel, NodeModel, PathModel, RenderNode,
    Renderer};
use crate::scalar::Scalar;
use crate::xml::{attr_in, xml_tree_of, XmlAttrModel, XmlTree};

verus! {

/// An entry of a document outline: an opaque level marker, a description and
/// a navigation target, each optional and recorded verbatim.
#[derive(Debug)]
pub struct OutlineEntry {
    pub level: Option<String>,
    pub description: Option<String>,
    pub target: Option<String>,
}

/// The mathematical value of an [`OutlineEntry`].
pub struct OutlineEntryModel {
    pub level: Option<Seq<char>>,
    pub description: Option<Seq<char>>,
    pub target: Option<Seq<char>>,
}

impl DeepView for OutlineEntry {
    type V = OutlineEntryModel;

    open spec fn deep_view(&self) -> OutlineEntryModel {
        OutlineEntryModel {
            level: self.level.deep_view(),
            description: self.description.deep_view(),
            target: self.target.deep_view(),
        }
    }
}

/// A document's outline: a flat ordered list of leveled entries.
#[derive(Debug)]
pub struct Outline {
    pub entries: Vec<OutlineEntry>,
}

impl DeepView for Outline {
    type V = Seq<OutlineEntryModel>;

    open spec fn deep_view(&self) -> Seq<OutlineEntryModel> {
        self.entries.deep_view()
    }
}

impl Outline {
    /// The entries of the outline, in document order.
    pub fn entries(&self) -> (r: &[OutlineEntry])
        ensures
            r.deep_view() == self.deep_view(),
    {
        self.entries.as_slice()
    }
}

/// The index of the last slash of a path, or `-1` when it has none.
pub open spec fn last_slash(s: Seq<char>) -> int
    decreases s.len(),
{
    if s.len() == 0 {
        -1
    } else if s.last() == '/' {
        s.len() - 1
    } else {
        last_slash(s.drop_last())
    }
}

/// The directory part of a path, up to and including its last slash; empty
/// when the path has no slash.
pub open spec fn spec_dir_of(s: Seq<char>) -> Seq<char> {
    s.take(last_slash(s) + 1)
}

/// The file-name part of a path: what follows its last slash.
pub open spec fn spec_file_name(s: Seq<char>) -> Seq<char> {
    s.skip(last_slash(s) + 1)
}

/// What a part reference resolves to: a package-root-relative reference has
/// the root marker stripped; any other is joined to the base part's
/// directory.  No filesystem is involved.
pub open spec fn spec_resolve(base: Seq<char>, target: Seq<char>) -> Seq<char> {
    if target.len() > 0 && target[0] == '/' {
        target.skip(1)
    } else {
        spec_dir_of(base) + target
    }
}

/// The conventional location of a part's relationships file:
/// `<part directory>/_rels/<part file name>.rels`.
pub open spec fn spec_rels_path(part: Seq<char>) -> Seq<char> {
    spec_dir_of(part) + "_rels/"@ + spec_file_name(part) + ".rels"@
}

/// The last slash lies before the end of the path.
proof fn lemma_last_slash_bounds(s: Seq<char>)
    ensures
        -1 <= last_slash(s) < s.len(),
    decreases s.len(),
{
    if s.len() > 0 && !(s.last() == '/') {
        lemma_last_slash_bounds(s.drop_last());
    }
}

/// The directory part of a path, as text.
fn dir_of(base: &str) -> (r: String)
    ensures
        r@ == spec_dir_of(base@),
{
    let n = base.unicode_len();
    let mut cut: usize = 0;
    proof {
        assert(base@.take(0) =~= Seq::<char>::empty());
    }
    for i in 0..n
        invariant
            n == base@.len(),
            cut == last_slash(base@.take(i as int)) + 1,
            0 <= cut <= i,
    {
        proof {
            assert(base@.take(i + 1).drop_last() =~= base@.take(i as int));
            assert(base@.take(i + 1).last() == base@[i as int]);
            lemma_last_slash_bounds(base@.take(i + 1));
        }
        if base.get_char(i) == '/' {
            cut = i + 1;
        }
    }
    proof {
        assert(base@.take(n as int) =~= base@);
    }
    let d = base.substring_char(0, cut);
    String::from_str(d)
}

/// The file-name part of a path, as text.
fn file_name_of(base: &str) -> (r: String)
    ensures
        r@ == spec_file_name(base@),
{
    let n = base.unicode_len();
    let mut cut: usize = 0;
    proof {
        assert(base@.take(0) =~= Seq::<char>::empty());
    }
    for i in 0..n
        invariant
            n == base@.len(),
            cut == last_slash(base@.take(i as int)) + 1,
            0 <= cut <= i,
    {
        proof {
            assert(base@.take(i + 1).drop_last() =~= base@.take(i as int));
            assert(base@.take(i + 1).last() == base@[i as int]);
            lemma_last_slash_bounds(base@.take(i + 1));
        }
        if base.get_char(i) == '/' {
            cut = i + 1;
        }
    }
    proof {
        assert(base@.take(n as int) =~= base@);
    }
    let f = base.substring_char(cut, n);
    proof {
        assert(base@.subrange(cut as int, n as int) =~= spec_file_name(base@));
    }
    String::from_str(f)
}

/// Resolves a part reference against a base part's path.
pub fn resolve(base: &str, target: &str) -> (r: String)
    ensures
        r@ == spec_resolve(base@, target@),
{
    let tlen = target.unicode_len();
    if tlen > 0 && target.get_char(0) == '/' {
        let s = target.substring_char(1, tlen);
        proof {
            assert(target@.subrange(1, tlen as int) =~= target@.skip(1));
        }
        String::from_str(s)
    } else {
        let mut r = dir_of(base);
        r.append(target);
        r
    }
}

/// The conventional path of a part's relationships file.
pub fn rels_path(part: &str) -> (r: String)
    ensures
        r@ == spec_rels_path(part@),
{
    let mut r = dir_of(part);
    r.append("_rels/");
    let name = file_name_of(part);
    r.append(name.as_str());
    r.append(".rels");
    r
}

/// A page of a loaded document: its resolved size, optional name, ordered
/// link-target names and render tree.
#[derive(Debug)]
pub struct Page {
    pub width: Scalar,
    pub height: Scalar,
    pub name: Option<String>,
    pub render_tree: RenderNode,
    pub links: Vec<String>,
}

/// The mathematical value of a [`Page`].
pub struct PageModel {
    pub width: int,
    pub height: int,
    pub name: Option<Seq<char>>,
    pub render_tree: NodeModel,
    pub links: Seq<Seq<char>>,
}

impl DeepView for Page {
    type V = PageModel;

    open spec fn deep_view(&self) -> PageModel {
        PageModel {
            width: self.width.micros as int,
            height: self.height.micros as int,
            name: self.name.deep_view(),
            render_tree: self.render_tree.deep_view(),
            links: self.links.deep_view(),
        }
    }
}

/// A loaded page carries a well-formed tree rooted at a root node.
pub open spec fn page_wf(p: Page) -> bool {
    p.render_tree is Root && wf_node(p.render_tree.deep_view())
}

impl Page {
    /// The resolved size of the page: width, then height.
    pub fn size(&self) -> (r: (Scalar, Scalar))
        ensures
            r.0 == self.width && r.1 == self.height,
    {
        (self.width, self.height)
    }

    /// Assembles a page from its decoded page part and its stub: the page
    /// part's own width and height override the stub's where declared, the
    /// absent dimension falls back to the stub's; the name and render tree
    /// are the page part's, the link-target names the stub's.
    pub fn assemble(fp: FixedPage, stub: &FixedDocumentPage) -> (r: Page)
        ensures
            r.deep_view() == spec_assemble_page(fp.deep_view(), stub.deep_view()),
            r.render_tree == fp.render_tree,
    {
        Page {
            width: match fp.width {
                Some(w) => w,
                None => stub.width,
            },
            height: match fp.height {
                Some(h) => h,
                None => stub.height,
            },
            name: fp.name,
            render_tree: fp.render_tree,
            links: stub.links.clone(),
        }
    }

    /// Renders the page with the given renderer.
    pub fn render<R: Renderer>(&self, renderer: &R) -> (r: Result<(), Error>)
        requires
            page_wf(*self),
        ensures
            r matches Err(e) ==> e is Render,
            self.render_tree->Root_0@.len() == 0 ==> r is Ok,
    {
        match renderer.render(&self.render_tree) {
            Ok(_) => Ok(()),
            Err(e) => Err(Error::Render(e)),
        }
    }
}

/// A document of a loaded package: its optional outline and ordered pages.
#[derive(Debug)]
pub struct Document {
    pub outline: Option<Outline>,
    pub pages: Vec<Page>,
}

/// The mathematical value of a [`Document`].
pub struct DocumentModel {
    pub outline: Option<Seq<OutlineEntryModel>>,
    pub pages: Seq<PageModel>,
}

impl DeepView for Document {
    type V = DocumentModel;

    open spec fn deep_view(&self) -> DocumentModel {
        DocumentModel { outline: self.outline.deep_view(), pages: self.pages.deep_view() }
    }
}

/// Every page of a loaded document is well formed.
pub open spec fn doc_wf(d: Document) -> bool {
    forall|i: int| 0 <= i < d.pages@.len() ==> page_wf(#[trigger] d.pages@[i])
}

impl Document {
    /// The outline of the document, if it has one.
    pub fn outline(&self) -> (r: Option<&Outline>)
        ensures
            r matches Some(o) ==> self.outline matches Some(x) && o == &x,
            r is None ==> self.outline is None,
    {
        self.outline.as_ref()
    }

    /// The pages of the document, in order.
    pub fn pages(&self) -> (r: &[Page])
        ensures
            r@ == self.pages@,
    {
        self.pages.as_slice()
    }
}

/// What a page resolves to from its page part and its stub: each dimension
/// is the page part's own when declared, else the stub's; the name and tree
/// are the page part's; the link-target names are the stub's.
pub open spec fn spec_assemble_page(fp: FixedPageModel, stub: PageStubModel) -> PageModel {
    PageModel {
        width: match fp.width {
            Some(w) => w,
            None => stub.width,
        },
        height: match fp.height {
            Some(h) => h,
            None => stub.height,
        },
        name: fp.name,
        render_tree: fp.render_tree,
        links: stub.links,
    }
}

/// What loading one page part yields for a stub that names a source, given
/// the container's entries: the decoded page part assembled against the
/// stub; `None` when the part is absent, malformed or fails its decode.
pub open spec fn spec_load_page(
    m: Map<Seq<char>, Seq<u8>>,
    base: Seq<char>,
    stub: PageStubModel,
    src: Seq<char>,
) -> Option<PageModel> {
    match spec_read_text(m, spec_resolve(base, src)) {
        None => None,
        Some(text) => match xml_tree_of(text) {
            None => None,
            Some(t) => match spec_fixed_page(t) {
                None => None,
                Some(fp) => Some(spec_assemble_page(fp, stub)),
            },
        },
    }
}

/// What loading the pages of a document yields: stubs without a source are
/// skipped, and each other stub's page part is read and decoded.
pub open spec fn spec_load_pages(
    m: Map<Seq<char>, Seq<u8>>,
    base: Seq<char>,
    stubs: Seq<PageStubModel>,
) -> Option<Seq<PageModel>>
    decreases stubs.len(),
{
    if stubs.len() == 0 {
        Some(Seq::empty())
    } else {
        match spec_load_pages(m, base, stubs.drop_last()) {
            None => None,
            Some(ps) => match stubs.last().source {
                None => Some(ps),
                Some(src) => match spec_load_page(m, base, stubs.last(), src) {
                    None => None,
                    Some(p) => Some(ps.push(p)),
                },
            },
        }
    }
}

/// What loading one document part yields: its relationships part is read,
/// the structure part it may name is read for the outline, and the document
/// part's page stubs are loaded.
pub open spec fn spec_load_doc(m: Map<Seq<char>, Seq<u8>>, src: Seq<char>) -> Option<
    DocumentModel,
> {
    match spec_read_text(m, spec_rels_path(src)) {
        None => None,
        Some(rt) => match xml_tree_of(rt) {
            None => None,
            Some(relst) => {
                let structure = spec_rel_slot(rels_children(relst), kind_document_structure());
                match structure {
                    Some(stpath) => match spec_read_text(m, spec_resolve(src, stpath)) {
                        None => None,
                        Some(st) => match xml_tree_of(st) {
                            None => None,
                            Some(stt) => spec_load_doc_pages(m, src, spec_structure(stt)),
                        },
                    },
                    None => spec_load_doc_pages(m, src, None),
                }
            },
        },
    }
}

/// The page-loading tail of [`spec_load_doc`], with the outline already
/// resolved.
pub open spec fn spec_load_doc_pages(
    m: Map<Seq<char>, Seq<u8>>,
    src: Seq<char>,
    outline: Option<Seq<OutlineEntryModel>>,
) -> Option<DocumentModel> {
    match spec_read_text(m, src) {
        None => None,
        Some(dt) => match xml_tree_of(dt) {
            None => None,
            Some(doct) => match spec_load_pages(m, src, spec_fixed_document(doct)) {
                None => None,
                Some(ps) => Some(DocumentModel { outline, pages: ps }),
            },
        },
    }
}

/// What loading the documents of a sequence yields: only package-root
/// references (beginning with a slash) are loaded, each with the marker
/// stripped.
pub open spec fn spec_load_docs(m: Map<Seq<char>, Seq<u8>>, sources: Seq<Seq<char>>) -> Option<
    Seq<DocumentModel>,
>
    decreases sources.len(),
{
    if sources.len() == 0 {
        Some(Seq::empty())
    } else {
        match spec_load_docs(m, sources.drop_last()) {
            None => None,
            Some(ds) => {
                let s = sources.last();
                if s.len() > 0 && s[0] == '/' {
                    match spec_load_doc(m, s.skip(1)) {
                        None => None,
                        Some(d) => Some(ds.push(d)),
                    }
                } else {
                    Some(ds)
                }
            },
        }
    }
}

/// What loading a whole package yields from its entries: the package
/// relationships name the fixed representation, whose sequence part names
/// the documents.  Without a fixed-representation relationship the package
/// holds no documents.
pub open spec fn spec_load(m: Map<Seq<char>, Seq<u8>>) -> Option<Seq<DocumentModel>> {
    match spec_read_text(m, "_rels/.rels"@) {
        None => None,
        Some(rt) => match xml_tree_of(rt) {
            None => None,
            Some(t) => match spec_rel_slot(rels_children(t), kind_fixed_representation()) {
                None => Some(Seq::empty()),
                Some(fr) => match spec_read_text(m, spec_resolve(Seq::empty(), fr)) {
                    None => None,
                    Some(ft) => match xml_tree_of(ft) {
                        None => None,
                        Some(seqt) => spec_load_docs(m, spec_doc_sequence(seqt)),
                    },
                },
            },
        },
    }
}

/// A failed prefix fails loading all the pages.
proof fn lemma_load_pages_none(
    m: Map<Seq<char>, Seq<u8>>,
    base: Seq<char>,
    stubs: Seq<PageStubModel>,
    i: int,
)
    requires
        0 <= i <= stubs.len(),
        spec_load_pages(m, base, stubs.take(i)) is None,
    ensures
        spec_load_pages(m, base, stubs) is None,
    decreases stubs.len() - i,
{
    if i < stubs.len() {
        assert(stubs.take(i + 1).drop_last() =~= stubs.take(i));
        lemma_load_pages_none(m, base, stubs, i + 1);
    } else {
        assert(stubs.take(i) =~= stubs);
    }
}

/// A failed prefix fails loading all the documents.
proof fn lemma_load_docs_none(m: Map<Seq<char>, Seq<u8>>, sources: Seq<Seq<char>>, i: int)
    requires
        0 <= i <= sources.len(),
        spec_load_docs(m, sources.take(i)) is None,
    ensures
        spec_load_docs(m, sources) is None,
    decreases sources.len() - i,
{
    if i < sources.len() {
        assert(sources.take(i + 1).drop_last() =~= sources.take(i));
        lemma_load_docs_none(m, sources, i + 1);
    } else {
        assert(sources.take(i) =~= sources);
    }
}

/// The loaded package: its ordered documents.
#[derive(Debug)]
pub struct XPS {
    pub documents: Vec<Document>,
}

/// Every page of every document of a loaded package is well formed.
pub open spec fn xps_wf(x: XPS) -> bool {
    forall|i: int| 0 <= i < x.documents@.len() ==> doc_wf(#[trigger] x.documents@[i])
}

impl XPS {
    /// The documents of the package, in order.
    pub fn documents(&self) -> (r: &[Document])
        ensures
            r@ == self.documents@,
    {
        self.documents.as_slice()
    }

    /// Loads a whole package from an opened container in one eager pass.
    pub fn load(archive: Archive) -> (r: Result<XPS, Error>)
        ensures
            match r {
                Ok(x) => spec_load(archive.entries()) == Some(x.documents.deep_view()) && xps_wf(x),
                Err(e) => spec_load(archive.entries()) is None && !(e is Render),
            },
    {
        let ghost m = archive.entries();
        let mut ar = archive;
        let rels_text = match ar.get_as_string("_rels/.rels") {
            Ok(t) => t,
            Err(e) => {
                return Err(e);
            },
        };
        let rels = match PackageRelationships::parse(rels_text.as_str()) {
            Ok(r) => r,
            Err(e) => {
                return Err(e);
            },
        };
        let mut documents: Vec<Document> = Vec::new();
        proof {
            assert(documents.deep_view() =~= Seq::<DocumentModel>::empty());
        }
        if let Some(fixed_repr) = rels.fixed_representation {
            let frp = resolve("", fixed_repr.as_str());
            proof {
                reveal_strlit("");
                assert(""@ =~= Seq::<char>::empty());
            }
            let fr_text = match ar.get_as_string(frp.as_str()) {
                Ok(t) => t,
                Err(e) => {
                    return Err(e);
                },
            };
            let fr = match FixedDocumentSequence::parse(fr_text.as_str()) {
                Ok(s) => s,
                Err(e) => {
                    return Err(e);
                },
            };
            let ghost sources = fr.sources.deep_view();
            proof {
                assert(sources.take(0) =~= Seq::<Seq<char>>::empty());
                assert(spec_load(m) == spec_load_docs(m, sources));
            }
            let n = fr.sources.len();
            for i in 0..n
                invariant
                    n == fr.sources@.len(),
                    sources == fr.sources.deep_view(),
                    sources.len() == n,
                    forall|j: int| 0 <= j < n ==> sources[j] == #[trigger] fr.sources@[j]@,
                    m == ar.entries(),
                    m == archive.entries(),
                    spec_load(m) == spec_load_docs(m, sources),
                    spec_load_docs(m, sources.take(i as int)) matches Some(ds) && ds
                        == documents.deep_view(),
                    forall|j: int|
                        0 <= j < documents@.len() ==> doc_wf(#[trigger] documents@[j]),
            {
                let ghost docs0 = documents.deep_view();
                proof {
                    assert(sources.take(i + 1).drop_last() =~= sources.take(i as int));
                    assert(sources.take(i + 1).last() == sources[i as int]);
                }
                let source = &fr.sources[i];
                let slen = source.as_str().unicode_len();
                if slen > 0 && source.as_str().get_char(0) == '/' {
                    let stripped = source.as_str().substring_char(1, slen);
                    proof {
                        assert(stripped@ =~= sources[i as int].skip(1));
                    }
                    let doc = match Self::load_doc(&mut ar, stripped) {
                        Ok(d) => d,
                        Err(e) => {
                            proof {
                                assert(spec_load_docs(m, sources.take(i + 1)) is None);
                                lemma_load_docs_none(m, sources, i + 1);
                            }
                            return Err(e);
                        },
                    };
                    let ghost docv = doc.deep_view();
                    documents.push(doc);
                    proof {
                        assert(documents.deep_view() =~= docs0.push(docv));
                    }
                }
            }
            proof {
                assert(sources.take(n as int) =~= sources);
            }
        }
        Ok(XPS { documents })
    }

    /// Loads one document part and what hangs off it.
    fn load_doc(ar: &mut Archive, src: &str) -> (r: Result<Document, Error>)
        ensures
            final(ar).entries() == old(ar).entries(),
            match r {
                Ok(d) => spec_load_doc(old(ar).entries(), src@) == Some(d.deep_view()) && doc_wf(d),
                Err(e) => spec_load_doc(old(ar).entries(), src@) is None && !(e is Render),
            },
    {
        let ghost m = ar.entries();
        let rp = rels_path(src);
        let rt = match ar.get_as_string(rp.as_str()) {
            Ok(t) => t,
            Err(e) => {
                return Err(e);
            },
        };
        let drels = match DocumentRelationships::parse(rt.as_str()) {
            Ok(d) => d,
            Err(e) => {
                return Err(e);
            },
        };
        let outline: Option<Outline> = match drels.structure {
            Some(st) => {
                let sp = resolve(src, st.as_str());
                let stext = match ar.get_as_string(sp.as_str()) {
                    Ok(t) => t,
                    Err(e) => {
                        return Err(e);
                    },
                };
                let ds = match DocumentStructure::parse(stext.as_str()) {
                    Ok(d) => d,
                    Err(e) => {
                        return Err(e);
                    },
                };
                proof {
                    assert(spec_load_doc(m, src@) == spec_load_doc_pages(
                        m,
                        src@,
                        ds.outline.deep_view(),
                    ));
                }
                ds.outline
            },
            None => {
                proof {
                    assert(spec_load_doc(m, src@) == spec_load_doc_pages(m, src@, None));
                }
                None
            },
        };
        let ghost outlinev = outline.deep_view();
        proof {
            assert(spec_load_doc(m, src@) == spec_load_doc_pages(m, src@, outlinev));
        }
        let dt = match ar.get_as_string(src) {
            Ok(t) => t,
            Err(e) => {
                return Err(e);
            },
        };
        let stubs = match FixedDocument::parse(dt.as_str()) {
            Ok(s) => s,
            Err(e) => {
                return Err(e);
            },
        };
        let ghost stubsv = stubs.deep_view();
        let mut pages: Vec<Page> = Vec::new();
        proof {
            assert(pages.deep_view() =~= Seq::<PageModel>::empty());
            assert(stubsv.take(0) =~= Seq::<PageStubModel>::empty());
            assert(spec_load_doc(m, src@) == match spec_load_pages(m, src@, stubsv) {
                None => None,
                Some(ps) => Some(DocumentModel { outline: outlinev, pages: ps }),
            });
        }
        let n = stubs.len();
        for i in 0..n
            invariant
                n == stubs@.len(),
                stubsv == stubs.deep_view(),
                stubsv.len() == n,
                forall|j: int| 0 <= j < n ==> stubsv[j] == #[trigger] stubs@[j].deep_view(),
                m == ar.entries(),
                m == old(ar).entries(),
                spec_load_doc(m, src@) == (match spec_load_pages(m, src@, stubsv) {
                    None => None,
                    Some(ps) => Some(DocumentModel { outline: outlinev, pages: ps }),
                }),
                spec_load_pages(m, src@, stubsv.take(i as int)) matches Some(ps) && ps
                    == pages.deep_view(),
                forall|j: int| 0 <= j < pages@.len() ==> page_wf(#[trigger] pages@[j]),
        {
            let ghost pages0 = pages.deep_view();
            proof {
                assert(stubsv.take(i + 1).drop_last() =~= stubsv.take(i as int));
                assert(stubsv.take(i + 1).last() == stubsv[i as int]);
            }
            let stub = &stubs[i];
            if let Some(source) = &stub.source {
                let sp = resolve(src, source.as_str());
                let ptext = match ar.get_as_string(sp.as_str()) {
                    Ok(t) => t,
                    Err(e) => {
                        proof {
                            assert(spec_load_pages(m, src@, stubsv.take(i + 1)) is None);
                            lemma_load_pages_none(m, src@, stubsv, i + 1);
                        }
                        return Err(e);
                    },
                };
                let fp = match FixedPage::parse(ptext.as_str()) {
                    Ok(p) => p,
                    Err(e) => {
                        proof {
                            assert(spec_load_pages(m, src@, stubsv.take(i + 1)) is None);
                            lemma_load_pages_none(m, src@, stubsv, i + 1);
                        }
                        return Err(e);
                    },
                };
                let page = Page::assemble(fp, stub);
                let ghost pagev = page.deep_view();
                pages.push(page);
                proof {
                    assert(pages.deep_view() =~= pages0.push(pagev));
                }
            }
        }
        proof {
            assert(stubsv.take(n as int) =~= stubsv);
        }
        Ok(Document { outline, pages })
    }
}

/// The package relationships of the two-page package: one
/// fixed-representation relationship naming the sequence part.
pub open spec fn two_page_package_rels() -> XmlTree {
    XmlTree {
        ns: Some(ns_rels()),
        name: "Relationships"@,
        attrs: Seq::empty(),
        children: seq![
            XmlTree {
                ns: Some(ns_rels()),
                name: "Relationship"@,
                attrs: seq![
                    XmlAttrModel { name: "Type"@, value: kind_fixed_representation()[0] },
                    XmlAttrModel { name: "Target"@, value: "/s.fdseq"@ },
                ],
                children: Seq::empty(),
            },
        ],
    }
}

/// The sequence part of the two-page package: one document reference.
pub open spec fn two_page_sequence() -> XmlTree {
    XmlTree {
        ns: Some(ns_xps()),
        name: "FixedDocumentSequence"@,
        attrs: Seq::empty(),
        children: seq![
            XmlTree {
                ns: Some(ns_xps()),
                name: "DocumentReference"@,
                attrs: seq![XmlAttrModel { name: "Source"@, value: "/d.fdoc"@ }],
                children: Seq::empty(),
            },
        ],
    }
}

/// The document relationships of the two-page package: none recognized, so
/// the document has no structure part and no outline.
pub open spec fn two_page_doc_rels() -> XmlTree {
    XmlTree {
        ns: Some(ns_rels()),
        name: "Relationships"@,
        attrs: Seq::empty(),
        children: Seq::empty(),
    }
}

/// The document part of the two-page package: two page stubs naming their
/// sources and nothing else.
pub open spec fn two_page_document() -> XmlTree {
    XmlTree {
        ns: Some(ns_xps()),
        name: "FixedDocument"@,
        attrs: Seq::empty(),
        children: seq![
            XmlTree {
                ns: Some(ns_xps()),
                name: "PageContent"@,
                attrs: seq![XmlAttrModel { name: "Source"@, value: "p1.fpage"@ }],
                children: Seq::empty(),
            },
            XmlTree {
                ns: Some(ns_xps()),
                name: "PageContent"@,
                attrs: seq![XmlAttrModel { name: "Source"@, value: "p2.fpage"@ }],
                children: Seq::empty(),
            },
        ],
    }
}

/// The glyph-run element of the first page.
pub open spec fn two_page_glyphs_elem() -> XmlTree {
    XmlTree { ns: Some(ns_xps()), name: "Glyphs"@, attrs: Seq::empty(), children: Seq::empty() }
}

/// The path element of the first page.
pub open spec fn two_page_path_elem() -> XmlTree {
    XmlTree { ns: Some(ns_xps()), name: "Path"@, attrs: Seq::empty(), children: Seq::empty() }
}

/// The nested canvas of the first page, holding the glyph run.
pub open spec fn two_page_inner_canvas_elem() -> XmlTree {
    XmlTree {
        ns: Some(ns_xps()),
        name: "Canvas"@,
        attrs: Seq::empty(),
        children: seq![two_page_glyphs_elem()],
    }
}

/// The outer canvas of the first page, holding the path and the nested
/// canvas.
pub open spec fn two_page_outer_canvas_elem() -> XmlTree {
    XmlTree {
        ns: Some(ns_xps()),
        name: "Canvas"@,
        attrs: Seq::empty(),
        children: seq![two_page_path_elem(), two_page_inner_canvas_elem()],
    }
}

/// The first page part of the two-page package.
pub open spec fn two_page_first_page() -> XmlTree {
    XmlTree {
        ns: Some(ns_xps()),
        name: "FixedPage"@,
        attrs: Seq::empty(),
        children: seq![two_page_outer_canvas_elem()],
    }
}

/// The second page part of the two-page package: an empty page.
pub open spec fn two_page_second_page() -> XmlTree {
    XmlTree { ns: Some(ns_xps()), name: "FixedPage"@, attrs: Seq::empty(), children: Seq::empty() }
}

/// A stub of the two-page document: a source and defaults throughout.
pub open spec fn two_page_stub(src: Seq<char>) -> PageStubModel {
    PageStubModel { source: Some(src), width: 0, height: 0, links: Seq::empty() }
}

/// The path node of the loaded first page: every property unset.
pub open spec fn two_page_path_node() -> PathModel {
    PathModel {
        name: None,
        xml_lang: None,
        fill: None,
        render_transform: None,
        clip: None,
        opacity: None,
        opacity_mask: None,
        stroke: None,
        stroke_dash_array: None,
        stroke_dash_offset: None,
        stroke_end_line_cap: None,
        stroke_start_line_cap: None,
        stroke_line_join: None,
        stroke_miter_limit: None,
        stroke_thickness: None,
        navigate_uri: None,
        data: None,
    }
}

/// The glyph-run node of the loaded first page: defaults throughout.
pub open spec fn two_page_glyphs_node() -> GlyphsModel {
    GlyphsModel {
        name: None,
        xml_lang: None,
        origin: (0, 0),
        font_uri: Seq::empty(),
        font_rendering_em_size: 0,
        fill: None,
        render_transform: None,
        clip: None,
        opacity: None,
        opacity_mask: None,
        is_sideways: None,
        indices: None,
        unicode_string: None,
        style_simulations: None,
        edge_mode: None,
        navigate_uri: None,
    }
}

/// A canvas node of the loaded first page: the given children and every
/// property unset.
pub open spec fn two_page_canvas_node(children: Seq<NodeModel>) -> CanvasModel {
    CanvasModel {
        name: None,
        xml_lang: None,
        render_transform: None,
        clip: None,
        opacity: None,
        opacity_mask: None,
        edge_mode: None,
        navigate_uri: None,
        children,
    }
}

/// What the first page part decodes to.
pub open spec fn two_page_first_part() -> FixedPageModel {
    FixedPageModel {
        name: None,
        width: None,
        height: None,
        content_box: None,
        bleed_box: None,
        xml_lang: None,
        render_tree: NodeModel::Root(
            seq![
                NodeModel::Canvas(
                    two_page_canvas_node(
                        seq![
                            NodeModel::Path(two_page_path_node()),
                            NodeModel::Canvas(
                                two_page_canvas_node(
                                    seq![NodeModel::Glyphs(two_page_glyphs_node())],
                                ),
                            ),
                        ],
                    ),
                ),
            ],
        ),
    }
}

/// What the second page part decodes to.
pub open spec fn two_page_second_part() -> FixedPageModel {
    FixedPageModel {
        name: None,
        width: None,
        height: None,
        content_box: None,
        bleed_box: None,
        xml_lang: None,
        render_tree: NodeModel::Root(Seq::empty()),
    }
}

/// What loading the two-page package yields: one document, no outline, two
/// pages of size zero; the first page's root holds one canvas whose children
/// are a path and a nested canvas holding one glyph run; the second page's
/// root is empty.
pub open spec fn two_page_loaded() -> Seq<DocumentModel> {
    seq![
        DocumentModel {
            outline: None,
            pages: seq![
                PageModel {
                    width: 0,
                    height: 0,
                    name: None,
                    render_tree: two_page_first_part().render_tree,
                    links: Seq::empty(),
                },
                PageModel {
                    width: 0,
                    height: 0,
                    name: None,
                    render_tree: NodeModel::Root(Seq::empty()),
                    links: Seq::empty(),
                },
            ],
        },
    ]
}

/// The package relationships of the fixture resolve the fixed representation
/// to the sequence part.
proof fn lemma_two_page_rels_slot()
    ensures
        spec_rel_slot(rels_children(two_page_package_rels()), kind_fixed_representation())
            == Some("/s.fdseq"@),
{
    reveal_strlit("Type");
    reveal_strlit("Target");
    reveal_with_fuel(attr_in, 4);
    assert(("Type"@).len() == 4);
    assert(("Target"@).len() == 6);
    assert("Type"@ != "Target"@);
    let prels = two_page_package_rels();
    let pchildren = rels_children(prels);
    assert(pchildren == prels.children);
    let rel = pchildren.last();
    assert(attr_in(rel.attrs, "Type"@) == Some(kind_fixed_representation()[0]));
    assert(kind_fixed_representation()[0] == kind_fixed_representation()[0]);
    assert(kind_fixed_representation().contains(kind_fixed_representation()[0]));
    assert(is_rel_of(rel, kind_fixed_representation()));
    assert(rel.attrs.drop_first() =~= seq![XmlAttrModel { name: "Target"@, value: "/s.fdseq"@ }]);
    assert(attr_in(rel.attrs, "Target"@) == Some("/s.fdseq"@));
}

/// The fixture's part references resolve to its entry names.
proof fn lemma_two_page_paths()
    ensures
        spec_resolve(Seq::empty(), "/s.fdseq"@) == "s.fdseq"@,
        ("/d.fdoc"@).len() > 0,
        ("/d.fdoc"@)[0] == '/',
        ("/d.fdoc"@).skip(1) == "d.fdoc"@,
        spec_rels_path("d.fdoc"@) == "_rels/d.fdoc.rels"@,
        spec_resolve("d.fdoc"@, "p1.fpage"@) == "p1.fpage"@,
        spec_resolve("d.fdoc"@, "p2.fpage"@) == "p2.fpage"@,
{
    reveal_strlit("/s.fdseq");
    reveal_strlit("s.fdseq");
    reveal_strlit("/d.fdoc");
    reveal_strlit("d.fdoc");
    reveal_strlit("p1.fpage");
    reveal_strlit("p2.fpage");
    reveal_strlit("_rels/");
    reveal_strlit(".rels");
    reveal_strlit("_rels/d.fdoc.rels");
    reveal_with_fuel(last_slash, 8);
    assert(("/s.fdseq"@).len() == 8);
    assert(("s.fdseq"@).len() == 7);
    assert(("/d.fdoc"@).len() == 7);
    assert(("d.fdoc"@).len() == 6);
    assert(("p1.fpage"@).len() == 8);
    assert(("p2.fpage"@).len() == 8);
    assert(("_rels/"@).len() == 6);
    assert((".rels"@).len() == 5);
    assert(("_rels/d.fdoc.rels"@).len() == 17);
    assert(("/s.fdseq"@)[0] == '/');
    assert(("/s.fdseq"@).skip(1) =~= "s.fdseq"@);
    assert(("/d.fdoc"@).skip(1) =~= "d.fdoc"@);
    assert(last_slash("d.fdoc"@) == -1);
    assert(spec_dir_of("d.fdoc"@) =~= Seq::<char>::empty());
    assert(spec_file_name("d.fdoc"@) =~= "d.fdoc"@);
    assert(spec_rels_path("d.fdoc"@) =~= "_rels/d.fdoc.rels"@);
    assert(("p1.fpage"@)[0] != '/');
    assert(("p2.fpage"@)[0] != '/');
    assert(spec_resolve("d.fdoc"@, "p1.fpage"@) =~= "p1.fpage"@);
    assert(spec_resolve("d.fdoc"@, "p2.fpage"@) =~= "p2.fpage"@);
}

/// The fixture's sequence part names exactly one document.
proof fn lemma_two_page_sources()
    ensures
        spec_doc_sequence(two_page_sequence()) == seq!["/d.fdoc"@],
{
    let seqt = two_page_sequence();
    let cs = seqt.children;
    assert(cs.drop_last() =~= Seq::<XmlTree>::empty());
    assert(spec_doc_refs(Seq::<XmlTree>::empty()) == Seq::<Seq<char>>::empty());
    assert(has_xps_name(cs.last(), "DocumentReference"@));
    assert(attr_in(cs.last().attrs, "Source"@) == Some("/d.fdoc"@));
    assert(spec_doc_refs(cs) =~= seq!["/d.fdoc"@]);
}

/// The fixture's document part declares exactly its two stubs.
proof fn lemma_two_page_stubs()
    ensures
        spec_fixed_document(two_page_document()) == seq![
            two_page_stub("p1.fpage"@),
            two_page_stub("p2.fpage"@),
        ],
{
    reveal_strlit("Source");
    reveal_strlit("Width");
    reveal_strlit("Height");
    reveal_with_fuel(attr_in, 4);
    assert(("Source"@).len() == 6);
    assert(("Width"@).len() == 5);
    assert(("Height"@).len() == 6);
    assert(("Source"@)[0] == 'S');
    assert(("Height"@)[0] == 'H');
    assert("Source"@ != "Width"@);
    assert("Source"@ != "Height"@);
    let doct = two_page_document();
    let cs = doct.children;
    let pc1 = cs[0];
    let pc2 = cs[1];
    assert(pc1.attrs.drop_first() =~= Seq::<XmlAttrModel>::empty());
    assert(pc2.attrs.drop_first() =~= Seq::<XmlAttrModel>::empty());
    assert(attr_in(pc1.attrs, "Width"@) is None);
    assert(attr_in(pc1.attrs, "Height"@) is None);
    assert(attr_in(pc2.attrs, "Width"@) is None);
    assert(attr_in(pc2.attrs, "Height"@) is None);
    assert(spec_page_stub(pc1) == two_page_stub("p1.fpage"@));
    assert(spec_page_stub(pc2) == two_page_stub("p2.fpage"@));
    assert(cs.drop_last() =~= seq![pc1]);
    assert(seq![pc1].drop_last() =~= Seq::<XmlTree>::empty());
    assert(spec_page_stubs(Seq::<XmlTree>::empty()) == Seq::<PageStubModel>::empty());
    assert(seq![pc1].last() == pc1);
    assert(has_xps_name(pc1, "PageContent"@));
    assert(spec_page_stubs(seq![pc1]) =~= seq![two_page_stub("p1.fpage"@)]);
    assert(cs.last() == pc2);
    assert(has_xps_name(pc2, "PageContent"@));
    assert(spec_page_stubs(cs) =~= seq![two_page_stub("p1.fpage"@), two_page_stub("p2.fpage"@)]);
}

/// The fixture's first page part decodes to the canvas-path-canvas-glyphs
/// tree.
proof fn lemma_two_page_first_decodes()
    ensures
        spec_fixed_page(two_page_first_page()) == Some(two_page_first_part()),
{
    reveal_strlit("Path");
    reveal_strlit("Glyphs");
    reveal_strlit("Canvas");
    reveal_strlit("Canvas.OpacityMask");
    assert(("Path"@).len() == 4);
    assert(("Glyphs"@).len() == 6);
    assert(("Canvas"@).len() == 6);
    assert(("Canvas.OpacityMask"@).len() == 18);
    assert(("Canvas"@)[0] == 'C');
    assert(("Glyphs"@)[0] == 'G');
    assert("Glyphs"@ != "Path"@);
    assert("Canvas"@ != "Path"@);
    assert("Canvas"@ != "Glyphs"@);
    assert("Path"@ != "Canvas.OpacityMask"@);
    assert("Glyphs"@ != "Canvas.OpacityMask"@);
    assert("Canvas"@ != "Canvas.OpacityMask"@);
    let path = two_page_path_elem();
    let glyph = two_page_glyphs_elem();
    let inner = two_page_inner_canvas_elem();
    let canvas = two_page_outer_canvas_elem();
    let fp1 = two_page_first_page();
    let path_node = NodeModel::Path(two_page_path_node());
    let glyph_node = NodeModel::Glyphs(two_page_glyphs_node());
    let inner_node = NodeModel::Canvas(two_page_canvas_node(seq![glyph_node]));
    let outer_node = NodeModel::Canvas(two_page_canvas_node(seq![path_node, inner_node]));

    assert(has_xps_name(path, "Path"@));
    assert(spec_path(path) == Some(two_page_path_node()));
    assert(spec_child_node(path) == DecodedChild::Node(path_node));

    assert(!has_xps_name(glyph, "Path"@));
    assert(has_xps_name(glyph, "Glyphs"@));
    assert(spec_glyphs(glyph) == Some(two_page_glyphs_node()));
    assert(spec_child_node(glyph) == DecodedChild::Node(glyph_node));

    assert(!has_xps_name(inner, "Path"@));
    assert(!has_xps_name(inner, "Glyphs"@));
    assert(has_xps_name(inner, "Canvas"@));
    assert(spec_paint_props_ok(inner.children, "Canvas.OpacityMask"@, "Canvas.OpacityMask"@,
        "Canvas.OpacityMask"@)) by {
        assert(forall|i: int|
            0 <= i < inner.children.len() ==> !needs_brush(
                #[trigger] inner.children[i],
                "Canvas.OpacityMask"@,
                "Canvas.OpacityMask"@,
                "Canvas.OpacityMask"@,
            ));
    }
    assert(spec_canvas_props(inner) == Some(two_page_canvas_node(Seq::empty())));
    assert(spec_render_children(inner.children) == Some(seq![glyph_node])) by {
        assert(inner.children.drop_last() =~= Seq::<XmlTree>::empty());
        assert(spec_render_children(Seq::<XmlTree>::empty()) == Some(Seq::<NodeModel>::empty()));
        assert(inner.children.last() == glyph);
        assert(Seq::<NodeModel>::empty().push(glyph_node) =~= seq![glyph_node]);
    }
    assert(two_page_canvas_node(seq![glyph_node]) == CanvasModel {
        children: seq![glyph_node],
        ..two_page_canvas_node(Seq::empty())
    });
    assert(spec_child_node(inner) == DecodedChild::Node(inner_node));

    assert(!has_xps_name(canvas, "Path"@));
    assert(!has_xps_name(canvas, "Glyphs"@));
    assert(has_xps_name(canvas, "Canvas"@));
    assert(spec_paint_props_ok(canvas.children, "Canvas.OpacityMask"@, "Canvas.OpacityMask"@,
        "Canvas.OpacityMask"@)) by {
        assert(forall|i: int|
            0 <= i < canvas.children.len() ==> !needs_brush(
                #[trigger] canvas.children[i],
                "Canvas.OpacityMask"@,
                "Canvas.OpacityMask"@,
                "Canvas.OpacityMask"@,
            ));
    }
    assert(spec_canvas_props(canvas) == Some(two_page_canvas_node(Seq::empty())));
    assert(spec_render_children(canvas.children) == Some(seq![path_node, inner_node])) by {
        assert(canvas.children.drop_last() =~= seq![path]);
        assert(seq![path].drop_last() =~= Seq::<XmlTree>::empty());
        assert(spec_render_children(Seq::<XmlTree>::empty()) == Some(Seq::<NodeModel>::empty()));
        assert(seq![path].last() == path);
        assert(spec_render_children(seq![path]) == Some(Seq::<NodeModel>::empty().push(path_node)));
        assert(canvas.children.last() == inner);
        assert(Seq::<NodeModel>::empty().push(path_node).push(inner_node) =~= seq![
            path_node,
            inner_node,
        ]);
    }
    assert(two_page_canvas_node(seq![path_node, inner_node]) == CanvasModel {
        children: seq![path_node, inner_node],
        ..two_page_canvas_node(Seq::empty())
    });
    assert(spec_child_node(canvas) == DecodedChild::Node(outer_node));

    assert(spec_render_children(fp1.children) == Some(seq![outer_node])) by {
        assert(fp1.children.drop_last() =~= Seq::<XmlTree>::empty());
        assert(spec_render_children(Seq::<XmlTree>::empty()) == Some(Seq::<NodeModel>::empty()));
        assert(fp1.children.last() == canvas);
        assert(Seq::<NodeModel>::empty().push(outer_node) =~= seq![outer_node]);
    }
    assert(spec_fixed_page(fp1) == Some(two_page_first_part()));
}

/// The fixture's second page part decodes to an empty root.
proof fn lemma_two_page_second_decodes()
    ensures
        spec_fixed_page(two_page_second_page()) == Some(two_page_second_part()),
{
    let fp2 = two_page_second_page();
    assert(spec_render_children(fp2.children) == Some(Seq::<NodeModel>::empty()));
}

/// End to end: a package whose parts parse to the two-page fixtures -- one
/// document holding two pages, the first a canvas with a path and a nested
/// canvas with a glyph run, the second empty -- loads to exactly one
/// document with exactly those two pages.
pub proof fn lemma_two_page_package_loads(
    m: Map<Seq<char>, Seq<u8>>,
    rt: Seq<char>,
    ft: Seq<char>,
    drt: Seq<char>,
    dt: Seq<char>,
    p1t: Seq<char>,
    p2t: Seq<char>,
)
    requires
        spec_read_text(m, "_rels/.rels"@) == Some(rt),
        xml_tree_of(rt) == Some(two_page_package_rels()),
        spec_read_text(m, "s.fdseq"@) == Some(ft),
        xml_tree_of(ft) == Some(two_page_sequence()),
        spec_read_text(m, "_rels/d.fdoc.rels"@) == Some(drt),
        xml_tree_of(drt) == Some(two_page_doc_rels()),
        spec_read_text(m, "d.fdoc"@) == Some(dt),
        xml_tree_of(dt) == Some(two_page_document()),
        spec_read_text(m, "p1.fpage"@) == Some(p1t),
        xml_tree_of(p1t) == Some(two_page_first_page()),
        spec_read_text(m, "p2.fpage"@) == Some(p2t),
        xml_tree_of(p2t) == Some(two_page_second_page()),
    ensures
        spec_load(m) == Some(two_page_loaded()),
{
    lemma_two_page_rels_slot();
    lemma_two_page_paths();
    lemma_two_page_sources();
    lemma_two_page_stubs();
    lemma_two_page_first_decodes();
    lemma_two_page_second_decodes();

    // The document names no structure part, so it has no outline.
    assert(rels_children(two_page_doc_rels()) == Seq::<XmlTree>::empty());
    assert(spec_rel_slot(Seq::<XmlTree>::empty(), kind_document_structure()) is None);

    // The two pages load and assemble against their stubs.
    let stub1 = two_page_stub("p1.fpage"@);
    let stub2 = two_page_stub("p2.fpage"@);
    let page1 = two_page_loaded()[0].pages[0];
    let page2 = two_page_loaded()[0].pages[1];
    assert(spec_assemble_page(two_page_first_part(), stub1) == page1);
    assert(spec_assemble_page(two_page_second_part(), stub2) == page2);
    assert(spec_load_page(m, "d.fdoc"@, stub1, "p1.fpage"@) == Some(page1));
    assert(spec_load_page(m, "d.fdoc"@, stub2, "p2.fpage"@) == Some(page2));
    let stubs = seq![stub1, stub2];
    assert(spec_load_pages(m, "d.fdoc"@, stubs) == Some(seq![page1, page2])) by {
        assert(stubs.drop_last() =~= seq![stub1]);
        assert(seq![stub1].drop_last() =~= Seq::<PageStubModel>::empty());
        assert(spec_load_pages(m, "d.fdoc"@, Seq::<PageStubModel>::empty()) == Some(
            Seq::<PageModel>::empty(),
        ));
        assert(seq![stub1].last() == stub1);
        assert(spec_load_pages(m, "d.fdoc"@, seq![stub1]) == Some(Seq::<PageModel>::empty().push(
            page1,
        )));
        assert(stubs.last() == stub2);
        assert(Seq::<PageModel>::empty().push(page1).push(page2) =~= seq![page1, page2]);
    }

    // The document and the package compose.
    let docm = two_page_loaded()[0];
    assert(docm.pages =~= seq![page1, page2]);
    assert(spec_load_doc_pages(m, "d.fdoc"@, None) == Some(docm));
    assert(spec_load_doc(m, "d.fdoc"@) == Some(docm));
    assert(spec_load_docs(m, seq!["/d.fdoc"@]) == Some(seq![docm])) by {
        assert(seq!["/d.fdoc"@].drop_last() =~= Seq::<Seq<char>>::empty());
        assert(spec_load_docs(m, Seq::<Seq<char>>::empty()) == Some(Seq::<DocumentModel>::empty()));
        assert(seq!["/d.fdoc"@].last() == "/d.fdoc"@);
        assert(Seq::<DocumentModel>::empty().push(docm) =~= seq![docm]);
    }
    assert(spec_doc_sequence(two_page_sequence()) == seq!["/d.fdoc"@]);
    assert(spec_load(m) == Some(seq![docm]));
    assert(seq![docm] =~= two_page_loaded());
}

} // verus!
