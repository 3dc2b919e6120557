//! The render tree model and the renderer contract.
//!
//! A page's visual content is a tree: branching nodes (the root and canvas
//! groups) hold children; leaf nodes (paths and glyph runs) hold none, and
//! [`RenderNode::append`] demands a branching node.  A rendering backend
//! consumes the tree through the [`Renderer`] trait; recursing into a
//! canvas's children is each backend's own responsibility.

use vstd::prelude::*;

use crate::error::RenderError;
use crate::scalar::{spec_parse_scalar, spec_parse_bool, spec_split, split_chars, to_chars, Scalar,
    parse_bool as parse_bool_attr};
use crate::scalar;

verus! {

/// The outcome of a rendering operation.
pub type RenderResult<T> = Result<T, RenderError>;

/// A six-component two-dimensional affine transform.
#[derive(Clone, Copy, PartialEq, Eq, Structural, Debug)]
pub struct RenderTransform {
    pub xx: Scalar,
    pub yx: Scalar,
    pub xy: Scalar,
    pub yy: Scalar,
    pub x0: Scalar,
    pub y0: Scalar,
}

/// The mathematical value of a [`RenderTransform`].
pub struct TransformModel {
    pub xx: int,
    pub yx: int,
    pub xy: int,
    pub yy: int,
    pub x0: int,
    pub y0: int,
}

impl DeepView for RenderTransform {
    type V = TransformModel;

    open spec fn deep_view(&self) -> TransformModel {
        TransformModel {
            xx: self.xx.micros as int,
            yx: self.yx.micros as int,
            xy: self.xy.micros as int,
            yy: self.yy.micros as int,
            x0: self.x0.micros as int,
            y0: self.y0.micros as int,
        }
    }
}

/// What a transform attribute resolves to: exactly six comma-separated
/// decimal fields, each a literal of the numeric grammar; anything else
/// leaves the property unset.
pub open spec fn spec_parse_transform(s: Seq<char>) -> Option<TransformModel> {
    let fields = spec_split(s, ',');
    if fields.len() != 6 {
        None
    } else {
        match (
            spec_parse_scalar(fields[0]),
            spec_parse_scalar(fields[1]),
            spec_parse_scalar(fields[2]),
            spec_parse_scalar(fields[3]),
            spec_parse_scalar(fields[4]),
            spec_parse_scalar(fields[5]),
        ) {
            (Some(xx), Some(yx), Some(xy), Some(yy), Some(x0), Some(y0)) => Some(
                TransformModel { xx, yx, xy, yy, x0, y0 },
            ),
            _ => None,
        }
    }
}

/// A transform literal with any field count other than six leaves the
/// property unset.
pub proof fn lemma_transform_needs_six_fields(s: Seq<char>)
    requires
        spec_split(s, ',').len() != 6,
    ensures
        spec_parse_transform(s) is None,
{
}

impl RenderTransform {
    /// Parses a transform attribute literal.
    pub fn parse(s: &str) -> (r: Option<RenderTransform>)
        ensures
            r.deep_view() == spec_parse_transform(s@),
    {
        let chars = to_chars(s);
        let fields = split_chars(&chars, ',');
        proof {
            assert(fields.deep_view().len() == fields@.len());
        }
        if fields.len() != 6 {
            return None;
        }
        proof {
            assert(fields.deep_view()[0] =~= fields@[0]@);
            assert(fields.deep_view()[1] =~= fields@[1]@);
            assert(fields.deep_view()[2] =~= fields@[2]@);
            assert(fields.deep_view()[3] =~= fields@[3]@);
            assert(fields.deep_view()[4] =~= fields@[4]@);
            assert(fields.deep_view()[5] =~= fields@[5]@);
        }
        let xx = scalar::parse_scalar_chars(&fields[0]);
        let yx = scalar::parse_scalar_chars(&fields[1]);
        let xy = scalar::parse_scalar_chars(&fields[2]);
        let yy = scalar::parse_scalar_chars(&fields[3]);
        let x0 = scalar::parse_scalar_chars(&fields[4]);
        let y0 = scalar::parse_scalar_chars(&fields[5]);
        match (xx, yx, xy, yy, x0, y0) {
            (Some(xx), Some(yx), Some(xy), Some(yy), Some(x0), Some(y0)) => Some(
                RenderTransform { xx, yx, xy, yy, x0, y0 },
            ),
            _ => None,
        }
    }
}

/// A clipping region; its geometry is not decoded yet.
#[derive(Clone, Copy, PartialEq, Eq, Structural, Debug)]
pub struct Clip {}

/// An opacity value.
#[derive(Clone, Copy, PartialEq, Eq, Structural, Debug)]
pub struct Opacity(pub Scalar);

/// An opacity mask; its brush is not decoded yet.
#[derive(Clone, Copy, PartialEq, Eq, Structural, Debug)]
pub struct OpacityMask {}

/// A fill; its brush is not decoded yet.
#[derive(Clone, Copy, PartialEq, Eq, Structural, Debug)]
pub struct Fill {}

/// A stroke; its brush is not decoded yet.
#[derive(Clone, Copy, PartialEq, Eq, Structural, Debug)]
pub struct Stroke {}

/// A stroke dash pattern; not decoded yet.
#[derive(Clone, Copy, PartialEq, Eq, Structural, Debug)]
pub struct StrokeDashArray {}

/// A stroke dash offset; not decoded yet.
#[derive(Clone, Copy, PartialEq, Eq, Structural, Debug)]
pub struct StrokeDashOffset {}

/// A stroke end line cap; not decoded yet.
#[derive(Clone, Copy, PartialEq, Eq, Structural, Debug)]
pub struct StrokeEndLineCap {}

/// A stroke start line cap; not decoded yet.
#[derive(Clone, Copy, PartialEq, Eq, Structural, Debug)]
pub struct StrokeStartLineCap {}

/// A stroke line join; not decoded yet.
#[derive(Clone, Copy, PartialEq, Eq, Structural, Debug)]
pub struct StrokeLineJoin {}

/// A stroke miter limit; not decoded yet.
#[derive(Clone, Copy, PartialEq, Eq, Structural, Debug)]
pub struct StrokeMiterLimit {}

/// A stroke thickness; not decoded yet.
#[derive(Clone, Copy, PartialEq, Eq, Structural, Debug)]
pub struct StrokeThickness {}

/// Whether a glyph run is laid out sideways.
#[derive(Clone, Copy, PartialEq, Eq, Structural, Debug)]
pub struct IsSideways(pub bool);

/// A glyph-index specification; only its boolean literal form is decoded.
#[derive(Clone, Copy, PartialEq, Eq, Structural, Debug)]
pub struct Indices(pub bool);

/// A unicode string specification; only its boolean literal form is decoded.
#[derive(Clone, Copy, PartialEq, Eq, Structural, Debug)]
pub struct UnicodeString(pub bool);

/// A style simulation specification; only its boolean literal form is
/// decoded.
#[derive(Clone, Copy, PartialEq, Eq, Structural, Debug)]
pub struct StyleSimulations(pub bool);

/// An edge-mode rendering option; not decoded yet.
#[derive(Clone, Copy, PartialEq, Eq, Structural, Debug)]
pub struct EdgeMode {}

/// A navigation target; not decoded yet.
#[derive(Clone, Copy, PartialEq, Eq, Structural, Debug)]
pub struct NavigateUri {}

/// A paint source: the brush kinds the decoder recognizes.
#[derive(Clone, Copy, PartialEq, Eq, Structural, Debug)]
pub enum Brush {
    Image,
    LinearGradient,
    RadialGradient,
    SolidColor,
    Visual,
}

/// An axis-aligned rectangle.
#[derive(Clone, Copy, PartialEq, Eq, Structural, Debug)]
pub struct Rect {
    pub x: Scalar,
    pub y: Scalar,
    pub width: Scalar,
    pub height: Scalar,
}

/// A page's content box; not decoded yet.
#[derive(Clone, Copy, PartialEq, Eq, Structural, Debug)]
pub struct ContentBox(pub Rect);

/// A page's bleed box; not decoded yet.
#[derive(Clone, Copy, PartialEq, Eq, Structural, Debug)]
pub struct BleedBox(pub Rect);

impl DeepView for ContentBox {
    type V = ();

    open spec fn deep_view(&self) -> () {
        ()
    }
}

impl DeepView for BleedBox {
    type V = ();

    open spec fn deep_view(&self) -> () {
        ()
    }
}

impl DeepView for Clip {
    type V = ();

    open spec fn deep_view(&self) -> () {
        ()
    }
}

impl DeepView for Opacity {
    type V = int;

    open spec fn deep_view(&self) -> int {
        self.0.micros as int
    }
}

impl DeepView for OpacityMask {
    type V = ();

    open spec fn deep_view(&self) -> () {
        ()
    }
}

impl DeepView for Fill {
    type V = ();

    open spec fn deep_view(&self) -> () {
        ()
    }
}

impl DeepView for Stroke {
    type V = ();

    open spec fn deep_view(&self) -> () {
        ()
    }
}

impl DeepView for StrokeDashArray {
    type V = ();

    open spec fn deep_view(&self) -> () {
        ()
    }
}

impl DeepView for StrokeDashOffset {
    type V = ();

    open spec fn deep_view(&self) -> () {
        ()
    }
}

impl DeepView for StrokeEndLineCap {
    type V = ();

    open spec fn deep_view(&self) -> () {
        ()
    }
}

impl DeepView for StrokeStartLineCap {
    type V = ();

    open spec fn deep_view(&self) -> () {
        ()
    }
}

impl DeepView for StrokeLineJoin {
    type V = ();

    open spec fn deep_view(&self) -> () {
        ()
    }
}

impl DeepView for StrokeMiterLimit {
    type V = ();

    open spec fn deep_view(&self) -> () {
        ()
    }
}

impl DeepView for StrokeThickness {
    type V = ();

    open spec fn deep_view(&self) -> () {
        ()
    }
}

impl DeepView for IsSideways {
    type V = bool;

    open spec fn deep_view(&self) -> bool {
        self.0
    }
}

impl DeepView for Indices {
    type V = bool;

    open spec fn deep_view(&self) -> bool {
        self.0
    }
}

impl DeepView for UnicodeString {
    type V = bool;

    open spec fn deep_view(&self) -> bool {
        self.0
    }
}

impl DeepView for StyleSimulations {
    type V = bool;

    open spec fn deep_view(&self) -> bool {
        self.0
    }
}

impl DeepView for EdgeMode {
    type V = ();

    open spec fn deep_view(&self) -> () {
        ()
    }
}

impl DeepView for NavigateUri {
    type V = ();

    open spec fn deep_view(&self) -> () {
        ()
    }
}

impl Clip {
    /// Parses a clip attribute; every literal is accepted for now.
    pub fn parse(s: &str) -> (r: Option<Clip>)
        ensures
            r == Some(Clip {  }),
    {
        let _ = s;
        Some(Clip {  })
    }
}

impl Opacity {
    /// Parses an opacity attribute as a decimal literal.
    pub fn parse(s: &str) -> (r: Option<Opacity>)
        ensures
            r.deep_view() == spec_parse_scalar(s@),
    {
        match Scalar::parse(s) {
            Some(v) => Some(Opacity(v)),
            None => None,
        }
    }
}

impl IsSideways {
    /// Parses a boolean attribute literal.
    pub fn parse(s: &str) -> (r: Option<IsSideways>)
        ensures
            r.deep_view() == spec_parse_bool(s@),
    {
        match parse_bool_attr(s) {
            Some(b) => Some(IsSideways(b)),
            None => None,
        }
    }
}

impl Indices {
    /// Parses a boolean attribute literal.
    pub fn parse(s: &str) -> (r: Option<Indices>)
        ensures
            r.deep_view() == spec_parse_bool(s@),
    {
        match parse_bool_attr(s) {
            Some(b) => Some(Indices(b)),
            None => None,
        }
    }
}

impl UnicodeString {
    /// Parses a boolean attribute literal.
    pub fn parse(s: &str) -> (r: Option<UnicodeString>)
        ensures
            r.deep_view() == spec_parse_bool(s@),
    {
        match parse_bool_attr(s) {
            Some(b) => Some(UnicodeString(b)),
            None => None,
        }
    }
}

impl StyleSimulations {
    /// Parses a boolean attribute literal.
    pub fn parse(s: &str) -> (r: Option<StyleSimulations>)
        ensures
            r.deep_view() == spec_parse_bool(s@),
    {
        match parse_bool_attr(s) {
            Some(b) => Some(StyleSimulations(b)),
            None => None,
        }
    }
}

/// A canvas: a group node with shared visual properties and children.
#[derive(Debug)]
pub struct Canvas {
    pub name: Option<String>,
    pub xml_lang: Option<String>,
    pub render_transform: Option<RenderTransform>,
    pub clip: Option<Clip>,
    pub opacity: Option<Opacity>,
    pub opacity_mask: Option<OpacityMask>,
    pub edge_mode: Option<EdgeMode>,
    pub navigate_uri: Option<NavigateUri>,
    pub children: Vec<RenderNode>,
}

/// A glyph run: a leaf node carrying text placement and styling.
#[derive(Debug)]
pub struct Glyphs {
    pub name: Option<String>,
    pub xml_lang: Option<String>,
    pub origin: (Scalar, Scalar),
    pub font_uri: String,
    pub font_rendering_em_size: Scalar,
    pub fill: Option<Fill>,
    pub render_transform: Option<RenderTransform>,
    pub clip: Option<Clip>,
    pub opacity: Option<Opacity>,
    pub opacity_mask: Option<OpacityMask>,
    pub is_sideways: Option<IsSideways>,
    pub indices: Option<Indices>,
    pub unicode_string: Option<UnicodeString>,
    pub style_simulations: Option<StyleSimulations>,
    pub edge_mode: Option<EdgeMode>,
    pub navigate_uri: Option<NavigateUri>,
}

/// A path: a leaf node carrying geometry and stroke/fill properties.
#[derive(Debug)]
pub struct Path {
    pub name: Option<String>,
    pub xml_lang: Option<String>,
    pub fill: Option<Fill>,
    pub render_transform: Option<RenderTransform>,
    pub clip: Option<Clip>,
    pub opacity: Option<Opacity>,
    pub opacity_mask: Option<OpacityMask>,
    pub stroke: Option<Stroke>,
    pub stroke_dash_array: Option<StrokeDashArray>,
    pub stroke_dash_offset: Option<StrokeDashOffset>,
    pub stroke_end_line_cap: Option<StrokeEndLineCap>,
    pub stroke_start_line_cap: Option<StrokeStartLineCap>,
    pub stroke_line_join: Option<StrokeLineJoin>,
    pub stroke_miter_limit: Option<StrokeMiterLimit>,
    pub stroke_thickness: Option<StrokeThickness>,
    pub navigate_uri: Option<String>,
    pub data: Option<String>,
}

/// One node of a render tree.
#[derive(Debug)]
pub enum RenderNode {
    Root(Vec<RenderNode>),
    Canvas(Canvas),
    Glyphs(Glyphs),
    Path(Path),
}

/// The mathematical value of a [`Canvas`].
pub struct CanvasModel {
    pub name: Option<Seq<char>>,
    pub xml_lang: Option<Seq<char>>,
    pub render_transform: Option<TransformModel>,
    pub clip: Option<()>,
    pub opacity: Option<int>,
    pub opacity_mask: Option<()>,
    pub edge_mode: Option<()>,
    pub navigate_uri: Option<()>,
    pub children: Seq<NodeModel>,
}

/// The mathematical value of a [`Glyphs`].
pub struct GlyphsModel {
    pub name: Option<Seq<char>>,
    pub xml_lang: Option<Seq<char>>,
    pub origin: (int, int),
    pub font_uri: Seq<char>,
    pub font_rendering_em_size: int,
    pub fill: Option<()>,
    pub render_transform: Option<TransformModel>,
    pub clip: Option<()>,
    pub opacity: Option<int>,
    pub opacity_mask: Option<()>,
    pub is_sideways: Option<bool>,
    pub indices: Option<bool>,
    pub unicode_string: Option<bool>,
    pub style_simulations: Option<bool>,
    pub edge_mode: Option<()>,
    pub navigate_uri: Option<()>,
}

/// The mathematical value of a [`Path`].
pub struct PathModel {
    pub name: Option<Seq<char>>,
    pub xml_lang: Option<Seq<char>>,
    pub fill: Option<()>,
    pub render_transform: Option<TransformModel>,
    pub clip: Option<()>,
    pub opacity: Option<int>,
    pub opacity_mask: Option<()>,
    pub stroke: Option<()>,
    pub stroke_dash_array: Option<()>,
    pub stroke_dash_offset: Option<()>,
    pub stroke_end_line_cap: Option<()>,
    pub stroke_start_line_cap: Option<()>,
    pub stroke_line_join: Option<()>,
    pub stroke_miter_limit: Option<()>,
    pub stroke_thickness: Option<()>,
    pub navigate_uri: Option<Seq<char>>,
    pub data: Option<Seq<char>>,
}

/// The mathematical value of a [`RenderNode`]: the same tree over sequences.
pub enum NodeModel {
    Root(Seq<NodeModel>),
    Canvas(CanvasModel),
    Glyphs(GlyphsModel),
    Path(PathModel),
}

impl DeepView for Glyphs {
    type V = GlyphsModel;

    open spec fn deep_view(&self) -> GlyphsModel {
        GlyphsModel {
            name: self.name.deep_view(),
            xml_lang: self.xml_lang.deep_view(),
            origin: (self.origin.0.micros as int, self.origin.1.micros as int),
            font_uri: self.font_uri@,
            font_rendering_em_size: self.font_rendering_em_size.micros as int,
            fill: self.fill.deep_view(),
            render_transform: self.render_transform.deep_view(),
            clip: self.clip.deep_view(),
            opacity: self.opacity.deep_view(),
            opacity_mask: self.opacity_mask.deep_view(),
            is_sideways: self.is_sideways.deep_view(),
            indices: self.indices.deep_view(),
            unicode_string: self.unicode_string.deep_view(),
            style_simulations: self.style_simulations.deep_view(),
            edge_mode: self.edge_mode.deep_view(),
            navigate_uri: self.navigate_uri.deep_view(),
        }
    }
}

impl DeepView for Path {
    type V = PathModel;

    open spec fn deep_view(&self) -> PathModel {
        PathModel {
            name: self.name.deep_view(),
            xml_lang: self.xml_lang.deep_view(),
            fill: self.fill.deep_view(),
            render_transform: self.render_transform.deep_view(),
            clip: self.clip.deep_view(),
            opacity: self.opacity.deep_view(),
            opacity_mask: self.opacity_mask.deep_view(),
            stroke: self.stroke.deep_view(),
            stroke_dash_array: self.stroke_dash_array.deep_view(),
            stroke_dash_offset: self.stroke_dash_offset.deep_view(),
            stroke_end_line_cap: self.stroke_end_line_cap.deep_view(),
            stroke_start_line_cap: self.stroke_start_line_cap.deep_view(),
            stroke_line_join: self.stroke_line_join.deep_view(),
            stroke_miter_limit: self.stroke_miter_limit.deep_view(),
            stroke_thickness: self.stroke_thickness.deep_view(),
            navigate_uri: self.navigate_uri.deep_view(),
            data: self.data.deep_view(),
        }
    }
}

impl DeepView for Canvas {
    type V = CanvasModel;

    open spec fn deep_view(&self) -> CanvasModel
        decreases self,
    {
        CanvasModel {
            name: self.name.deep_view(),
            xml_lang: self.xml_lang.deep_view(),
            render_transform: self.render_transform.deep_view(),
            clip: self.clip.deep_view(),
            opacity: self.opacity.deep_view(),
            opacity_mask: self.opacity_mask.deep_view(),
            edge_mode: self.edge_mode.deep_view(),
            navigate_uri: self.navigate_uri.deep_view(),
            children: nodes_of(self.children@),
        }
    }
}

impl DeepView for RenderNode {
    type V = NodeModel;

    open spec fn deep_view(&self) -> NodeModel
        decreases self,
    {
        match self {
            RenderNode::Root(children) => NodeModel::Root(nodes_of(children@)),
            RenderNode::Canvas(c) => NodeModel::Canvas(c.deep_view()),
            RenderNode::Glyphs(g) => NodeModel::Glyphs(g.deep_view()),
            RenderNode::Path(p) => NodeModel::Path(p.deep_view()),
        }
    }
}

/// The mathematical values of a sequence of nodes, in order.
pub open spec fn nodes_of(s: Seq<RenderNode>) -> Seq<NodeModel>
    decreases s,
{
    if s.len() == 0 {
        Seq::empty()
    } else {
        seq![s[0].deep_view()] + nodes_of(s.subrange(1, s.len() as int))
    }
}

/// Taking the values of a sequence of nodes goes node by node.
pub proof fn lemma_nodes_of_index(s: Seq<RenderNode>)
    ensures
        nodes_of(s).len() == s.len(),
        forall|i: int| 0 <= i < s.len() ==> nodes_of(s)[i] == #[trigger] s[i].deep_view(),
    decreases s.len(),
{
    if s.len() > 0 {
        let rest = s.subrange(1, s.len() as int);
        lemma_nodes_of_index(rest);
        assert forall|i: int| 0 <= i < s.len() implies nodes_of(s)[i] == #[trigger] s[i]
            .deep_view() by {
            if i > 0 {
                assert(rest[i - 1] == s[i]);
                let first = seq![s[0].deep_view()];
                assert(nodes_of(s) == first + nodes_of(rest));
                assert(first.len() == 1);
                assert((first + nodes_of(rest))[i] == nodes_of(rest)[i - 1]);
            }
        }
    }
}

/// Appending a node extends the value sequence by that node's value.
pub proof fn lemma_nodes_of_push(s: Seq<RenderNode>, n: RenderNode)
    ensures
        nodes_of(s.push(n)) =~= nodes_of(s).push(n.deep_view()),
    decreases s.len(),
{
    lemma_nodes_of_index(s.push(n));
    lemma_nodes_of_index(s);
    assert(s.push(n)[s.len() as int] == n);
    assert forall|i: int| 0 <= i < s.len() implies nodes_of(s.push(n))[i] == nodes_of(s).push(
        n.deep_view(),
    )[i] by {
        assert(s.push(n)[i] == s[i]);
        assert(nodes_of(s.push(n))[i] == s.push(n)[i].deep_view());
        assert(nodes_of(s)[i] == s[i].deep_view());
        assert(nodes_of(s).push(n.deep_view())[i] == nodes_of(s)[i]);
    }
}

/// The children a branching node holds; a leaf holds none.
pub open spec fn spec_branch_children(n: RenderNode) -> Seq<RenderNode> {
    match n {
        RenderNode::Root(cs) => cs@,
        RenderNode::Canvas(c) => c.children@,
        RenderNode::Glyphs(_) => Seq::empty(),
        RenderNode::Path(_) => Seq::empty(),
    }
}

/// A well-formed tree: a root stands only at the top, and only branching
/// nodes hold children.
pub open spec fn wf_node(n: NodeModel) -> bool
    decreases n,
{
    match n {
        NodeModel::Root(children) => forall|i: int|
            0 <= i < children.len() ==> !(#[trigger] children[i] is Root) && wf_node(children[i]),
        NodeModel::Canvas(c) => forall|i: int|
            0 <= i < c.children.len() ==> !(#[trigger] c.children[i] is Root) && wf_node(
                c.children[i],
            ),
        NodeModel::Glyphs(_) => true,
        NodeModel::Path(_) => true,
    }
}

/// Whether two canvases share every property, children apart.
pub open spec fn same_canvas_props(a: Canvas, b: Canvas) -> bool {
    &&& a.name == b.name
    &&& a.xml_lang == b.xml_lang
    &&& a.render_transform == b.render_transform
    &&& a.clip == b.clip
    &&& a.opacity == b.opacity
    &&& a.opacity_mask == b.opacity_mask
    &&& a.edge_mode == b.edge_mode
    &&& a.navigate_uri == b.navigate_uri
}

impl RenderNode {
    /// Appends a child node; only the branching kinds, root and canvas,
    /// accept children.
    pub fn append(&mut self, node: RenderNode)
        requires
            *old(self) is Root || *old(self) is Canvas,
        ensures
            *old(self) is Root ==> *final(self) is Root && (*final(self))->Root_0@ == (*old(self))->Root_0@.push(node),
            *old(self) is Canvas ==> *final(self) is Canvas && (*final(self))->Canvas_0.children@ == (*old(self))->Canvas_0.children@.push(node) && same_canvas_props(
                (*final(self))->Canvas_0,
                (*old(self))->Canvas_0,
            ),
    {
        match self {
            RenderNode::Root(children) => {
                children.push(node);
            },
            RenderNode::Canvas(c) => {
                c.children.push(node);
            },
            _ => {
                proof {
                    assert(false);
                }
            },
        }
    }
}

impl Default for RenderNode {
    /// The empty tree: a root with no children.
    fn default() -> (r: RenderNode)
        ensures
            r is Root,
            r->Root_0@.len() == 0,
    {
        RenderNode::Root(Vec::new())
    }
}

/// A rendering backend.
///
/// The default tree walk dispatches a root's children to the per-kind
/// operations.  Recursing into a canvas's children is the responsibility of
/// each backend's `render_canvas`: one that does not re-invoke the walk over
/// them skips that subtree.
pub trait Renderer: Sized {
    /// Renders a whole tree.
    fn render(&self, tree: &RenderNode) -> (r: RenderResult<()>)
        requires
            tree is Root,
            wf_node(tree.deep_view()),
        ensures
            tree->Root_0@.len() == 0 ==> r is Ok,
    {
        match tree {
            RenderNode::Root(children) => {
                proof {
                    lemma_nodes_of_index(children@);
                }
                self.render_children(children.as_slice())
            },
            _ => {
                proof {
                    assert(!(*tree is Root));
                    assert(false);
                }
                Ok(())
            },
        }
    }

    /// Renders the children of a branching node, dispatching each to its
    /// per-kind operation.
    fn render_children(&self, children: &[RenderNode]) -> (r: RenderResult<()>)
        requires
            forall|i: int|
                0 <= i < children@.len() ==> !(#[trigger] children@[i].deep_view() is Root)
                    && wf_node(children@[i].deep_view()),
        ensures
            children@.len() == 0 ==> r is Ok,
    {
        let n = children.len();
        for i in 0..n
            invariant
                n == children@.len(),
                forall|j: int|
                    0 <= j < n ==> !(#[trigger] children@[j].deep_view() is Root) && wf_node(
                        children@[j].deep_view(),
                    ),
        {
            let r = match &children[i] {
                RenderNode::Path(p) => self.render_path(p),
                RenderNode::Glyphs(g) => self.render_glyphs(g),
                RenderNode::Canvas(c) => self.render_canvas(c),
                RenderNode::Root(_) => {
                    proof {
                        assert(children@[i as int].deep_view() is Root);
                        assert(false);
                    }
                    Ok(())
                },
            };
            if let Err(e) = r {
                return Err(e);
            }
        }
        Ok(())
    }

    /// Renders a canvas node.
    fn render_canvas(&self, canvas: &Canvas) -> RenderResult<()>;

    /// Renders a glyph-run node.
    fn render_glyphs(&self, glyphs: &Glyphs) -> RenderResult<()>;

    /// Renders a path node.
    fn render_path(&self, path: &Path) -> RenderResult<()>;
}

} // verus!
