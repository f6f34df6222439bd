//! The orientation gizmo: three arrows from the origin along the world axes, drawn on
//! top of everything.
//!
//! A vertex is given by what it is: a corner of a shaft, or a point of a head. Its
//! position follows from the sizes of the arrows.

use vstd::prelude::*;

use crate::buffer::{BufferSpec, HOST_MEMORY, USAGE_VERTEX_BUFFER};
use crate::gpu::{Blend, Release};

verus! {

/// Segments of an arrow's head.
pub const HEAD_SEGMENTS: u32 = 20;

/// Vertices of the gizmo.
pub const VERTEX_COUNT: u32 = 468;

/// Bytes of a vertex: position and color, three single-precision numbers each.
pub const VERTEX_STRIDE: u32 = 24;

/// Where the color begins in a vertex.
pub const COLOR_OFFSET: u32 = 12;

/// Bytes of the constants: one matrix.
pub const GIZMO_PUSH_SIZE: u32 = 64;

/// The world axes.
#[derive(Clone, Copy, Debug, PartialEq, Eq, Structural)]
pub enum Axis {
    X,
    Y,
    Z,
}

/// The direction of an arrow and the two directions across it.
#[derive(Clone, Copy, Debug, PartialEq)]
pub struct AxisFrame {
    pub dir: [i32; 3],
    pub first: [i32; 3],
    pub second: [i32; 3],
}

/// The unit vector along an axis.
pub open spec fn unit(axis: Axis) -> Seq<i32> {
    match axis {
        Axis::X => seq![1i32, 0i32, 0i32],
        Axis::Y => seq![0i32, 1i32, 0i32],
        Axis::Z => seq![0i32, 0i32, 1i32],
    }
}

/// The axes across an axis, in the order of their names.
pub open spec fn across(axis: Axis) -> (Axis, Axis) {
    match axis {
        Axis::X => (Axis::Y, Axis::Z),
        Axis::Y => (Axis::X, Axis::Z),
        Axis::Z => (Axis::X, Axis::Y),
    }
}

/// The color of an arrow, as bit patterns: reddish, greenish or bluish.
pub open spec fn axis_color(axis: Axis) -> Seq<u32> {
    match axis {
        Axis::X => seq![0x3f80_0000u32, 0x3e80_0000u32, 0x3e80_0000u32],
        Axis::Y => seq![0x3e99_999au32, 0x3f80_0000u32, 0x3e99_999au32],
        Axis::Z => seq![0x3e99_999au32, 0x3f00_0000u32, 0x3f80_0000u32],
    }
}

impl Axis {
    fn vector(self) -> (r: [i32; 3])
        ensures
            r@ == unit(self),
    {
        let v: [i32; 3] = match self {
            Axis::X => [1, 0, 0],
            Axis::Y => [0, 1, 0],
            Axis::Z => [0, 0, 1],
        };
        assert(v@ =~= unit(self));
        v
    }

    /// The direction of the arrow and the two directions across it.
    pub fn frame(self) -> (r: AxisFrame)
        ensures
            r.dir@ == unit(self),
            r.first@ == unit(across(self).0),
            r.second@ == unit(across(self).1),
    {
        let (first, second) = match self {
            Axis::X => (Axis::Y, Axis::Z),
            Axis::Y => (Axis::X, Axis::Z),
            Axis::Z => (Axis::X, Axis::Y),
        };
        AxisFrame { dir: self.vector(), first: first.vector(), second: second.vector() }
    }

    /// The color of the arrow, as bit patterns.
    pub fn color(self) -> (r: [u32; 3])
        ensures
            r@ == axis_color(self),
    {
        let c: [u32; 3] = match self {
            Axis::X => [0x3f80_0000, 0x3e80_0000, 0x3e80_0000],
            Axis::Y => [0x3e99_999a, 0x3f80_0000, 0x3e99_999a],
            Axis::Z => [0x3e99_999a, 0x3f00_0000, 0x3f80_0000],
        };
        assert(c@ =~= axis_color(self));
        c
    }
}

/// A point of an arrow.
#[derive(Clone, Copy, Debug, PartialEq, Eq, Structural)]
pub enum GizmoPoint {
    /// A corner of the shaft: at its near or far end, and on the negative or positive
    /// side along each of the two directions across the axis.
    Corner { far: bool, first: bool, second: bool },
    /// The tip of the head.
    Apex,
    /// The middle of the head's base.
    Center,
    /// The end of a segment of the head's base, counted around it; the last one is the
    /// first one again.
    Rim(u32),
}

/// A vertex: its axis, which gives its color, and its place on the arrow.
#[derive(Clone, Copy, Debug, PartialEq, Eq, Structural)]
pub struct GizmoVertex {
    pub axis: Axis,
    pub point: GizmoPoint,
}

pub open spec fn corner(far: bool, first: bool, second: bool) -> GizmoPoint {
    GizmoPoint::Corner { far, first, second }
}

/// The points of a shaft, three for each of twelve triangles.
pub open spec fn shaft_points() -> Seq<GizmoPoint> {
    seq![
        corner(false, false, false),
        corner(false, false, true),
        corner(false, true, true),
        corner(false, false, false),
        corner(false, true, true),
        corner(false, true, false),
        corner(true, false, false),
        corner(true, true, false),
        corner(true, true, true),
        corner(true, false, false),
        corner(true, true, true),
        corner(true, false, true),
        corner(false, false, false),
        corner(false, true, false),
        corner(true, true, false),
        corner(false, false, false),
        corner(true, true, false),
        corner(true, false, false),
        corner(false, false, true),
        corner(true, false, true),
        corner(true, true, true),
        corner(false, false, true),
        corner(true, true, true),
        corner(false, true, true),
        corner(false, false, false),
        corner(true, false, false),
        corner(true, false, true),
        corner(false, false, false),
        corner(true, false, true),
        corner(false, false, true),
        corner(false, true, false),
        corner(false, true, true),
        corner(true, true, true),
        corner(false, true, false),
        corner(true, true, true),
        corner(true, true, false),
    ]
}

/// The points of the first `n` segments of a head: a triangle of its side and one of its
/// base for each.
pub open spec fn head_points(n: nat) -> Seq<GizmoPoint>
    decreases n,
{
    if n == 0 {
        Seq::empty()
    } else {
        head_points((n - 1) as nat) + seq![
            GizmoPoint::Apex,
            GizmoPoint::Rim((n - 1) as u32),
            GizmoPoint::Rim(n as u32),
            GizmoPoint::Center,
            GizmoPoint::Rim(n as u32),
            GizmoPoint::Rim((n - 1) as u32),
        ]
    }
}

/// Points as vertices of an axis.
pub open spec fn on_axis(axis: Axis, points: Seq<GizmoPoint>) -> Seq<GizmoVertex> {
    points.map_values(|point: GizmoPoint| GizmoVertex { axis, point })
}

/// The vertices of one arrow.
pub open spec fn arrow(axis: Axis) -> Seq<GizmoVertex> {
    on_axis(axis, shaft_points() + head_points(HEAD_SEGMENTS as nat))
}

fn push_tri(list: &mut Vec<GizmoVertex>, axis: Axis, a: GizmoPoint, b: GizmoPoint, c: GizmoPoint)
    ensures
        final(list)@ == old(list)@ + on_axis(axis, seq![a, b, c]),
{
    list.push(GizmoVertex { axis, point: a });
    list.push(GizmoVertex { axis, point: b });
    list.push(GizmoVertex { axis, point: c });
    assert(list@ =~= old(list)@ + on_axis(axis, seq![a, b, c]));
}

fn make_corner(far: bool, first: bool, second: bool) -> (r: GizmoPoint)
    ensures
        r == corner(far, first, second),
{
    GizmoPoint::Corner { far, first, second }
}

fn push_shaft(list: &mut Vec<GizmoVertex>, axis: Axis)
    ensures
        final(list)@ == old(list)@ + on_axis(axis, shaft_points()),
{
    let c000 = make_corner(false, false, false);
    let c001 = make_corner(false, false, true);
    let c010 = make_corner(false, true, false);
    let c011 = make_corner(false, true, true);
    let c100 = make_corner(true, false, false);
    let c101 = make_corner(true, false, true);
    let c110 = make_corner(true, true, false);
    let c111 = make_corner(true, true, true);
    push_tri(list, axis, c000, c001, c011);
    push_tri(list, axis, c000, c011, c010);
    push_tri(list, axis, c100, c110, c111);
    push_tri(list, axis, c100, c111, c101);
    push_tri(list, axis, c000, c010, c110);
    push_tri(list, axis, c000, c110, c100);
    push_tri(list, axis, c001, c101, c111);
    push_tri(list, axis, c001, c111, c011);
    push_tri(list, axis, c000, c100, c101);
    push_tri(list, axis, c000, c101, c001);
    push_tri(list, axis, c010, c011, c111);
    push_tri(list, axis, c010, c111, c110);
    assert(list@ =~= old(list)@ + on_axis(axis, shaft_points()));
}

fn push_cone(list: &mut Vec<GizmoVertex>, axis: Axis)
    ensures
        final(list)@ == old(list)@ + on_axis(axis, head_points(HEAD_SEGMENTS as nat)),
{
    let ghost before = list@;
    let mut i: u32 = 0;
    assert(list@ =~= before + on_axis(axis, head_points(0)));
    while i < HEAD_SEGMENTS
        invariant
            i <= HEAD_SEGMENTS,
            list@ == before + on_axis(axis, head_points(i as nat)),
        decreases HEAD_SEGMENTS - i,
    {
        push_tri(list, axis, GizmoPoint::Apex, GizmoPoint::Rim(i), GizmoPoint::Rim(i + 1));
        push_tri(list, axis, GizmoPoint::Center, GizmoPoint::Rim(i + 1), GizmoPoint::Rim(i));
        i = i + 1;
        assert(list@ =~= before + on_axis(axis, head_points(i as nat)));
    }
}

/// The vertices of the gizmo: a shaft and a head for each axis.
pub fn generate_gizmo() -> (r: Vec<GizmoVertex>)
    ensures
        r@ == arrow(Axis::X) + arrow(Axis::Y) + arrow(Axis::Z),
        r@.len() == VERTEX_COUNT,
{
    let mut list: Vec<GizmoVertex> = Vec::new();
    push_shaft(&mut list, Axis::X);
    push_cone(&mut list, Axis::X);
    proof {
        lemma_head_len(HEAD_SEGMENTS as nat);
    }
    assert(list@ =~= arrow(Axis::X));
    push_shaft(&mut list, Axis::Y);
    push_cone(&mut list, Axis::Y);
    assert(list@ =~= arrow(Axis::X) + arrow(Axis::Y));
    push_shaft(&mut list, Axis::Z);
    push_cone(&mut list, Axis::Z);
    assert(list@ =~= arrow(Axis::X) + arrow(Axis::Y) + arrow(Axis::Z));
    list
}

proof fn lemma_head_len(n: nat)
    ensures
        head_points(n).len() == 6 * n,
    decreases n,
{
    if n > 0 {
        lemma_head_len((n - 1) as nat);
    }
}

/// Bytes of the vertex buffer.
pub fn buffer_size(vertex_count: u32) -> (r: u64)
    ensures
        r == vertex_count * VERTEX_STRIDE,
{
    (vertex_count as u64) * 24
}

// ---------------------------------------------------------------------------
// Surfaces
// ---------------------------------------------------------------------------

/// The place of the next corner around a triangle.
pub open spec fn next_corner(e: int) -> int {
    if e % 3 == 2 {
        e - 2
    } else {
        e + 1
    }
}

/// Points are the same, where the last point of a rim is its first one again.
pub open spec fn same_point(a: GizmoPoint, b: GizmoPoint) -> bool {
    match (a, b) {
        (GizmoPoint::Rim(i), GizmoPoint::Rim(j)) => i % HEAD_SEGMENTS == j % HEAD_SEGMENTS,
        _ => a == b,
    }
}

/// The triangle edge at `f` runs against the one at `e`.
pub open spec fn opposed(points: Seq<GizmoPoint>, e: int, f: int) -> bool {
    &&& 0 <= f < points.len()
    &&& same_point(points[f], points[next_corner(e)])
    &&& same_point(points[next_corner(f)], points[e])
}

/// The edge of a shaft that runs against the one at `e`.
pub open spec fn shaft_partner(e: int) -> int {
    seq![
        29int, 23, 3, 2, 30, 12, 16, 34, 9, 8, 19, 25, 5, 35, 15, 14, 6, 24, 28, 10, 21, 20, 31, 1, 17, 11, 27, 26, 18, 0, 4, 22, 33, 32, 7, 13,
    ][e]
}

/// A shaft is a closed surface, turned one way: every edge of a triangle has one that
/// runs against it.
pub proof fn shaft_is_closed(e: int)
    requires
        0 <= e < 36,
    ensures
        opposed(shaft_points(), e, shaft_partner(e)),
{
    let s = shaft_points();
    assert(s.len() == 36);
    let t = e / 3;
    assert(e == 3 * t || e == 3 * t + 1 || e == 3 * t + 2);
    assert(0 <= t < 12);
}

/// The edge of a head that runs against the one at `e`: within a segment the two
/// triangles meet at the rim, and neighbouring segments meet at the tip and at the
/// middle of the base.
pub open spec fn head_partner(e: int) -> int {
    let i = e / 6;
    let k = e % 6;
    let before = (i + HEAD_SEGMENTS - 1) % HEAD_SEGMENTS as int;
    let after = (i + 1) % HEAD_SEGMENTS as int;
    if k == 0 {
        6 * before + 2
    } else if k == 1 {
        6 * i + 4
    } else if k == 2 {
        6 * after
    } else if k == 3 {
        6 * after + 5
    } else if k == 4 {
        6 * i + 1
    } else {
        6 * before + 3
    }
}

proof fn lemma_head_point(n: nat, i: int)
    requires
        0 <= i < n,
    ensures
        head_points(n).len() == 6 * n,
        head_points(n)[6 * i] == GizmoPoint::Apex,
        head_points(n)[6 * i + 1] == GizmoPoint::Rim(i as u32),
        head_points(n)[6 * i + 2] == GizmoPoint::Rim((i + 1) as u32),
        head_points(n)[6 * i + 3] == GizmoPoint::Center,
        head_points(n)[6 * i + 4] == GizmoPoint::Rim((i + 1) as u32),
        head_points(n)[6 * i + 5] == GizmoPoint::Rim(i as u32),
    decreases n,
{
    lemma_head_len(n);
    lemma_head_len((n - 1) as nat);
    if i < n - 1 {
        lemma_head_point((n - 1) as nat, i);
    }
}

/// A head is a closed surface, turned one way.
pub proof fn head_is_closed(e: int)
    requires
        0 <= e < 6 * HEAD_SEGMENTS,
    ensures
        opposed(head_points(HEAD_SEGMENTS as nat), e, head_partner(e)),
{
    let n = HEAD_SEGMENTS as nat;
    let i = e / 6;
    let before = (i + HEAD_SEGMENTS - 1) % HEAD_SEGMENTS as int;
    let after = (i + 1) % HEAD_SEGMENTS as int;
    assert(0 <= i < HEAD_SEGMENTS);
    assert(after == (if i == 19 {
        0
    } else {
        i + 1
    }));
    assert(before == (if i == 0 {
        19
    } else {
        i - 1
    }));
    lemma_head_point(n, i);
    lemma_head_point(n, before);
    lemma_head_point(n, after);
    assert(e == 6 * i || e == 6 * i + 1 || e == 6 * i + 2 || e == 6 * i + 3 || e == 6 * i + 4 || e
        == 6 * i + 5);
}

// ---------------------------------------------------------------------------
// Drawing
// ---------------------------------------------------------------------------

/// How vertices lie in their buffer, one after the other.
#[derive(Clone, Copy, Debug, PartialEq, Eq, Structural)]
pub struct VertexBinding {
    pub binding: u32,
    pub stride: u32,
}

/// An attribute of a vertex: three single-precision numbers.
#[derive(Clone, Copy, Debug, PartialEq, Eq, Structural)]
pub struct VertexAttribute {
    pub location: u32,
    pub binding: u32,
    pub offset: u32,
}

/// Bytes of an attribute.
pub const ATTRIBUTE_SIZE: u32 = 12;

/// The attributes of a vertex: position, then color.
pub open spec fn attributes() -> Seq<VertexAttribute> {
    seq![
        VertexAttribute { location: 0, binding: 0, offset: 0 },
        VertexAttribute { location: 1, binding: 0, offset: COLOR_OFFSET },
    ]
}

impl GizmoVertex {
    /// How the vertices lie in their buffer.
    pub fn binding_description() -> (r: VertexBinding)
        ensures
            r == (VertexBinding { binding: 0, stride: VERTEX_STRIDE }),
    {
        VertexBinding { binding: 0, stride: VERTEX_STRIDE }
    }

    /// The attributes of a vertex.
    pub fn attribute_descriptions() -> (r: [VertexAttribute; 2])
        ensures
            r@ == attributes(),
    {
        let list: [VertexAttribute; 2] = [
            VertexAttribute { location: 0, binding: 0, offset: 0 },
            VertexAttribute { location: 1, binding: 0, offset: COLOR_OFFSET },
        ];
        assert(list@ =~= seq![list@[0], list@[1]]);
        list
    }
}

/// The attributes fill a vertex: they lie within it, and none overlaps another.
pub proof fn attributes_fill_a_vertex(i: int, j: int)
    requires
        0 <= i < j < attributes().len(),
    ensures
        attributes()[i].offset + ATTRIBUTE_SIZE <= attributes()[j].offset,
        attributes()[j].offset + ATTRIBUTE_SIZE <= VERTEX_STRIDE,
        attributes().len() * ATTRIBUTE_SIZE == VERTEX_STRIDE,
{
}

/// One step of creating the gizmo.
#[derive(Clone, Copy, Debug, PartialEq, Eq, Structural)]
pub enum GizmoStep {
    /// Create the vertex buffer.
    CreateBuffer(BufferSpec),
    /// Map the buffer and copy the vertices into it.
    FillBuffer { size: u64 },
    LoadVertexShader,
    LoadFragmentShader,
    /// Create a pipeline layout without sets, with constants for the vertex shader.
    CreateLayout { push_size: u32 },
    /// Create a pipeline that draws filled triangles.
    CreatePipeline {
        render_pass: u64,
        binding: VertexBinding,
        /// Faces are culled.
        cull: bool,
        depth_test: bool,
        depth_write: bool,
        blend: Blend,
    },
    DestroyVertexShader,
    DestroyFragmentShader,
}

/// All steps that create the gizmo. It is drawn over everything, whichever way its faces
/// turn.
pub open spec fn gizmo_creation(render_pass: u64) -> Seq<GizmoStep> {
    let size = (VERTEX_COUNT * VERTEX_STRIDE) as u64;
    seq![
        GizmoStep::CreateBuffer(
            BufferSpec { size, usage: USAGE_VERTEX_BUFFER, memory: HOST_MEMORY },
        ),
        GizmoStep::FillBuffer { size },
        GizmoStep::LoadVertexShader,
        GizmoStep::LoadFragmentShader,
        GizmoStep::CreateLayout { push_size: GIZMO_PUSH_SIZE },
        GizmoStep::CreatePipeline {
            render_pass,
            binding: VertexBinding { binding: 0, stride: VERTEX_STRIDE },
            cull: false,
            depth_test: false,
            depth_write: false,
            blend: Blend::Replace,
        },
        GizmoStep::DestroyVertexShader,
        GizmoStep::DestroyFragmentShader,
    ]
}

/// The steps that create the gizmo, and its vertices.
pub fn plan_creation(render_pass: u64) -> (r: (Vec<GizmoStep>, Vec<GizmoVertex>))
    ensures
        r.0@ == gizmo_creation(render_pass),
        r.1@ == arrow(Axis::X) + arrow(Axis::Y) + arrow(Axis::Z),
        r.1@.len() == VERTEX_COUNT,
{
    let vertices = generate_gizmo();
    let size: u64 = buffer_size(vertices.len() as u32);
    let mut steps: Vec<GizmoStep> = Vec::new();
    steps.push(
        GizmoStep::CreateBuffer(
            BufferSpec { size, usage: USAGE_VERTEX_BUFFER, memory: HOST_MEMORY },
        ),
    );
    steps.push(GizmoStep::FillBuffer { size });
    steps.push(GizmoStep::LoadVertexShader);
    steps.push(GizmoStep::LoadFragmentShader);
    steps.push(GizmoStep::CreateLayout { push_size: GIZMO_PUSH_SIZE });
    steps.push(
        GizmoStep::CreatePipeline {
            render_pass,
            binding: GizmoVertex::binding_description(),
            cull: false,
            depth_test: false,
            depth_write: false,
            blend: Blend::Replace,
        },
    );
    steps.push(GizmoStep::DestroyVertexShader);
    steps.push(GizmoStep::DestroyFragmentShader);
    assert(steps@ =~= gizmo_creation(render_pass));
    (steps, vertices)
}

/// The device objects of the gizmo.
#[derive(Clone, Copy, Debug, PartialEq, Eq, Structural)]
pub struct Gizmo {
    pub pipeline: u64,
    pub layout: u64,
    pub vertex_buffer: u64,
    pub vertex_memory: u64,
    pub vertex_count: u32,
}

/// Commands of the gizmo. `M` is the matrix that takes the world to the screen.
#[derive(Debug, PartialEq)]
pub enum GizmoCommand<M> {
    BindPipeline(u64),
    PushConstants { layout: u64, view_proj: M },
    BindVertexBuffer(u64),
    Draw(u32),
}

impl Gizmo {
    /// The gizmo over freshly created objects.
    pub fn new(pipeline: u64, layout: u64, vertex_buffer: u64, vertex_memory: u64) -> (r: Self)
        ensures
            r == (Gizmo { pipeline, layout, vertex_buffer, vertex_memory, vertex_count: VERTEX_COUNT }),
    {
        Gizmo { pipeline, layout, vertex_buffer, vertex_memory, vertex_count: VERTEX_COUNT }
    }

    /// The commands that draw the gizmo.
    pub open spec fn drawing<M>(&self, view_proj: M) -> Seq<GizmoCommand<M>> {
        seq![
            GizmoCommand::BindPipeline(self.pipeline),
            GizmoCommand::PushConstants { layout: self.layout, view_proj },
            GizmoCommand::BindVertexBuffer(self.vertex_buffer),
            GizmoCommand::Draw(self.vertex_count),
        ]
    }

    /// What the gizmo owns.
    pub open spec fn owned(&self) -> Seq<Release> {
        seq![
            Release::Pipeline(self.pipeline),
            Release::PipelineLayout(self.layout),
            Release::Buffer(self.vertex_buffer),
            Release::Memory(self.vertex_memory),
        ]
    }

    /// Draws the gizmo.
    pub fn draw<M>(&self, view_proj: M) -> (r: [GizmoCommand<M>; 4])
        ensures
            r@ == self.drawing(view_proj),
    {
        let list: [GizmoCommand<M>; 4] = [
            GizmoCommand::BindPipeline(self.pipeline),
            GizmoCommand::PushConstants { layout: self.layout, view_proj },
            GizmoCommand::BindVertexBuffer(self.vertex_buffer),
            GizmoCommand::Draw(self.vertex_count),
        ];
        assert(list@ =~= seq![list@[0], list@[1], list@[2], list@[3]]);
        list
    }

    /// What is destroyed with the gizmo, once the device is idle.
    pub fn release(&self) -> (r: [Release; 4])
        ensures
            r@ == self.owned(),
    {
        let list: [Release; 4] = [
            Release::Pipeline(self.pipeline),
            Release::PipelineLayout(self.layout),
            Release::Buffer(self.vertex_buffer),
            Release::Memory(self.vertex_memory),
        ];
        assert(list@ =~= seq![list@[0], list@[1], list@[2], list@[3]]);
        list
    }
}

/// The three directions of an arrow stand across each other: its axis and the two axes
/// across it are the three axes.
pub proof fn directions_stand_across(axis: Axis)
    ensures
        ({
            let (first, second) = across(axis);
            &&& axis != first && axis != second && first != second
            &&& forall|k: int|
                0 <= k < 3 ==> #[trigger] unit(axis)[k] + unit(first)[k] + unit(second)[k] == 1
            &&& forall|k: int| 0 <= k < 3 ==> 0 <= #[trigger] unit(axis)[k] <= 1
        }),
        unit(Axis::X)[0] == 1 && unit(Axis::Y)[1] == 1 && unit(Axis::Z)[2] == 1,
{
}

/// The color of an arrow tells its axis: of red, green and blue, the one that belongs to
/// the axis is the strongest.
pub proof fn color_tells_the_axis(axis: Axis, k: int)
    requires
        0 <= k < 3,
    ensures
        ({
            let own = match axis {
                Axis::X => 0int,
                Axis::Y => 1,
                Axis::Z => 2,
            };
            &&& axis_color(axis)[own] == 0x3f80_0000
            &&& k != own ==> axis_color(axis)[k] < axis_color(axis)[own]
        }),
{
}

/// All vertices of an arrow are on its axis, and it is made of the triangles of the shaft
/// and of the head.
pub proof fn arrow_is_on_its_axis(axis: Axis, i: int)
    requires
        0 <= i < arrow(axis).len(),
    ensures
        arrow(axis)[i].axis == axis,
        i < 36 ==> arrow(axis)[i].point is Corner,
        i >= 36 ==> arrow(axis)[i].point !is Corner,
{
    if i >= 36 {
        lemma_head_has_no_corner(HEAD_SEGMENTS as nat, i - 36);
    }
}

proof fn lemma_head_has_no_corner(n: nat, i: int)
    requires
        0 <= i < head_points(n).len(),
    ensures
        head_points(n)[i] !is Corner,
    decreases n,
{
    if n > 0 {
        let before = head_points((n - 1) as nat);
        if i < before.len() {
            lemma_head_has_no_corner((n - 1) as nat, i);
        }
    }
}

/// The gizmo is drawn over everything, in the render pass that it is made for, from a buffer
/// that holds all its vertices.
pub proof fn gizmo_is_drawn_over_everything(render_pass: u64, i: int)
    requires
        0 <= i < gizmo_creation(render_pass).len(),
    ensures
        match gizmo_creation(render_pass)[i] {
            GizmoStep::CreateBuffer(buffer) => buffer.size == 24 * VERTEX_COUNT && buffer.usage
                & USAGE_VERTEX_BUFFER == USAGE_VERTEX_BUFFER,
            GizmoStep::FillBuffer { size } => size == 24 * VERTEX_COUNT,
            GizmoStep::CreatePipeline {
                render_pass: pass,
                binding,
                cull,
                depth_test,
                depth_write,
                blend,
            } => {
                &&& pass == render_pass
                &&& binding.stride == 24
                &&& !cull && !depth_test && !depth_write
                &&& blend == Blend::Replace
            },
            _ => true,
        },
{
    assert(USAGE_VERTEX_BUFFER & USAGE_VERTEX_BUFFER == USAGE_VERTEX_BUFFER) by (bit_vector);
}

/// The gizmo is drawn whole, from its own vertices with its own pipeline and the given
/// camera, all of which is bound by the time of the draw.
pub proof fn gizmo_is_drawn_from_its_vertices<M>(g: Gizmo, view_proj: M, i: int)
    requires
        0 <= i < g.drawing(view_proj).len(),
    ensures
        ({
            let list = g.drawing(view_proj);
            &&& list.contains(GizmoCommand::<M>::BindPipeline(g.pipeline))
            &&& list.contains(GizmoCommand::PushConstants { layout: g.layout, view_proj })
            &&& list.contains(GizmoCommand::<M>::BindVertexBuffer(g.vertex_buffer))
            &&& list.last() == GizmoCommand::<M>::Draw(g.vertex_count)
            &&& list[i] is Draw ==> i == list.len() - 1
        }),
{
    let list = g.drawing(view_proj);
    assert(list[0] == GizmoCommand::<M>::BindPipeline(g.pipeline));
    assert(list[1] == GizmoCommand::PushConstants { layout: g.layout, view_proj });
    assert(list[2] == GizmoCommand::<M>::BindVertexBuffer(g.vertex_buffer));
}

/// A gizmo gives up each of its objects.
pub proof fn gizmo_gives_up_everything(g: Gizmo)
    ensures
        g.owned().len() == 4,
        g.owned().contains(Release::Pipeline(g.pipeline)),
        g.owned().contains(Release::PipelineLayout(g.layout)),
        g.owned().contains(Release::Buffer(g.vertex_buffer)),
        g.owned().contains(Release::Memory(g.vertex_memory)),
{
    assert(g.owned()[0] == Release::Pipeline(g.pipeline));
    assert(g.owned()[1] == Release::PipelineLayout(g.layout));
    assert(g.owned()[2] == Release::Buffer(g.vertex_buffer));
    assert(g.owned()[3] == Release::Memory(g.vertex_memory));
}

} // verus!
