//! The commands that draw a frame of the scene.

use vstd::prelude::*;

use crate::forward_pass::pass::ScenePipeline;
use crate::forward_pass::resources::{ForwardError, SceneResources};
use crate::forward_pass::targets::SceneTargets;
use crate::gpu::{far_depth, ClearColor, ClearDepth, Extent2D, FLOAT_ONE};

verus! {

/// The buffers of an uploaded mesh.
#[derive(Clone, Copy, Debug, PartialEq, Eq, Structural)]
pub struct MeshBuffers {
    pub vertex_buffer: u64,
    pub vertex_count: u32,
    pub index_buffer: Option<u64>,
    pub index_count: u32,
}

/// One thing to draw. `M` is its transform; a mesh that is not uploaded is not drawn.
pub struct DrawItem<M> {
    pub mesh: Option<MeshBuffers>,
    pub model: M,
    pub material: Option<u32>,
}

/// The constants pushed for one draw.
#[derive(Debug, PartialEq)]
pub struct PushConstants<M> {
    pub model: M,
    pub material_slot: u32,
    pub env_handle: u32,
    pub albedo_idx: u32,
    pub normal_idx: u32,
    pub debug_flags: u32,
}

/// One command of a frame.
#[derive(Debug, PartialEq)]
pub enum DrawCommand<M> {
    /// Begin the render pass on this framebuffer, over its whole size, with its three
    /// attachments cleared.
    BeginPass {
        render_pass: u64,
        framebuffer: u64,
        extent: Extent2D,
        color: ClearColor,
        depth: ClearDepth,
        normal: ClearColor,
    },
    /// Draw the sky, which binds a pipeline and sets of its own. Where that fails, the
    /// frame goes on without it.
    Skybox { render_pass: u64, extent: Extent2D, inv_view_rot: M },
    BindPipeline(u64),
    BindSet { layout: u64, index: u32, set: u64 },
    SetViewport(Extent2D),
    SetScissor(Extent2D),
    BindVertexBuffer(u64),
    Push { layout: u64, constants: PushConstants<M> },
    BindIndexBuffer(u64),
    DrawIndexed(u32),
    Draw(u32),
    /// Draw the orientation gizmo on top of the scene.
    Gizmo { view_proj: M },
    EndPass,
}

/// What a frame is drawn with. `M` is a matrix.
#[derive(Clone, Copy, Debug, PartialEq, Eq)]
pub struct FrameOptions<M> {
    pub image_index: u32,
    pub frame_index: u32,
    pub render_pass: u64,
    pub pipeline: ScenePipeline,
    pub clear_color: ClearColor,
    pub view_proj: M,
    /// The inverse of the view's rotation.
    pub inv_view_rot: M,
    /// There is a camera; without one there is no sky to draw.
    pub has_camera: bool,
    pub has_gizmo: bool,
    pub debug_flags: u32,
}

/// The commands of one item: none where its mesh is not uploaded. An item without a
/// material uses slot 0, the fallback material.
pub open spec fn item_commands<M>(
    item: DrawItem<M>,
    layout: u64,
    brdf_handle: u32,
    debug_flags: u32,
) -> Seq<DrawCommand<M>> {
    match item.mesh {
        None => Seq::empty(),
        Some(mesh) => {
            let head = seq![
                DrawCommand::BindVertexBuffer(mesh.vertex_buffer),
                DrawCommand::Push {
                    layout,
                    constants: PushConstants {
                        model: item.model,
                        material_slot: match item.material {
                            Some(slot) => slot,
                            None => 0,
                        },
                        env_handle: brdf_handle,
                        albedo_idx: u32::MAX,
                        normal_idx: u32::MAX,
                        debug_flags,
                    },
                },
            ];
            match mesh.index_buffer {
                Some(indices) => head.push(DrawCommand::BindIndexBuffer(indices)).push(
                    DrawCommand::DrawIndexed(mesh.index_count),
                ),
                None => head.push(DrawCommand::Draw(mesh.vertex_count)),
            }
        },
    }
}

/// The commands of all items, in order.
pub open spec fn items_commands<M>(
    items: Seq<DrawItem<M>>,
    layout: u64,
    brdf_handle: u32,
    debug_flags: u32,
) -> Seq<DrawCommand<M>>
    decreases items.len(),
{
    if items.len() == 0 {
        Seq::empty()
    } else {
        items_commands(items.drop_last(), layout, brdf_handle, debug_flags) + item_commands(
            items.last(),
            layout,
            brdf_handle,
            debug_flags,
        )
    }
}

/// The commands that bind the scene's pipeline, its six sets and the drawing area.
pub open spec fn bind_commands<M>(
    res: &SceneResources,
    pipeline: ScenePipeline,
    frame_index: u32,
    extent: Extent2D,
) -> Seq<DrawCommand<M>> {
    let layout = pipeline.layout;
    seq![
        DrawCommand::BindPipeline(pipeline.pipeline),
        DrawCommand::BindSet { layout, index: 0, set: res.frame_sets@[frame_index as int] },
        DrawCommand::BindSet { layout, index: 1, set: res.bindless_set },
        DrawCommand::BindSet { layout, index: 2, set: res.ibl_set },
        DrawCommand::BindSet { layout, index: 3, set: res.shadow_set },
        DrawCommand::BindSet {
            layout,
            index: 4,
            set: if frame_index < res.ao_sets@.len() {
                res.ao_sets@[frame_index as int]
            } else {
                0
            },
        },
        DrawCommand::BindSet { layout, index: 5, set: res.gi_set },
        DrawCommand::SetViewport(extent),
        DrawCommand::SetScissor(extent),
    ]
}

/// No normal: every pixel of the scene writes its own.
pub open spec fn no_normal() -> ClearColor {
    ClearColor { r: 0, g: 0, b: 0, a: 0 }
}

/// The commands before the first item: the sky is drawn before anything of the scene is
/// bound.
pub open spec fn opening_commands<M>(
    res: &SceneResources,
    framebuffer: u64,
    extent: Extent2D,
    options: FrameOptions<M>,
) -> Seq<DrawCommand<M>> {
    let begun = seq![
        DrawCommand::BeginPass {
            render_pass: options.render_pass,
            framebuffer,
            extent,
            color: options.clear_color,
            depth: far_depth(),
            normal: no_normal(),
        },
    ];
    (if options.has_camera {
        begun.push(
            DrawCommand::Skybox {
                render_pass: options.render_pass,
                extent,
                inv_view_rot: options.inv_view_rot,
            },
        )
    } else {
        begun
    }) + bind_commands(res, options.pipeline, options.frame_index, extent)
}

/// All commands of a frame.
pub open spec fn frame_commands<M>(
    res: &SceneResources,
    framebuffer: u64,
    extent: Extent2D,
    items: Seq<DrawItem<M>>,
    options: FrameOptions<M>,
) -> Seq<DrawCommand<M>> {
    let drawn = opening_commands(res, framebuffer, extent, options) + items_commands(
        items,
        options.pipeline.layout,
        res.brdf_handle,
        options.debug_flags,
    );
    (if options.has_gizmo {
        drawn.push(DrawCommand::Gizmo { view_proj: options.view_proj })
    } else {
        drawn
    }).push(DrawCommand::EndPass)
}

fn push_opening<M: Copy>(
    list: &mut Vec<DrawCommand<M>>,
    res: &SceneResources,
    framebuffer: u64,
    extent: Extent2D,
    options: FrameOptions<M>,
)
    requires
        old(list)@.len() == 0,
        options.frame_index < res.frame_sets.len(),
    ensures
        final(list)@ == opening_commands::<M>(res, framebuffer, extent, options),
{
    let frame: usize = options.frame_index as usize;
    let layout: u64 = options.pipeline.layout;
    let ao_set: u64 = if frame < res.ao_sets.len() {
        res.ao_sets[frame]
    } else {
        0
    };
    list.push(
        DrawCommand::BeginPass {
            render_pass: options.render_pass,
            framebuffer,
            extent,
            color: options.clear_color,
            depth: ClearDepth { depth: FLOAT_ONE, stencil: 0 },
            normal: ClearColor { r: 0, g: 0, b: 0, a: 0 },
        },
    );
    if options.has_camera {
        list.push(
            DrawCommand::Skybox {
                render_pass: options.render_pass,
                extent,
                inv_view_rot: options.inv_view_rot,
            },
        );
    }
    list.push(DrawCommand::BindPipeline(options.pipeline.pipeline));
    list.push(DrawCommand::BindSet { layout, index: 0, set: res.frame_sets[frame] });
    list.push(DrawCommand::BindSet { layout, index: 1, set: res.bindless_set });
    list.push(DrawCommand::BindSet { layout, index: 2, set: res.ibl_set });
    list.push(DrawCommand::BindSet { layout, index: 3, set: res.shadow_set });
    list.push(DrawCommand::BindSet { layout, index: 4, set: ao_set });
    list.push(DrawCommand::BindSet { layout, index: 5, set: res.gi_set });
    list.push(DrawCommand::SetViewport(extent));
    list.push(DrawCommand::SetScissor(extent));
    assert(list@ =~= opening_commands::<M>(res, framebuffer, extent, options));
}

/// Plans a frame: the render pass on the image's framebuffer, the sky where there is a
/// camera, every item whose mesh is uploaded, and the gizmo.
pub fn plan_frame<M: Copy>(
    targets: &SceneTargets,
    res: &SceneResources,
    items: &Vec<DrawItem<M>>,
    options: FrameOptions<M>,
) -> (r: Result<Vec<DrawCommand<M>>, ForwardError>)
    ensures
        match r {
            Ok(list) => {
                &&& options.image_index < targets.framebuffers().len()
                &&& options.frame_index < res.frame_sets@.len()
                &&& targets.framebuffers()[options.image_index as int] matches Some(framebuffer)
                    && list@ == frame_commands(
                    res,
                    framebuffer,
                    targets.size(),
                    items@,
                    options,
                )
            },
            Err(e) => if options.image_index >= targets.framebuffers().len()
                || targets.framebuffers()[options.image_index as int] is None {
                e == ForwardError::NoFramebuffer
            } else {
                e == ForwardError::NoFrameSet && options.frame_index >= res.frame_sets@.len()
            },
        },
{
    let framebuffer: u64 = match targets.framebuffer(options.image_index) {
        Some(f) => f,
        None => return Err(ForwardError::NoFramebuffer),
    };
    if (options.frame_index as usize) >= res.frame_sets.len() {
        return Err(ForwardError::NoFrameSet);
    }
    let extent: Extent2D = targets.extent();
    let mut list: Vec<DrawCommand<M>> = Vec::new();
    push_opening(&mut list, res, framebuffer, extent, options);
    let ghost opening = list@;
    let mut i: usize = 0;
    while i < items.len()
        invariant
            i <= items.len(),
            list@ == opening + items_commands(
                items@.take(i as int),
                options.pipeline.layout,
                res.brdf_handle,
                options.debug_flags,
            ),
        decreases items.len() - i,
    {
        let ghost before = list@;
        let item = &items[i];
        if let Some(mesh) = item.mesh {
            list.push(DrawCommand::BindVertexBuffer(mesh.vertex_buffer));
            let material_slot: u32 = match item.material {
                Some(slot) => slot,
                None => 0,
            };
            list.push(
                DrawCommand::Push {
                    layout: options.pipeline.layout,
                    constants: PushConstants {
                        model: item.model,
                        material_slot,
                        env_handle: res.brdf_handle,
                        albedo_idx: u32::MAX,
                        normal_idx: u32::MAX,
                        debug_flags: options.debug_flags,
                    },
                },
            );
            match mesh.index_buffer {
                Some(indices) => {
                    list.push(DrawCommand::BindIndexBuffer(indices));
                    list.push(DrawCommand::DrawIndexed(mesh.index_count));
                },
                None => {
                    list.push(DrawCommand::Draw(mesh.vertex_count));
                },
            }
        }
        proof {
            assert(items@.take(i + 1).drop_last() =~= items@.take(i as int));
            assert(list@ =~= before + item_commands(
                items@[i as int],
                options.pipeline.layout,
                res.brdf_handle,
                options.debug_flags,
            ));
            assert(list@ =~= opening + items_commands(
                items@.take(i + 1),
                options.pipeline.layout,
                res.brdf_handle,
                options.debug_flags,
            ));
        }
        i = i + 1;
    }
    assert(items@.take(i as int) =~= items@);
    if options.has_gizmo {
        list.push(DrawCommand::Gizmo { view_proj: options.view_proj });
    }
    list.push(DrawCommand::EndPass);
    Ok(list)
}

/// The number of draws in a list of commands.
pub open spec fn draw_count<M>(list: Seq<DrawCommand<M>>) -> nat
    decreases list.len(),
{
    if list.len() == 0 {
        0
    } else {
        draw_count(list.drop_last()) + match list.last() {
            DrawCommand::Draw(_) => 1nat,
            DrawCommand::DrawIndexed(_) => 1nat,
            _ => 0nat,
        }
    }
}

/// The number of items whose mesh is uploaded.
pub open spec fn uploaded_count<M>(items: Seq<DrawItem<M>>) -> nat
    decreases items.len(),
{
    if items.len() == 0 {
        0
    } else {
        uploaded_count(items.drop_last()) + if items.last().mesh is Some {
            1nat
        } else {
            0nat
        }
    }
}

proof fn lemma_draw_count_concat<M>(a: Seq<DrawCommand<M>>, b: Seq<DrawCommand<M>>)
    ensures
        draw_count(a + b) == draw_count(a) + draw_count(b),
    decreases b.len(),
{
    if b.len() == 0 {
        assert(a + b =~= a);
    } else {
        lemma_draw_count_concat(a, b.drop_last());
        assert((a + b).drop_last() =~= a + b.drop_last());
    }
}

proof fn lemma_item_draws_once<M>(
    item: DrawItem<M>,
    layout: u64,
    brdf_handle: u32,
    debug_flags: u32,
)
    ensures
        draw_count(item_commands(item, layout, brdf_handle, debug_flags)) == (if item.mesh is Some {
            1nat
        } else {
            0nat
        }),
{
    reveal_with_fuel(draw_count, 5);
    let list = item_commands(item, layout, brdf_handle, debug_flags);
    if item.mesh is Some {
        assert(list.drop_last().drop_last().len() <= 2);
    }
}

/// Every item whose mesh is uploaded is drawn once, and nothing else is.
pub proof fn every_uploaded_item_is_drawn_once<M>(
    items: Seq<DrawItem<M>>,
    layout: u64,
    brdf_handle: u32,
    debug_flags: u32,
)
    ensures
        draw_count(items_commands(items, layout, brdf_handle, debug_flags)) == uploaded_count(items),
    decreases items.len(),
{
    if items.len() > 0 {
        every_uploaded_item_is_drawn_once(items.drop_last(), layout, brdf_handle, debug_flags);
        lemma_item_draws_once(items.last(), layout, brdf_handle, debug_flags);
        lemma_draw_count_concat(
            items_commands(items.drop_last(), layout, brdf_handle, debug_flags),
            item_commands(items.last(), layout, brdf_handle, debug_flags),
        );
    }
}

/// Nothing of the scene is drawn with the sky's bindings: after the sky the pipeline and
/// all six sets are bound, in set order, before the first item.
pub proof fn scene_is_rebound_after_the_sky<M>(
    res: SceneResources,
    framebuffer: u64,
    extent: Extent2D,
    items: Seq<DrawItem<M>>,
    options: FrameOptions<M>,
    index: int,
)
    requires
        options.has_camera,
        0 <= index < 6,
    ensures
        ({
            let list = frame_commands(&res, framebuffer, extent, items, options);
            &&& list.len() >= 11
            &&& list[1] is Skybox
            &&& list[2] == DrawCommand::<M>::BindPipeline(options.pipeline.pipeline)
            &&& list[3 + index] matches DrawCommand::BindSet { layout, index: bound, .. }
                && layout == options.pipeline.layout && bound == index
            &&& draw_count(list.take(11)) == 0
        }),
{
    reveal_with_fuel(draw_count, 12);
    let list = frame_commands(&res, framebuffer, extent, items, options);
    let opening = opening_commands::<M>(&res, framebuffer, extent, options);
    assert(opening.len() == 11);
    assert(list.take(11) =~= opening);
}

/// What draws are made with at some point of a frame.
pub ghost struct Bound<M> {
    pub vertex_buffer: u64,
    pub index_buffer: u64,
    pub constants: Option<PushConstants<M>>,
}

/// One draw, as the device makes it.
pub ghost struct Drawn<M> {
    pub vertex_buffer: u64,
    /// The indices that vertices are fetched through, where there are any.
    pub index_buffer: Option<u64>,
    pub count: u32,
    pub constants: Option<PushConstants<M>>,
}

/// What draws are made with after the commands of a list.
pub open spec fn bound_after<M>(list: Seq<DrawCommand<M>>, start: Bound<M>) -> Bound<M>
    decreases list.len(),
{
    if list.len() == 0 {
        start
    } else {
        let before = bound_after(list.drop_last(), start);
        match list.last() {
            DrawCommand::BindVertexBuffer(buffer) => Bound { vertex_buffer: buffer, ..before },
            DrawCommand::BindIndexBuffer(buffer) => Bound { index_buffer: buffer, ..before },
            DrawCommand::Push { constants, .. } => Bound { constants: Some(constants), ..before },
            _ => before,
        }
    }
}

/// The draws of a list of commands.
pub open spec fn draws_of<M>(list: Seq<DrawCommand<M>>, start: Bound<M>) -> Seq<Drawn<M>>
    decreases list.len(),
{
    if list.len() == 0 {
        Seq::empty()
    } else {
        let before = draws_of(list.drop_last(), start);
        let bound = bound_after(list.drop_last(), start);
        match list.last() {
            DrawCommand::Draw(count) => before.push(
                Drawn {
                    vertex_buffer: bound.vertex_buffer,
                    index_buffer: None,
                    count,
                    constants: bound.constants,
                },
            ),
            DrawCommand::DrawIndexed(count) => before.push(
                Drawn {
                    vertex_buffer: bound.vertex_buffer,
                    index_buffer: Some(bound.index_buffer),
                    count,
                    constants: bound.constants,
                },
            ),
            _ => before,
        }
    }
}

proof fn lemma_draws_concat<M>(a: Seq<DrawCommand<M>>, b: Seq<DrawCommand<M>>, start: Bound<M>)
    ensures
        bound_after(a + b, start) == bound_after(b, bound_after(a, start)),
        draws_of(a + b, start) == draws_of(a, start) + draws_of(b, bound_after(a, start)),
    decreases b.len(),
{
    if b.len() == 0 {
        assert(a + b =~= a);
        assert(draws_of(a, start) + draws_of(b, bound_after(a, start)) =~= draws_of(a, start));
    } else {
        lemma_draws_concat(a, b.drop_last(), start);
        assert((a + b).drop_last() =~= a + b.drop_last());
        assert(draws_of(a + b, start) =~= draws_of(a, start) + draws_of(
            b,
            bound_after(a, start),
        ));
    }
}

/// How an item whose mesh is uploaded is to be drawn: all of its own mesh, through its
/// indices where it has any, in its own place and with its own material, or with the
/// fallback material.
pub open spec fn drawn_as<M>(item: DrawItem<M>, brdf_handle: u32, debug_flags: u32) -> Drawn<M> {
    let mesh = item.mesh->Some_0;
    Drawn {
        vertex_buffer: mesh.vertex_buffer,
        index_buffer: mesh.index_buffer,
        count: if mesh.index_buffer is Some {
            mesh.index_count
        } else {
            mesh.vertex_count
        },
        constants: Some(
            PushConstants {
                model: item.model,
                material_slot: match item.material {
                    Some(slot) => slot,
                    None => 0,
                },
                env_handle: brdf_handle,
                albedo_idx: u32::MAX,
                normal_idx: u32::MAX,
                debug_flags,
            },
        ),
    }
}

/// The items whose mesh is uploaded, in order.
pub open spec fn uploaded<M>(items: Seq<DrawItem<M>>) -> Seq<DrawItem<M>>
    decreases items.len(),
{
    if items.len() == 0 {
        Seq::empty()
    } else if items.last().mesh is Some {
        uploaded(items.drop_last()).push(items.last())
    } else {
        uploaded(items.drop_last())
    }
}

proof fn lemma_item_draw<M>(
    item: DrawItem<M>,
    layout: u64,
    brdf_handle: u32,
    debug_flags: u32,
    start: Bound<M>,
)
    ensures
        draws_of(item_commands(item, layout, brdf_handle, debug_flags), start) == (
        if item.mesh is Some {
            seq![drawn_as(item, brdf_handle, debug_flags)]
        } else {
            Seq::empty()
        }),
{
    let list = item_commands(item, layout, brdf_handle, debug_flags);
    if item.mesh is Some {
        reveal_with_fuel(draws_of, 5);
        reveal_with_fuel(bound_after, 5);
        let three = list.take(3);
        if item.mesh->Some_0.index_buffer is Some {
            assert(list.drop_last() =~= list.take(3));
            assert(list.take(3).drop_last() =~= list.take(2));
        } else {
            assert(list.drop_last() =~= list.take(2));
        }
        assert(list.take(2).drop_last() =~= list.take(1));
        assert(list.take(1).drop_last() =~= Seq::empty());
        assert(draws_of(list, start) =~= seq![drawn_as(item, brdf_handle, debug_flags)]);
    }
}

/// The draws of a frame's items are the items: every item whose mesh is uploaded is drawn
/// once, in order, with its own vertices, indices, place and material, whatever was bound
/// before.
pub proof fn items_are_drawn_as_they_are<M>(
    items: Seq<DrawItem<M>>,
    layout: u64,
    brdf_handle: u32,
    debug_flags: u32,
    start: Bound<M>,
)
    ensures
        draws_of(items_commands(items, layout, brdf_handle, debug_flags), start) == uploaded(
            items,
        ).map_values(|item: DrawItem<M>| drawn_as(item, brdf_handle, debug_flags)),
    decreases items.len(),
{
    let as_drawn = |item: DrawItem<M>| drawn_as(item, brdf_handle, debug_flags);
    if items.len() > 0 {
        let before = items_commands(items.drop_last(), layout, brdf_handle, debug_flags);
        let last = item_commands(items.last(), layout, brdf_handle, debug_flags);
        items_are_drawn_as_they_are(items.drop_last(), layout, brdf_handle, debug_flags, start);
        lemma_draws_concat(before, last, start);
        lemma_item_draw(
            items.last(),
            layout,
            brdf_handle,
            debug_flags,
            bound_after(before, start),
        );
        assert(uploaded(items).map_values(as_drawn) =~= uploaded(items.drop_last()).map_values(
            as_drawn,
        ) + (if items.last().mesh is Some {
            seq![drawn_as(items.last(), brdf_handle, debug_flags)]
        } else {
            Seq::empty()
        }));
    } else {
        assert(uploaded(items).map_values(as_drawn) =~= Seq::empty());
    }
}

/// A frame draws its items as they are, between the beginning and the end of its render
/// pass, which covers the whole framebuffer that it is drawn to, cleared to the given color.
/// The sky is drawn exactly where there is a camera, and the gizmo last, where there is one.
pub proof fn frame_draws_its_items<M>(
    res: SceneResources,
    framebuffer: u64,
    extent: Extent2D,
    items: Seq<DrawItem<M>>,
    options: FrameOptions<M>,
    start: Bound<M>,
)
    ensures
        ({
            let list = frame_commands(&res, framebuffer, extent, items, options);
            &&& draws_of(list, start) == uploaded(items).map_values(
                |item: DrawItem<M>| drawn_as(item, res.brdf_handle, options.debug_flags),
            )
            &&& list[0] matches DrawCommand::BeginPass {
                render_pass,
                framebuffer: f,
                extent: e,
                color,
                depth,
                ..
            } && render_pass == options.render_pass && f == framebuffer && e == extent && color
                == options.clear_color && depth == far_depth()
            &&& list.last() is EndPass
            &&& (list[1] is Skybox) == options.has_camera
            &&& options.has_gizmo ==> list[list.len() - 2] == (DrawCommand::Gizmo {
                view_proj: options.view_proj,
            })
        }),
{
    let list = frame_commands(&res, framebuffer, extent, items, options);
    let opening = opening_commands::<M>(&res, framebuffer, extent, options);
    let drawn = items_commands(
        items,
        options.pipeline.layout,
        res.brdf_handle,
        options.debug_flags,
    );
    let end: Seq<DrawCommand<M>> = if options.has_gizmo {
        seq![DrawCommand::Gizmo { view_proj: options.view_proj }, DrawCommand::EndPass]
    } else {
        seq![DrawCommand::EndPass]
    };
    assert(list =~= opening + drawn + end);
    lemma_no_draws(opening, start);
    lemma_draws_concat(opening, drawn, start);
    lemma_draws_concat(opening + drawn, end, start);
    lemma_no_draws(end, bound_after(opening + drawn, start));
    items_are_drawn_as_they_are(
        items,
        options.pipeline.layout,
        res.brdf_handle,
        options.debug_flags,
        bound_after(opening, start),
    );
    assert(draws_of(list, start) =~= draws_of(drawn, bound_after(opening, start)));
    assert(list[0] == opening[0]);
    assert(list[1] == opening[1]);
}

proof fn lemma_no_draws<M>(list: Seq<DrawCommand<M>>, start: Bound<M>)
    requires
        forall|i: int|
            0 <= i < list.len() ==> (#[trigger] list[i]) !is Draw && list[i] !is DrawIndexed,
    ensures
        draws_of(list, start) == Seq::<Drawn<M>>::empty(),
    decreases list.len(),
{
    if list.len() > 0 {
        assert(list[list.len() - 1] !is Draw);
        lemma_no_draws(list.drop_last(), start);
    }
}

/// Each set is bound at its own index: the frame's own set, the bindless textures, the
/// environment, the shadow map, the frame's own occlusion and the probe volume. The drawing
/// area is the whole framebuffer.
pub proof fn sets_are_bound_at_their_index<M>(
    res: SceneResources,
    pipeline: ScenePipeline,
    frame_index: u32,
    extent: Extent2D,
    i: int,
)
    requires
        0 <= i < bind_commands::<M>(&res, pipeline, frame_index, extent).len(),
        frame_index < res.ao_sets@.len(),
    ensures
        match bind_commands::<M>(&res, pipeline, frame_index, extent)[i] {
            DrawCommand::BindPipeline(p) => p == pipeline.pipeline,
            DrawCommand::BindSet { layout, index, set } => {
                &&& layout == pipeline.layout
                &&& index == i - 1
                &&& index == 0 ==> set == res.frame_sets@[frame_index as int]
                &&& index == 1 ==> set == res.bindless_set
                &&& index == 2 ==> set == res.ibl_set
                &&& index == 3 ==> set == res.shadow_set
                &&& index == 4 ==> set == res.ao_sets@[frame_index as int]
                &&& index == 5 ==> set == res.gi_set
            },
            DrawCommand::SetViewport(e) => e == extent,
            DrawCommand::SetScissor(e) => e == extent,
            _ => false,
        },
        bind_commands::<M>(&res, pipeline, frame_index, extent).len() == 9,
{
}

/// Where nothing is drawn there is no normal: it points nowhere.
pub proof fn cleared_normal_points_nowhere()
    ensures
        no_normal().r == 0 && no_normal().g == 0 && no_normal().b == 0 && no_normal().a == 0,
{
}

} // verus!
