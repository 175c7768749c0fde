use vstd::prelude::*;
use crate::deferred::{buffer_alloc_commands, buffer_data_commands, buffer_whole_commands};
use crate::deferred::{draw_buffers_commands, fb_renderbuffer_commands, fb_texture_commands, setup_commands};
use crate::deferred::{vao_buffer_commands, ProgramReport};
use crate::frame::{frame_commands, prepare_commands, requests_commands, Pipeline, Programs, Sources};
use crate::gl::{Gl, GlCommand};
use crate::gl::{ARRAY_BUFFER, COLOR_ATTACHMENT0, COLOR_ATTACHMENT1, DEPTH_ATTACHMENT, DEPTH_COMPONENT16};
use crate::gl::{R16F, RGBA16F, RGBA8, STATIC_DRAW, STREAM_DRAW, TEXTURE0, TEXTURE1, TEXTURE3};
use crate::gl::TRANSFORM_FEEDBACK_BUFFER;
use crate::icosphere::unrolled;
use crate::pipeline::{blend_render_commands, blend_setup_commands, geometry_render_commands};
use crate::pipeline::{geometry_setup_commands, geometry_vao_commands, ssao_render_commands, ssao_setup_commands};
use crate::pipeline::{xfb_render_commands, xfb_setup_commands, XFBPass, QUAD};

verus! {

/// The part of the state of a context that decides where a draw reads its
/// vertices from and where it captures them to.
pub struct Vertexing {
    /// The vertex array that is bound.
    pub vertex_array: Option<u32>,
    /// The buffer that is bound for vertex data.
    pub array_buffer: Option<u32>,
    /// For each vertex array and attribute slot that was given a source,
    /// the buffer that the attribute reads from.
    pub sources: Map<(u32, u32), u32>,
    /// For each vertex array and attribute slot whose divisor was set, the
    /// divisor: zero where the attribute advances with each vertex, `n`
    /// where it advances with every `n` instances.
    pub divisors: Map<(u32, u32), u32>,
    /// The buffer that captures the output of the vertex stage.
    pub capture: Option<u32>,
    /// Whether the output of the vertex stage is being captured.
    pub capturing: bool,
}

/// The state after `command`, if `state` was before it.
pub open spec fn step<S>(state: Vertexing, command: GlCommand<S>) -> Vertexing {
    match command {
        GlCommand::BindVertexArray(vertex_array) => Vertexing { vertex_array, ..state },
        GlCommand::BindBuffer { target, buffer } => if target == ARRAY_BUFFER {
            Vertexing { array_buffer: buffer, ..state }
        } else {
            state
        },
        GlCommand::VertexAttribPointer { index, size, kind, normalized, stride, offset } => match (
            state.vertex_array,
            state.array_buffer,
        ) {
            (Some(vao), Some(buffer)) => Vertexing { sources: state.sources.insert((vao, index), buffer), ..state },
            _ => state,
        },
        GlCommand::VertexAttribDivisor { index, divisor } => match state.vertex_array {
            Some(vao) => Vertexing { divisors: state.divisors.insert((vao, index), divisor), ..state },
            None => state,
        },
        GlCommand::BindBufferBase { target, index, buffer } => if target == TRANSFORM_FEEDBACK_BUFFER && index
            == 0 {
            Vertexing { capture: buffer, ..state }
        } else {
            state
        },
        GlCommand::BeginTransformFeedback(mode) => Vertexing { capturing: true, ..state },
        GlCommand::EndTransformFeedback => Vertexing { capturing: false, ..state },
        _ => state,
    }
}

/// An attribute of the bound vertex array reads from the buffer that
/// captures, while it captures.
pub open spec fn reads_capture(state: Vertexing) -> bool {
    &&& state.capturing
    &&& state.vertex_array is Some
    &&& state.capture is Some
    &&& exists|index: u32| #[trigger]
        state.sources.contains_key((state.vertex_array.unwrap(), index)) && state.sources[(
            state.vertex_array.unwrap(),
            index,
        )] == state.capture.unwrap()
}

/// `command` is a draw that reads from the buffer it writes to.
pub open spec fn hazard<S>(state: Vertexing, command: GlCommand<S>) -> bool {
    (command is DrawArrays || command is DrawArraysInstanced) && reads_capture(state)
}

/// The state after `commands`, carried out in order from `state`.
pub open spec fn run<S>(state: Vertexing, commands: Seq<GlCommand<S>>) -> Vertexing
    decreases commands.len(),
{
    if commands.len() == 0 {
        state
    } else {
        step(run(state, commands.drop_last()), commands.last())
    }
}

/// None of `commands`, carried out in order from `state`, is a draw that
/// reads from the buffer it writes to.
pub open spec fn hazard_free<S>(state: Vertexing, commands: Seq<GlCommand<S>>) -> bool
    decreases commands.len(),
{
    if commands.len() == 0 {
        true
    } else {
        hazard_free(state, commands.drop_last()) && !hazard(run(state, commands.drop_last()), commands.last())
    }
}

/// `command` leaves the sources and the divisors of the attributes and the
/// capture as they are.
pub open spec fn quiet<S>(command: GlCommand<S>) -> bool {
    !(command is VertexAttribPointer || command is VertexAttribDivisor || command is BindBufferBase
        || command is BeginTransformFeedback || command is EndTransformFeedback)
}

/// Carrying out one more command.
pub proof fn lemma_run_push<S>(state: Vertexing, commands: Seq<GlCommand<S>>, command: GlCommand<S>)
    ensures
        run(state, commands.push(command)) == step(run(state, commands), command),
        hazard_free(state, commands.push(command)) == (hazard_free(state, commands) && !hazard(
            run(state, commands),
            command,
        )),
{
    assert(commands.push(command).drop_last() =~= commands);
}

/// Carrying out `first` and then `second` is carrying out their
/// concatenation.
pub proof fn lemma_run_concat<S>(state: Vertexing, first: Seq<GlCommand<S>>, second: Seq<GlCommand<S>>)
    ensures
        run(state, first + second) == run(run(state, first), second),
        hazard_free(state, first + second) == (hazard_free(state, first) && hazard_free(
            run(state, first),
            second,
        )),
    decreases second.len(),
{
    if second.len() == 0 {
        assert(first + second =~= first);
    } else {
        lemma_run_concat(state, first, second.drop_last());
        assert((first + second).drop_last() =~= first + second.drop_last());
        assert((first + second).last() == second.last());
    }
}

/// Quiet commands outside a capture change neither the sources, nor the
/// divisors, nor the capture, and none of them is a hazard.
pub proof fn lemma_quiet_run<S>(state: Vertexing, commands: Seq<GlCommand<S>>)
    requires
        !state.capturing,
        forall|i: int| 0 <= i < commands.len() ==> quiet(#[trigger] commands[i]),
    ensures
        run(state, commands).sources == state.sources,
        run(state, commands).divisors == state.divisors,
        run(state, commands).capture == state.capture,
        !run(state, commands).capturing,
        hazard_free(state, commands),
    decreases commands.len(),
{
    if commands.len() > 0 {
        let rest = commands.drop_last();
        assert forall|i: int| 0 <= i < rest.len() implies quiet(#[trigger] rest[i]) by {
            assert(rest[i] == commands[i]);
        }
        lemma_quiet_run(state, rest);
        assert(quiet(commands[commands.len() - 1]));
    }
}

/// The divisor of a binding holds, whatever was set before: binding a
/// buffer to an attribute of a vertex array makes the attribute read from
/// the buffer and advance as `divisor` says, with each vertex where it is
/// zero and with every `divisor` instances where it is not. No other source
/// and no other divisor changes, and nothing stays bound.
pub proof fn lemma_vao_buffer_run<S>(
    state: Vertexing,
    vao: u32,
    buffer: u32,
    attrib: u32,
    size: i32,
    stride: i32,
    offset: i32,
    normalize: bool,
    divisor: u32,
)
    ensures
        run(
            state,
            vao_buffer_commands::<S>(Some(vao), buffer, attrib, size, stride, offset, normalize, divisor),
        ) == (Vertexing {
            vertex_array: None,
            array_buffer: None,
            sources: state.sources.insert((vao, attrib), buffer),
            divisors: state.divisors.insert((vao, attrib), divisor),
            ..state
        }),
        run(
            state,
            vao_buffer_commands::<S>(Some(vao), buffer, attrib, size, stride, offset, normalize, divisor),
        ).divisors[(vao, attrib)] == divisor,
        hazard_free(
            state,
            vao_buffer_commands::<S>(Some(vao), buffer, attrib, size, stride, offset, normalize, divisor),
        ),
{
    let all = vao_buffer_commands::<S>(Some(vao), buffer, attrib, size, stride, offset, normalize, divisor);
    assert(all.len() == 7);
    let none = Seq::<GlCommand<S>>::empty();
    let c0 = none.push(all[0]);
    let c1 = c0.push(all[1]);
    let c2 = c1.push(all[2]);
    let c3 = c2.push(all[3]);
    let c4 = c3.push(all[4]);
    let c5 = c4.push(all[5]);
    let c6 = c5.push(all[6]);
    lemma_run_push(state, none, all[0]);
    lemma_run_push(state, c0, all[1]);
    lemma_run_push(state, c1, all[2]);
    lemma_run_push(state, c2, all[3]);
    lemma_run_push(state, c3, all[4]);
    lemma_run_push(state, c4, all[5]);
    lemma_run_push(state, c5, all[6]);
    assert(all =~= c6);
}

/// Binding an attribute again replaces its divisor: after a binding with
/// the divisor `earlier` and one of the same attribute with `divisor`, the
/// attribute advances as `divisor` says, per vertex where it is zero.
pub proof fn lemma_rebinding_replaces_divisor<S>(
    state: Vertexing,
    vao: u32,
    attrib: u32,
    first: u32,
    earlier: u32,
    second: u32,
    divisor: u32,
)
    ensures
        run(
            state,
            vao_buffer_commands::<S>(Some(vao), first, attrib, 3, 0, 0, false, earlier) + vao_buffer_commands::<S>(
                Some(vao),
                second,
                attrib,
                3,
                0,
                0,
                false,
                divisor,
            ),
        ).divisors[(vao, attrib)] == divisor,
{
    let one = vao_buffer_commands::<S>(Some(vao), first, attrib, 3, 0, 0, false, earlier);
    let two = vao_buffer_commands::<S>(Some(vao), second, attrib, 3, 0, 0, false, divisor);
    lemma_vao_buffer_run::<S>(run(state, one), vao, second, attrib, 3, 0, 0, false, divisor);
    lemma_run_concat(state, one, two);
}

/// Every attribute of vertex array `vao` that has a source reads from
/// `buffer`.
pub open spec fn sourced(state: Vertexing, vao: u32, buffer: u32) -> bool {
    forall|index: u32| #[trigger]
        state.sources.contains_key((vao, index)) ==> state.sources[(vao, index)] == buffer
}

/// Each vertex array of the transport stage reads from the buffer of the
/// same position, and from no other.
pub open spec fn reads_own(state: Vertexing, pass: XFBPass) -> bool {
    &&& sourced(state, pass.rp.vaos@[0], pass.buffers@[0].id)
    &&& sourced(state, pass.rp.vaos@[1], pass.buffers@[1].id)
}

/// A transport step that draws from a vertex array which reads from
/// `source` and captures into another buffer is no hazard, and leaves the
/// sources as they are.
pub proof fn lemma_transport_step<S>(
    state: Vertexing,
    shader: u32,
    vao: u32,
    u_dt: u32,
    dt: S,
    source: u32,
    target: u32,
    n_inst: i32,
)
    requires
        !state.capturing,
        sourced(state, vao, source),
        source != target,
    ensures
        hazard_free(state, xfb_render_commands(shader, Some(vao), u_dt, dt, target, n_inst)),
        run(state, xfb_render_commands(shader, Some(vao), u_dt, dt, target, n_inst)).sources == state.sources,
        !run(state, xfb_render_commands(shader, Some(vao), u_dt, dt, target, n_inst)).capturing,
{
    let all = xfb_render_commands(shader, Some(vao), u_dt, dt, target, n_inst);
    assert(all.len() == 11);
    let none = Seq::<GlCommand<S>>::empty();
    let c0 = none.push(all[0]);
    let c1 = c0.push(all[1]);
    let c2 = c1.push(all[2]);
    let c3 = c2.push(all[3]);
    let c4 = c3.push(all[4]);
    let c5 = c4.push(all[5]);
    let c6 = c5.push(all[6]);
    let c7 = c6.push(all[7]);
    let c8 = c7.push(all[8]);
    let c9 = c8.push(all[9]);
    let c10 = c9.push(all[10]);
    lemma_run_push(state, none, all[0]);
    lemma_run_push(state, c0, all[1]);
    lemma_run_push(state, c1, all[2]);
    lemma_run_push(state, c2, all[3]);
    lemma_run_push(state, c3, all[4]);
    lemma_run_push(state, c4, all[5]);
    lemma_run_push(state, c5, all[6]);
    lemma_run_push(state, c6, all[7]);
    lemma_run_push(state, c7, all[8]);
    lemma_run_push(state, c8, all[9]);
    lemma_run_push(state, c9, all[10]);
    assert(all =~= c10);
    let drawing = run(state, c6);
    assert(drawing.vertex_array == Some(vao));
    assert(drawing.capture == Some(target));
    assert(drawing.sources == state.sources);
    assert(!reads_capture(drawing));
}

/// No frame reads from the buffer it captures into: where each vertex
/// array of the transport stage reads from its own buffer, a frame holds
/// no hazard, and leaves every source as it is.
pub proof fn lemma_frame_hazard_free<S>(
    state: Vertexing,
    p: Pipeline,
    dt: S,
    scale: S,
    lightdir: [S; 3],
    proj: [S; 16],
    view: [S; 16],
    size: (S, S),
    width: i32,
    height: i32,
)
    requires
        p.wf(),
        !state.capturing,
        reads_own(state, p.xfb_pass),
    ensures
        hazard_free(state, frame_commands(p, dt, scale, lightdir, proj, view, size, width, height)),
        run(state, frame_commands(p, dt, scale, lightdir, proj, view, size, width, height)).sources
            == state.sources,
        !run(state, frame_commands(p, dt, scale, lightdir, proj, view, size, width, height)).capturing,
        reads_own(
            run(state, frame_commands(p, dt, scale, lightdir, proj, view, size, width, height)),
            p.xfb_pass.stepped(),
        ),
{
    let xfb = xfb_render_commands(
        p.xfb_pass.rp.shader,
        Some(p.xfb_pass.rp.vaos@[p.xfb_pass.read_idx as int]),
        p.xfb_pass.rp.uniform_slot("u_dt"@).unwrap(),
        dt,
        p.xfb_pass.buffers@[p.xfb_pass.write_idx as int].id,
        p.xfb_pass.n_inst as i32,
    );
    let geometry = geometry_render_commands(
        p.geometry_pass.rp.shader,
        Some(p.geometry_pass.rp.fbos@[0]),
        Some(p.geometry_pass.rp.vaos@[p.xfb_pass.write_idx as int]),
        (
            p.geometry_pass.rp.uniform_slot("u_proj"@).unwrap(),
            p.geometry_pass.rp.uniform_slot("u_view"@).unwrap(),
            p.geometry_pass.rp.uniform_slot("u_scale"@).unwrap(),
            p.geometry_pass.rp.uniform_slot("u_lightdir"@).unwrap(),
        ),
        scale,
        lightdir,
        proj,
        view,
        p.geometry_pass.particle.n_vert as i32,
        p.geometry_pass.n_inst as i32,
    );
    let ssao = ssao_render_commands(
        p.ssao_pass.rp.shader,
        Some(p.ssao_pass.rp.fbos@[0]),
        Some(p.ssao_pass.rp.vaos@[0]),
        (
            p.ssao_pass.rp.uniform_slot("s_gdata"@).unwrap(),
            p.ssao_pass.rp.uniform_slot("u_width"@).unwrap(),
            p.ssao_pass.rp.uniform_slot("u_height"@).unwrap(),
        ),
        size.0,
        size.1,
        p.geometry_pass.t_gdata,
    );
    let blend = blend_render_commands::<S>(
        p.blend_pass.rp.shader,
        Some(p.blend_pass.rp.fbos@[0]),
        Some(p.blend_pass.rp.vaos@[0]),
        (
            p.blend_pass.rp.uniform_slot("s_color"@).unwrap(),
            p.blend_pass.rp.uniform_slot("s_occlusion"@).unwrap(),
        ),
        width,
        height,
        p.geometry_pass.t_color,
        p.ssao_pass.t_occlusion,
    );
    lemma_transport_step(
        state,
        p.xfb_pass.rp.shader,
        p.xfb_pass.rp.vaos@[p.xfb_pass.read_idx as int],
        p.xfb_pass.rp.uniform_slot("u_dt"@).unwrap(),
        dt,
        p.xfb_pass.buffers@[p.xfb_pass.read_idx as int].id,
        p.xfb_pass.buffers@[p.xfb_pass.write_idx as int].id,
        p.xfb_pass.n_inst as i32,
    );
    let moved = run(state, xfb);
    assert(geometry.len() == 12);
    assert(ssao.len() == 10);
    assert(blend.len() == 13);
    let rest = geometry + ssao + blend;
    assert forall|i: int| 0 <= i < rest.len() implies quiet(#[trigger] rest[i]) by {
        if i < 12 {
            assert(rest[i] == geometry[i]);
        } else if i < 22 {
            assert(rest[i] == ssao[i - 12]);
        } else {
            assert(rest[i] == blend[i - 22]);
        }
    }
    lemma_quiet_run(moved, rest);
    assert(xfb + geometry + ssao + blend =~= xfb + rest);
    lemma_run_concat(state, xfb, rest);
}


/// What setting a pass up records is quiet.
pub proof fn lemma_setup_quiet<S>(program: ProgramReport, first: int, free: int, n_fbos: nat, n_vaos: nat)
    ensures
        forall|i: int|
            0 <= i < setup_commands::<S>(program, first, free, n_fbos, n_vaos).len() ==> quiet(
                #[trigger] setup_commands::<S>(program, first, free, n_fbos, n_vaos)[i],
            ),
{
}

/// Setting the transport stage up makes the position attribute of each of
/// its two vertex arrays read from the buffer of the same position and
/// advance with each vertex, and changes no other source or divisor.
pub proof fn lemma_xfb_setup_run<S>(
    state: Vertexing,
    program: ProgramReport,
    first: int,
    free: int,
    instances: Vec<S>,
    n_inst: usize,
    i_pos: u32,
)
    requires
        !state.capturing,
    ensures
        run(state, xfb_setup_commands(program, first, free, instances, n_inst, i_pos)).sources
            == state.sources.insert((first as u32, i_pos), (first + 2) as u32).insert(
            ((first + 1) as u32, i_pos),
            (first + 3) as u32,
        ),
        run(state, xfb_setup_commands(program, first, free, instances, n_inst, i_pos)).divisors
            == state.divisors.insert((first as u32, i_pos), 0).insert(((first + 1) as u32, i_pos), 0),
        !run(state, xfb_setup_commands(program, first, free, instances, n_inst, i_pos)).capturing,
        hazard_free(state, xfb_setup_commands(program, first, free, instances, n_inst, i_pos)),
{
    let head = setup_commands::<S>(program, first, free, 0, 2) + buffer_data_commands(
        (first + 2) as u32,
        instances,
        STREAM_DRAW,
    ) + buffer_alloc_commands((first + 3) as u32, (n_inst * 12) as i32, STREAM_DRAW);
    let one = vao_buffer_commands::<S>(Some(first as u32), (first + 2) as u32, i_pos, 3, 0, 0, false, 0);
    let two = vao_buffer_commands::<S>(Some((first + 1) as u32), (first + 3) as u32, i_pos, 3, 0, 0, false, 0);
    lemma_setup_quiet::<S>(program, first, free, 0, 2);
    lemma_quiet_run(state, head);
    lemma_vao_buffer_run::<S>(run(state, head), first as u32, (first + 2) as u32, i_pos, 3, 0, 0, false, 0);
    lemma_run_concat(state, head, one);
    lemma_vao_buffer_run::<S>(
        run(state, head + one),
        (first + 1) as u32,
        (first + 3) as u32,
        i_pos,
        3,
        0,
        0,
        false,
        0,
    );
    lemma_run_concat(state, head + one, two);
    assert(xfb_setup_commands(program, first, free, instances, n_inst, i_pos) =~= head + one + two);
}

/// Binding the three attributes of a vertex array of the geometry stage
/// gives each its source and its divisor: the instance positions advance
/// once an instance, the positions and normals of the mesh with each
/// vertex. No other source or divisor changes.
pub proof fn lemma_geometry_vao_run<S>(
    state: Vertexing,
    vao: u32,
    inst: u32,
    buf_g: u32,
    buf_n: u32,
    i_pos: u32,
    a_pos: u32,
    a_normal: u32,
)
    requires
        !state.capturing,
    ensures
        run(state, geometry_vao_commands::<S>(Some(vao), inst, buf_g, buf_n, i_pos, a_pos, a_normal)).sources
            == state.sources.insert((vao, i_pos), inst).insert((vao, a_pos), buf_g).insert(
            (vao, a_normal),
            buf_n,
        ),
        run(state, geometry_vao_commands::<S>(Some(vao), inst, buf_g, buf_n, i_pos, a_pos, a_normal)).divisors
            == state.divisors.insert((vao, i_pos), 1).insert((vao, a_pos), 0).insert((vao, a_normal), 0),
        !run(state, geometry_vao_commands::<S>(Some(vao), inst, buf_g, buf_n, i_pos, a_pos, a_normal)).capturing,
        hazard_free(state, geometry_vao_commands::<S>(Some(vao), inst, buf_g, buf_n, i_pos, a_pos, a_normal)),
{
    let one = vao_buffer_commands::<S>(Some(vao), inst, i_pos, 3, 0, 0, false, 1);
    let two = vao_buffer_commands::<S>(Some(vao), buf_g, a_pos, 3, 0, 0, false, 0);
    let three = vao_buffer_commands::<S>(Some(vao), buf_n, a_normal, 3, 0, 0, true, 0);
    lemma_vao_buffer_run::<S>(state, vao, inst, i_pos, 3, 0, 0, false, 1);
    lemma_vao_buffer_run::<S>(run(state, one), vao, buf_g, a_pos, 3, 0, 0, false, 0);
    lemma_run_concat(state, one, two);
    lemma_vao_buffer_run::<S>(run(state, one + two), vao, buf_n, a_normal, 3, 0, 0, true, 0);
    lemma_run_concat(state, one + two, three);
}

/// `after` has the sources of `before`, but for attributes of the vertex
/// arrays `first` and `second`.
pub open spec fn differs_at(after: Vertexing, before: Vertexing, first: u32, second: u32) -> bool {
    forall|vao: u32, index: u32|
        vao != first && vao != second ==> {
            &&& #[trigger] after.sources.contains_key((vao, index)) == before.sources.contains_key((vao, index))
            &&& after.sources[(vao, index)] == before.sources[(vao, index)]
        }
}

/// Setting the geometry stage up gives sources to attributes of its own two
/// vertex arrays, and changes no other source.
pub proof fn lemma_geometry_setup_run<S>(
    state: Vertexing,
    program: ProgramReport,
    first: int,
    free: int,
    inst: (u32, u32),
    verts: Vec<S>,
    norms: Vec<S>,
    targets: Vec<u32>,
    slots: (u32, u32, u32),
    width: i32,
    height: i32,
)
    requires
        !state.capturing,
    ensures
        differs_at(
            run(
                state,
                geometry_setup_commands(program, first, free, inst, verts, norms, targets, slots, width, height),
            ),
            state,
            (first + 1) as u32,
            (first + 2) as u32,
        ),
        !run(
            state,
            geometry_setup_commands(program, first, free, inst, verts, norms, targets, slots, width, height),
        ).capturing,
        hazard_free(
            state,
            geometry_setup_commands(program, first, free, inst, verts, norms, targets, slots, width, height),
        ),
{
    let fbo = Some(first as u32);
    let buf_g = (first + 3) as u32;
    let buf_n = (first + 4) as u32;
    let head = setup_commands::<S>(program, first, free, 1, 2) + buffer_data_commands(buf_g, verts, STATIC_DRAW)
        + buffer_data_commands(buf_n, norms, STATIC_DRAW);
    let one = geometry_vao_commands::<S>(
        Some((first + 1) as u32),
        inst.0,
        buf_g,
        buf_n,
        slots.0,
        slots.1,
        slots.2,
    );
    let two = geometry_vao_commands::<S>(
        Some((first + 2) as u32),
        inst.1,
        buf_g,
        buf_n,
        slots.0,
        slots.1,
        slots.2,
    );
    let tail = fb_renderbuffer_commands::<S>(
        fbo,
        (first + 5) as u32,
        0,
        DEPTH_COMPONENT16,
        DEPTH_ATTACHMENT,
        width,
        height,
    ) + fb_texture_commands(
        fbo,
        (first + 6) as u32,
        TEXTURE0,
        RGBA8,
        COLOR_ATTACHMENT0,
        width,
        height,
    ) + fb_texture_commands(
        fbo,
        (first + 7) as u32,
        TEXTURE1,
        RGBA16F,
        COLOR_ATTACHMENT1,
        width,
        height,
    ) + draw_buffers_commands(fbo, targets);
    lemma_setup_quiet::<S>(program, first, free, 1, 2);
    lemma_quiet_run(state, head);
    lemma_geometry_vao_run::<S>(
        run(state, head),
        (first + 1) as u32,
        inst.0,
        buf_g,
        buf_n,
        slots.0,
        slots.1,
        slots.2,
    );
    lemma_run_concat(state, head, one);
    lemma_geometry_vao_run::<S>(
        run(state, head + one),
        (first + 2) as u32,
        inst.1,
        buf_g,
        buf_n,
        slots.0,
        slots.1,
        slots.2,
    );
    lemma_run_concat(state, head + one, two);
    lemma_quiet_run(run(state, head + one + two), tail);
    lemma_run_concat(state, head + one + two, tail);
    assert(geometry_setup_commands(program, first, free, inst, verts, norms, targets, slots, width, height)
        =~= head + one + two + tail);
}

/// Setting the occlusion stage up gives a source to an attribute of its own
/// vertex array, and changes no other source.
pub proof fn lemma_ssao_setup_run<S>(
    state: Vertexing,
    program: ProgramReport,
    first: int,
    free: int,
    corners: Vec<i32>,
    a_pos: u32,
    width: i32,
    height: i32,
)
    requires
        !state.capturing,
    ensures
        differs_at(
            run(state, ssao_setup_commands::<S>(program, first, free, corners, a_pos, width, height)),
            state,
            (first + 1) as u32,
            (first + 1) as u32,
        ),
        !run(state, ssao_setup_commands::<S>(program, first, free, corners, a_pos, width, height)).capturing,
        hazard_free(state, ssao_setup_commands::<S>(program, first, free, corners, a_pos, width, height)),
{
    let head = setup_commands::<S>(program, first, free, 1, 1) + buffer_whole_commands(
        (first + 2) as u32,
        corners,
        STATIC_DRAW,
    );
    let one = vao_buffer_commands::<S>(Some((first + 1) as u32), (first + 2) as u32, a_pos, 2, 0, 0, false, 0);
    let tail = fb_texture_commands::<S>(
        Some(first as u32),
        (first + 3) as u32,
        TEXTURE3,
        R16F,
        COLOR_ATTACHMENT0,
        width,
        height,
    );
    lemma_setup_quiet::<S>(program, first, free, 1, 1);
    lemma_quiet_run(state, head);
    lemma_vao_buffer_run::<S>(run(state, head), (first + 1) as u32, (first + 2) as u32, a_pos, 2, 0, 0, false, 0);
    lemma_run_concat(state, head, one);
    lemma_quiet_run(run(state, head + one), tail);
    lemma_run_concat(state, head + one, tail);
    assert(ssao_setup_commands::<S>(program, first, free, corners, a_pos, width, height) =~= head + one + tail);
}

/// Setting the composite stage up gives a source to an attribute of its own
/// vertex array, and changes no other source.
pub proof fn lemma_blend_setup_run<S>(
    state: Vertexing,
    program: ProgramReport,
    first: int,
    free: int,
    corners: Vec<i32>,
    a_pos: u32,
    width: i32,
    height: i32,
)
    requires
        !state.capturing,
    ensures
        differs_at(
            run(state, blend_setup_commands::<S>(program, first, free, corners, a_pos, width, height)),
            state,
            (first + 1) as u32,
            (first + 1) as u32,
        ),
        !run(state, blend_setup_commands::<S>(program, first, free, corners, a_pos, width, height)).capturing,
        hazard_free(state, blend_setup_commands::<S>(program, first, free, corners, a_pos, width, height)),
{
    let head = setup_commands::<S>(program, first, free, 1, 1) + buffer_whole_commands(
        (first + 2) as u32,
        corners,
        STATIC_DRAW,
    );
    let one = vao_buffer_commands::<S>(Some((first + 1) as u32), (first + 2) as u32, a_pos, 2, 0, 0, false, 0);
    let tail = fb_renderbuffer_commands::<S>(
        Some(first as u32),
        (first + 3) as u32,
        4,
        RGBA8,
        COLOR_ATTACHMENT0,
        width,
        height,
    );
    lemma_setup_quiet::<S>(program, first, free, 1, 1);
    lemma_quiet_run(state, head);
    lemma_vao_buffer_run::<S>(run(state, head), (first + 1) as u32, (first + 2) as u32, a_pos, 2, 0, 0, false, 0);
    lemma_run_concat(state, head, one);
    lemma_quiet_run(run(state, head + one), tail);
    lemma_run_concat(state, head + one, tail);
    assert(blend_setup_commands::<S>(program, first, free, corners, a_pos, width, height) =~= head + one + tail);
}


/// No attribute of vertex array `vao` has a source.
pub open spec fn unsourced(state: Vertexing, vao: u32) -> bool {
    forall|index: u32| !#[trigger] state.sources.contains_key((vao, index))
}

/// Setting the pipeline up holds no hazard and leaves each vertex array of
/// the transport stage reading from the buffer of the same position, if
/// the two vertex arrays had no source before: the other stages give
/// sources to their own vertex arrays only.
pub proof fn lemma_pipeline_setup<S>(
    state: Vertexing,
    p: Pipeline,
    before: Gl<S>,
    a: Gl<S>,
    b: Gl<S>,
    c: Gl<S>,
    after: Gl<S>,
    programs: Programs,
    instances: Vec<S>,
    n_inst: usize,
    particle_lod: usize,
    vertices: Seq<[S; 3]>,
    normals: Seq<[S; 3]>,
)
    requires
        p.xfb_pass.set_up(before, a, programs.xfb, instances, n_inst),
        p.geometry_pass.set_up(
            a,
            b,
            programs.geometry,
            p.xfb_pass.buffers@,
            n_inst,
            particle_lod,
            vertices,
            normals,
        ),
        p.ssao_pass.set_up(b, c, programs.ssao),
        p.blend_pass.set_up(c, after, programs.blend),
        !state.capturing,
        unsourced(state, before.next_handle),
        unsourced(state, (before.next_handle + 1) as u32),
    ensures
        hazard_free(state, after.commands@.skip(before.commands@.len() as int)),
        reads_own(run(state, after.commands@.skip(before.commands@.len() as int)), p.xfb_pass),
        !run(state, after.commands@.skip(before.commands@.len() as int)).capturing,
{
    let first = before.next_handle as int;
    let free = u32::MAX - before.next_handle;
    let i_pos = p.xfb_pass.rp.attribute_slot("i_pos"@).unwrap();
    let xfb = xfb_setup_commands(programs.xfb, first, free, instances, n_inst, i_pos);
    let (verts, norms, targets) = choose|verts: Vec<S>, norms: Vec<S>, targets: Vec<u32>|
        {
            &&& verts@ == unrolled(p.geometry_pass.particle@.faces, vertices)
            &&& norms@ == unrolled(p.geometry_pass.particle@.faces, normals)
            &&& targets@ == seq![COLOR_ATTACHMENT0, COLOR_ATTACHMENT1]
            &&& b.follows(
                a,
                #[trigger] geometry_setup_commands(
                    programs.geometry,
                    a.next_handle as int,
                    u32::MAX - a.next_handle,
                    (p.xfb_pass.buffers@[0].id, p.xfb_pass.buffers@[1].id),
                    verts,
                    norms,
                    targets,
                    (
                        p.geometry_pass.rp.attribute_slot("i_pos"@).unwrap(),
                        p.geometry_pass.rp.attribute_slot("a_pos"@).unwrap(),
                        p.geometry_pass.rp.attribute_slot("a_normal"@).unwrap(),
                    ),
                    a.width,
                    a.height,
                ),
                8,
            )
        };
    let geometry = geometry_setup_commands(
        programs.geometry,
        a.next_handle as int,
        u32::MAX - a.next_handle,
        (p.xfb_pass.buffers@[0].id, p.xfb_pass.buffers@[1].id),
        verts,
        norms,
        targets,
        (
            p.geometry_pass.rp.attribute_slot("i_pos"@).unwrap(),
            p.geometry_pass.rp.attribute_slot("a_pos"@).unwrap(),
            p.geometry_pass.rp.attribute_slot("a_normal"@).unwrap(),
        ),
        a.width,
        a.height,
    );
    let ssao_corners = choose|corners: Vec<i32>|
        corners@ == QUAD@ && c.follows(
            b,
            #[trigger] ssao_setup_commands(
                programs.ssao,
                b.next_handle as int,
                u32::MAX - b.next_handle,
                corners,
                p.ssao_pass.rp.attribute_slot("a_pos"@).unwrap(),
                b.width,
                b.height,
            ),
            4,
        );
    let ssao = ssao_setup_commands::<S>(
        programs.ssao,
        b.next_handle as int,
        u32::MAX - b.next_handle,
        ssao_corners,
        p.ssao_pass.rp.attribute_slot("a_pos"@).unwrap(),
        b.width,
        b.height,
    );
    let blend_corners = choose|corners: Vec<i32>|
        corners@ == QUAD@ && after.follows(
            c,
            #[trigger] blend_setup_commands(
                programs.blend,
                c.next_handle as int,
                u32::MAX - c.next_handle,
                corners,
                p.blend_pass.rp.attribute_slot("a_pos"@).unwrap(),
                c.width,
                c.height,
            ),
            4,
        );
    let blend = blend_setup_commands::<S>(
        programs.blend,
        c.next_handle as int,
        u32::MAX - c.next_handle,
        blend_corners,
        p.blend_pass.rp.attribute_slot("a_pos"@).unwrap(),
        c.width,
        c.height,
    );
    let added = after.commands@.skip(before.commands@.len() as int);
    assert(added =~= xfb + geometry + ssao + blend);

    lemma_xfb_setup_run(state, programs.xfb, first, free, instances, n_inst, i_pos);
    let s1 = run(state, xfb);
    assert(reads_own(s1, p.xfb_pass));

    lemma_geometry_setup_run(
        s1,
        programs.geometry,
        a.next_handle as int,
        u32::MAX - a.next_handle,
        (p.xfb_pass.buffers@[0].id, p.xfb_pass.buffers@[1].id),
        verts,
        norms,
        targets,
        (
            p.geometry_pass.rp.attribute_slot("i_pos"@).unwrap(),
            p.geometry_pass.rp.attribute_slot("a_pos"@).unwrap(),
            p.geometry_pass.rp.attribute_slot("a_normal"@).unwrap(),
        ),
        a.width,
        a.height,
    );
    lemma_run_concat(state, xfb, geometry);
    let s2 = run(state, xfb + geometry);
    assert(reads_own(s2, p.xfb_pass));

    lemma_ssao_setup_run::<S>(
        s2,
        programs.ssao,
        b.next_handle as int,
        u32::MAX - b.next_handle,
        ssao_corners,
        p.ssao_pass.rp.attribute_slot("a_pos"@).unwrap(),
        b.width,
        b.height,
    );
    lemma_run_concat(state, xfb + geometry, ssao);
    let s3 = run(state, xfb + geometry + ssao);
    assert(reads_own(s3, p.xfb_pass));

    lemma_blend_setup_run::<S>(
        s3,
        programs.blend,
        c.next_handle as int,
        u32::MAX - c.next_handle,
        blend_corners,
        p.blend_pass.rp.attribute_slot("a_pos"@).unwrap(),
        c.width,
        c.height,
    );
    lemma_run_concat(state, xfb + geometry + ssao, blend);
}


/// The state of a context on which nothing was done yet.
pub open spec fn fresh() -> Vertexing {
    Vertexing {
        vertex_array: None,
        array_buffer: None,
        sources: Map::empty(),
        divisors: Map::empty(),
        capture: None,
        capturing: false,
    }
}

/// On a fresh context, after it was prepared and the programs were
/// requested, no vertex array has a source and nothing is captured: the
/// state in which the pipeline is set up.
pub proof fn lemma_startup<S>(first: int, sources: Sources, xfb_captured: Option<&'static [&'static str]>, vao: u32)
    ensures
        unsourced(run(fresh(), prepare_commands::<S>() + requests_commands(first, sources, xfb_captured)), vao),
        !run(fresh(), prepare_commands::<S>() + requests_commands(first, sources, xfb_captured)).capturing,
        hazard_free(fresh(), prepare_commands::<S>() + requests_commands(first, sources, xfb_captured)),
{
    let all = prepare_commands::<S>() + requests_commands(first, sources, xfb_captured);
    assert forall|i: int| 0 <= i < all.len() implies quiet(#[trigger] all[i]) by {
        let asked = requests_commands::<S>(first, sources, xfb_captured);
        if i >= 6 {
            assert(all[i] == asked[i - 6]);
        }
    }
    lemma_quiet_run(fresh(), all);
}

} // verus!
