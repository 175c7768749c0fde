use vstd::prelude::*;
use crate::deferred::{request_commands, request_failure, PassError, ProgramReport, ProgramRequest, RenderPass};
use crate::gl::{Gl, GlCommand};
use crate::gl::{BLEND, COLOR_BUFFER_BIT, CULL_FACE, DEPTH_TEST, DITHER, NEAREST, POINTS, SCISSOR_TEST};
use crate::gl::{STENCIL_TEST, TRIANGLES};
use crate::pipeline::{blend_failure, blend_render_commands, geometry_failure, geometry_render_commands};
use crate::pipeline::{ssao_failure, ssao_render_commands, surface, xfb_failure, xfb_render_commands};
use crate::pipeline::{BlendPass, GeometryPass, SSAOPass, XFBPass};
use crate::pipeline::{blend_declared, geometry_declared, ssao_declared, xfb_declared};
use crate::pipeline::{blend_outputs, blend_uniforms, geometry_attributes, geometry_outputs, geometry_uniforms};
use crate::pipeline::{quad_attributes, ssao_outputs, ssao_uniforms, xfb_attributes, xfb_uniforms, xfb_varyings};

verus! {

/// The four stages of the renderer, in the order in which each frame runs
/// them.
pub struct Pipeline {
    pub xfb_pass: XFBPass,
    pub geometry_pass: GeometryPass,
    pub ssao_pass: SSAOPass,
    pub blend_pass: BlendPass,
}

/// The reports on the programs of the four stages.
pub struct Programs {
    pub xfb: ProgramReport,
    pub geometry: ProgramReport,
    pub ssao: ProgramReport,
    pub blend: ProgramReport,
}

/// The shader sources of one stage.
pub struct StageSource {
    pub vertex: String,
    pub fragment: String,
}

/// The shader sources of the four stages.
pub struct Sources {
    pub xfb: StageSource,
    pub geometry: StageSource,
    pub ssao: StageSource,
    pub blend: StageSource,
}

/// The programs of the four stages, as they were requested.
pub struct Requests {
    pub xfb: ProgramRequest,
    pub geometry: ProgramRequest,
    pub ssao: ProgramRequest,
    pub blend: ProgramRequest,
}

/// Why requesting the four programs fails with `free` handles left, if it
/// does: each program takes three.
pub open spec fn requests_failure(free: int) -> Option<PassError> {
    if free >= 12 {
        None
    } else {
        request_failure(free % 3)
    }
}

/// What requesting the four programs records.
pub open spec fn requests_commands<S>(
    first: int,
    sources: Sources,
    xfb_captured: Option<&'static [&'static str]>,
) -> Seq<GlCommand<S>> {
    request_commands(first, sources.xfb.vertex, sources.xfb.fragment, xfb_captured) + request_commands(
        first + 3,
        sources.geometry.vertex,
        sources.geometry.fragment,
        None,
    ) + request_commands(first + 6, sources.ssao.vertex, sources.ssao.fragment, None) + request_commands(
        first + 9,
        sources.blend.vertex,
        sources.blend.fragment,
        None,
    )
}

impl Requests {
    /// The programs were requested one after the other from the handle
    /// `first` on, each with the names that its stage declares.
    pub open spec fn asked_from(self, first: int) -> bool {
        &&& self.xfb.vertex == first && self.xfb.fragment == first + 1 && self.xfb.program == first + 2
        &&& self.geometry.vertex == first + 3 && self.geometry.fragment == first + 4 && self.geometry.program
            == first + 5
        &&& self.ssao.vertex == first + 6 && self.ssao.fragment == first + 7 && self.ssao.program == first + 8
        &&& self.blend.vertex == first + 9 && self.blend.fragment == first + 10 && self.blend.program == first
            + 11
        &&& self.xfb.declared.declares(xfb_uniforms(), xfb_attributes(), Seq::empty(), Some(xfb_varyings()))
        &&& self.geometry.declared.declares(geometry_uniforms(), geometry_attributes(), geometry_outputs(), None)
        &&& self.ssao.declared.declares(ssao_uniforms(), quad_attributes(), ssao_outputs(), None)
        &&& self.blend.declared.declares(blend_uniforms(), quad_attributes(), blend_outputs(), None)
    }
}

/// What preparing the context records: dithering, blending, scissor and
/// stencil test are switched off, depth test and face culling on.
pub open spec fn prepare_commands<S>() -> Seq<GlCommand<S>> {
    seq![
        GlCommand::Disable(DITHER),
        GlCommand::Disable(BLEND),
        GlCommand::Disable(SCISSOR_TEST),
        GlCommand::Disable(STENCIL_TEST),
        GlCommand::Enable(DEPTH_TEST),
        GlCommand::Enable(CULL_FACE),
    ]
}

/// Why setting the pipeline up fails, if it does: the failure of the first
/// stage that fails, the stages being set up in the order transport,
/// geometry, occlusion, composite.
pub open spec fn pipeline_failure(
    programs: Programs,
    free: int,
    components: nat,
    n_inst: nat,
    lod: nat,
    n_vertices: nat,
    n_normals: nat,
) -> Option<PassError> {
    if xfb_failure(programs.xfb, free, components, n_inst) is Some {
        xfb_failure(programs.xfb, free, components, n_inst)
    } else if geometry_failure(programs.geometry, free - 4, n_inst, lod, n_vertices, n_normals) is Some {
        geometry_failure(programs.geometry, free - 4, n_inst, lod, n_vertices, n_normals)
    } else if ssao_failure(programs.ssao, free - 12) is Some {
        ssao_failure(programs.ssao, free - 12)
    } else {
        blend_failure(programs.blend, free - 16)
    }
}

/// What one frame records: transport, then geometry from the buffer that
/// transport has just written, then occlusion from the packed data of
/// geometry, then the composite of colour and occlusion.
pub open spec fn frame_commands<S>(
    p: Pipeline,
    dt: S,
    scale: S,
    lightdir: [S; 3],
    proj: [S; 16],
    view: [S; 16],
    size: (S, S),
    width: i32,
    height: i32,
) -> Seq<GlCommand<S>> {
    xfb_render_commands(
        p.xfb_pass.rp.shader,
        Some(p.xfb_pass.rp.vaos@[p.xfb_pass.read_idx as int]),
        p.xfb_pass.rp.uniform_slot("u_dt"@).unwrap(),
        dt,
        p.xfb_pass.buffers@[p.xfb_pass.write_idx as int].id,
        p.xfb_pass.n_inst as i32,
    ) + geometry_render_commands(
        p.geometry_pass.rp.shader,
        Some(p.geometry_pass.rp.fbos@[0]),
        Some(p.geometry_pass.rp.vaos@[p.xfb_pass.write_idx as int]),
        (
            p.geometry_pass.rp.uniform_slot("u_proj"@).unwrap(),
            p.geometry_pass.rp.uniform_slot("u_view"@).unwrap(),
            p.geometry_pass.rp.uniform_slot("u_scale"@).unwrap(),
            p.geometry_pass.rp.uniform_slot("u_lightdir"@).unwrap(),
        ),
        scale,
        lightdir,
        proj,
        view,
        p.geometry_pass.particle.n_vert as i32,
        p.geometry_pass.n_inst as i32,
    ) + ssao_render_commands(
        p.ssao_pass.rp.shader,
        Some(p.ssao_pass.rp.fbos@[0]),
        Some(p.ssao_pass.rp.vaos@[0]),
        (
            p.ssao_pass.rp.uniform_slot("s_gdata"@).unwrap(),
            p.ssao_pass.rp.uniform_slot("u_width"@).unwrap(),
            p.ssao_pass.rp.uniform_slot("u_height"@).unwrap(),
        ),
        size.0,
        size.1,
        p.geometry_pass.t_gdata,
    ) + blend_render_commands(
        p.blend_pass.rp.shader,
        Some(p.blend_pass.rp.fbos@[0]),
        Some(p.blend_pass.rp.vaos@[0]),
        (
            p.blend_pass.rp.uniform_slot("s_color"@).unwrap(),
            p.blend_pass.rp.uniform_slot("s_occlusion"@).unwrap(),
        ),
        width,
        height,
        p.geometry_pass.t_color,
        p.ssao_pass.t_occlusion,
    )
}

impl Pipeline {
    /// Every stage is well formed.
    pub open spec fn wf(&self) -> bool {
        &&& self.xfb_pass.wf()
        &&& self.geometry_pass.wf()
        &&& self.ssao_pass.wf()
        &&& self.blend_pass.wf()
    }

    /// Puts a fresh context into the state that the stages draw in.
    pub fn prepare<S>(gl: &mut Gl<S>)
        ensures
            final(gl).follows(*old(gl), prepare_commands(), 0),
    {
        gl.issue(GlCommand::Disable(DITHER));
        gl.issue(GlCommand::Disable(BLEND));
        gl.issue(GlCommand::Disable(SCISSOR_TEST));
        gl.issue(GlCommand::Disable(STENCIL_TEST));
        gl.issue(GlCommand::Enable(DEPTH_TEST));
        gl.issue(GlCommand::Enable(CULL_FACE));
        assert(gl.commands@ =~= old(gl).commands@ + prepare_commands::<S>());
    }

    /// Follows a change of the drawing surface to `width` by `height`
    /// pixels: the viewport covers the new surface. The render targets
    /// keep the size they were created with.
    pub fn resize<S>(gl: &mut Gl<S>, width: i32, height: i32)
        ensures
            final(gl).commands@ == old(gl).commands@.push(GlCommand::Viewport { x: 0, y: 0, width, height }),
            final(gl).next_handle == old(gl).next_handle,
            final(gl).width == width,
            final(gl).height == height,
    {
        gl.issue(GlCommand::Viewport { x: 0, y: 0, width, height });
        gl.width = width;
        gl.height = height;
    }

    /// Has the programs of the four stages compiled and linked from their
    /// sources, in the order of the stages.
    pub fn request<S>(gl: &mut Gl<S>, sources: Sources) -> (outcome: Result<Requests, PassError>)
        ensures
            final(gl).continues(*old(gl)),
            match outcome {
                Ok(asked) => requests_failure(u32::MAX - old(gl).next_handle) is None && asked.asked_from(
                    old(gl).next_handle as int,
                ) && final(gl).follows(
                    *old(gl),
                    requests_commands(old(gl).next_handle as int, sources, asked.xfb.declared.xfb_varyings),
                    12,
                ),
                Err(e) => requests_failure(u32::MAX - old(gl).next_handle) == Some(e),
            },
    {
        let ghost first = gl.next_handle as int;
        let xfb = match RenderPass::request(gl, sources.xfb.vertex, sources.xfb.fragment, xfb_declared()) {
            Ok(asked) => asked,
            Err(e) => {
                return Err(e);
            },
        };
        let geometry = match RenderPass::request(
            gl,
            sources.geometry.vertex,
            sources.geometry.fragment,
            geometry_declared(),
        ) {
            Ok(asked) => asked,
            Err(e) => {
                return Err(e);
            },
        };
        let ssao = match RenderPass::request(gl, sources.ssao.vertex, sources.ssao.fragment, ssao_declared()) {
            Ok(asked) => asked,
            Err(e) => {
                return Err(e);
            },
        };
        let blend = match RenderPass::request(gl, sources.blend.vertex, sources.blend.fragment, blend_declared()) {
            Ok(asked) => asked,
            Err(e) => {
                return Err(e);
            },
        };
        assert(gl.commands@ =~= old(gl).commands@ + requests_commands::<S>(
            first,
            sources,
            xfb.declared.xfb_varyings,
        ));
        Ok(Requests { xfb, geometry, ssao, blend })
    }

    /// Sets the four stages up, one after the other, for `n_inst` particles
    /// at the positions `instances`, drawn as spheres of level
    /// `particle_lod` with the positions `vertices` and normals `normals`.
    pub fn new<S: Copy>(
        gl: &mut Gl<S>,
        programs: &Programs,
        instances: Vec<S>,
        n_inst: usize,
        particle_lod: usize,
        vertices: &Vec<[S; 3]>,
        normals: &Vec<[S; 3]>,
    ) -> (outcome: Result<Pipeline, PassError>)
        ensures
            final(gl).continues(*old(gl)),
            match outcome {
                Ok(p) => p.wf() && exists|a: Gl<S>, b: Gl<S>, c: Gl<S>|
                    {
                        &&& #[trigger] p.xfb_pass.set_up(*old(gl), a, programs.xfb, instances, n_inst)
                        &&& #[trigger] p.geometry_pass.set_up(
                            a,
                            b,
                            programs.geometry,
                            p.xfb_pass.buffers@,
                            n_inst,
                            particle_lod,
                            vertices@,
                            normals@,
                        )
                        &&& #[trigger] p.ssao_pass.set_up(b, c, programs.ssao)
                        &&& p.blend_pass.set_up(c, *final(gl), programs.blend)
                    },
                Err(e) => pipeline_failure(
                    *programs,
                    u32::MAX - old(gl).next_handle,
                    instances@.len(),
                    n_inst as nat,
                    particle_lod as nat,
                    vertices@.len(),
                    normals@.len(),
                ) == Some(e),
            },
    {
        let xfb_pass = match XFBPass::new(gl, &programs.xfb, instances, n_inst) {
            Ok(pass) => pass,
            Err(e) => {
                return Err(e);
            },
        };
        let ghost a = *gl;
        let geometry_pass = match GeometryPass::new(
            gl,
            &programs.geometry,
            &xfb_pass.buffers,
            n_inst,
            particle_lod,
            vertices,
            normals,
        ) {
            Ok(pass) => pass,
            Err(e) => {
                return Err(e);
            },
        };
        let ghost b = *gl;
        let ssao_pass = match SSAOPass::new(gl, &programs.ssao) {
            Ok(pass) => pass,
            Err(e) => {
                return Err(e);
            },
        };
        let ghost c = *gl;
        let blend_pass = match BlendPass::new(gl, &programs.blend) {
            Ok(pass) => pass,
            Err(e) => {
                return Err(e);
            },
        };
        let p = Pipeline { xfb_pass, geometry_pass, ssao_pass, blend_pass };
        assert(p.xfb_pass.set_up(*old(gl), a, programs.xfb, instances, n_inst));
        assert(p.geometry_pass.set_up(
            a,
            b,
            programs.geometry,
            p.xfb_pass.buffers@,
            n_inst,
            particle_lod,
            vertices@,
            normals@,
        ));
        assert(p.ssao_pass.set_up(b, c, programs.ssao));
        Ok(p)
    }

    /// One frame: runs the four stages in order. `size` is the size of the
    /// drawing surface as floating-point components.
    pub fn render<S: Copy>(
        &mut self,
        gl: &mut Gl<S>,
        dt: S,
        scale: S,
        lightdir: [S; 3],
        proj: [S; 16],
        view: [S; 16],
        size: (S, S),
    )
        requires
            old(self).wf(),
        ensures
            final(self).wf(),
            final(self).xfb_pass == old(self).xfb_pass.stepped(),
            final(self).geometry_pass == old(self).geometry_pass,
            final(self).ssao_pass == old(self).ssao_pass,
            final(self).blend_pass == old(self).blend_pass,
            final(gl).follows(
                *old(gl),
                frame_commands(
                    *old(self),
                    dt,
                    scale,
                    lightdir,
                    proj,
                    view,
                    size,
                    old(gl).width,
                    old(gl).height,
                ),
                0,
            ),
    {
        let width = gl.drawing_buffer_width();
        let height = gl.drawing_buffer_height();
        self.xfb_pass.render(gl, dt);
        self.geometry_pass.render(gl, self.xfb_pass.read_idx, scale, lightdir, proj, view);
        self.ssao_pass.render(gl, size.0, size.1, self.geometry_pass.t_gdata);
        self.blend_pass.render(gl, width, height, self.geometry_pass.t_color, self.ssao_pass.t_occlusion);
        assert(gl.commands@ =~= old(gl).commands@ + frame_commands(
            *old(self),
            dt,
            scale,
            lightdir,
            proj,
            view,
            size,
            width,
            height,
        ));
    }
}


/// `command` draws or copies pixels.
pub open spec fn is_draw<S>(command: GlCommand<S>) -> bool {
    command is DrawArrays || command is DrawArraysInstanced || command is BlitFramebuffer
}

/// The commands among `commands` that draw or copy pixels, in order.
pub open spec fn draws<S>(commands: Seq<GlCommand<S>>) -> Seq<GlCommand<S>>
    decreases commands.len(),
{
    if commands.len() == 0 {
        Seq::empty()
    } else if is_draw(commands.last()) {
        draws(commands.drop_last()).push(commands.last())
    } else {
        draws(commands.drop_last())
    }
}

/// The draws of two runs of commands, one after the other, are the draws
/// of the first and then those of the second.
pub proof fn lemma_draws_concat<S>(first: Seq<GlCommand<S>>, second: Seq<GlCommand<S>>)
    ensures
        draws(first + second) == draws(first) + draws(second),
    decreases second.len(),
{
    if second.len() == 0 {
        assert(first + second =~= first);
        assert(draws(first) + draws(second) =~= draws(first));
    } else {
        lemma_draws_concat(first, second.drop_last());
        assert((first + second).drop_last() =~= first + second.drop_last());
        assert((first + second).last() == second.last());
        if is_draw(second.last()) {
            assert(draws(first + second) =~= draws(first) + draws(second));
        }
    }
}

/// Commands of which none draws hold no draw.
pub proof fn lemma_draws_none<S>(commands: Seq<GlCommand<S>>)
    requires
        forall|i: int| 0 <= i < commands.len() ==> !is_draw(#[trigger] commands[i]),
    ensures
        draws(commands) == Seq::<GlCommand<S>>::empty(),
    decreases commands.len(),
{
    if commands.len() > 0 {
        let rest = commands.drop_last();
        assert forall|i: int| 0 <= i < rest.len() implies !is_draw(#[trigger] rest[i]) by {
            assert(rest[i] == commands[i]);
        }
        lemma_draws_none(rest);
    }
}

/// Commands of which only the one at `at` draws hold that one draw.
pub proof fn lemma_draws_single<S>(commands: Seq<GlCommand<S>>, at: int)
    requires
        0 <= at < commands.len(),
        is_draw(commands[at]),
        forall|i: int| 0 <= i < commands.len() && i != at ==> !is_draw(#[trigger] commands[i]),
    ensures
        draws(commands) == seq![commands[at]],
{
    let head = commands.take(at);
    let one = seq![commands[at]];
    let tail = commands.skip(at + 1);
    assert(commands =~= head + one + tail);
    assert forall|i: int| 0 <= i < head.len() implies !is_draw(#[trigger] head[i]) by {
        assert(head[i] == commands[i]);
    }
    assert forall|i: int| 0 <= i < tail.len() implies !is_draw(#[trigger] tail[i]) by {
        assert(tail[i] == commands[i + at + 1]);
    }
    lemma_draws_none(head);
    lemma_draws_none(tail);
    lemma_draws_concat(head + one, tail);
    lemma_draws_concat(head, one);
    assert(one.drop_last() =~= Seq::<GlCommand<S>>::empty());
    assert(draws(one.drop_last()) =~= Seq::<GlCommand<S>>::empty());
    assert(draws(one) =~= one);
    assert(draws(commands) =~= one);
}

/// The draws of a frame, in order: the points of the transport step, which
/// are captured and not rasterised; the mesh, once for each instance; the
/// quad of the occlusion pass; the quad of the composite pass; and the copy
/// to the drawing surface.
pub open spec fn frame_draws<S>(
    n_inst_moved: i32,
    n_vert: i32,
    n_inst_drawn: i32,
    width: i32,
    height: i32,
) -> Seq<GlCommand<S>> {
    seq![
        GlCommand::DrawArrays { mode: POINTS, first: 0, count: n_inst_moved },
        GlCommand::DrawArraysInstanced { mode: TRIANGLES, first: 0, count: n_vert, instances: n_inst_drawn },
        GlCommand::DrawArrays { mode: TRIANGLES, first: 0, count: 6 },
        GlCommand::DrawArrays { mode: TRIANGLES, first: 0, count: 6 },
        GlCommand::BlitFramebuffer {
            src: surface(width, height),
            dst: surface(width, height),
            mask: COLOR_BUFFER_BIT,
            filter: NEAREST,
        },
    ]
}

/// A frame draws five times, in the order of its stages: once each for
/// transport, geometry and occlusion, and for the composite a draw
/// followed by the copy to the drawing surface.
pub proof fn lemma_frame_draw_order<S>(
    p: Pipeline,
    dt: S,
    scale: S,
    lightdir: [S; 3],
    proj: [S; 16],
    view: [S; 16],
    size: (S, S),
    width: i32,
    height: i32,
)
    ensures
        draws(frame_commands(p, dt, scale, lightdir, proj, view, size, width, height)) == frame_draws::<S>(
            p.xfb_pass.n_inst as i32,
            p.geometry_pass.particle.n_vert as i32,
            p.geometry_pass.n_inst as i32,
            width,
            height,
        ),
{
    let xfb = xfb_render_commands(
        p.xfb_pass.rp.shader,
        Some(p.xfb_pass.rp.vaos@[p.xfb_pass.read_idx as int]),
        p.xfb_pass.rp.uniform_slot("u_dt"@).unwrap(),
        dt,
        p.xfb_pass.buffers@[p.xfb_pass.write_idx as int].id,
        p.xfb_pass.n_inst as i32,
    );
    let geometry = geometry_render_commands(
        p.geometry_pass.rp.shader,
        Some(p.geometry_pass.rp.fbos@[0]),
        Some(p.geometry_pass.rp.vaos@[p.xfb_pass.write_idx as int]),
        (
            p.geometry_pass.rp.uniform_slot("u_proj"@).unwrap(),
            p.geometry_pass.rp.uniform_slot("u_view"@).unwrap(),
            p.geometry_pass.rp.uniform_slot("u_scale"@).unwrap(),
            p.geometry_pass.rp.uniform_slot("u_lightdir"@).unwrap(),
        ),
        scale,
        lightdir,
        proj,
        view,
        p.geometry_pass.particle.n_vert as i32,
        p.geometry_pass.n_inst as i32,
    );
    let ssao = ssao_render_commands(
        p.ssao_pass.rp.shader,
        Some(p.ssao_pass.rp.fbos@[0]),
        Some(p.ssao_pass.rp.vaos@[0]),
        (
            p.ssao_pass.rp.uniform_slot("s_gdata"@).unwrap(),
            p.ssao_pass.rp.uniform_slot("u_width"@).unwrap(),
            p.ssao_pass.rp.uniform_slot("u_height"@).unwrap(),
        ),
        size.0,
        size.1,
        p.geometry_pass.t_gdata,
    );
    let blend = blend_render_commands::<S>(
        p.blend_pass.rp.shader,
        Some(p.blend_pass.rp.fbos@[0]),
        Some(p.blend_pass.rp.vaos@[0]),
        (
            p.blend_pass.rp.uniform_slot("s_color"@).unwrap(),
            p.blend_pass.rp.uniform_slot("s_occlusion"@).unwrap(),
        ),
        width,
        height,
        p.geometry_pass.t_color,
        p.ssao_pass.t_occlusion,
    );
    assert(xfb.len() == 11);
    assert(is_draw(xfb[7]));
    lemma_draws_single(xfb, 7);
    assert(geometry.len() == 12);
    assert(is_draw(geometry[11]));
    lemma_draws_single(geometry, 11);
    assert(ssao.len() == 10);
    assert(is_draw(ssao[9]));
    lemma_draws_single(ssao, 9);
    assert(blend.len() == 13);
    let drawn = blend.take(12);
    let copy = seq![blend[12]];
    assert(blend =~= drawn + copy);
    assert(is_draw(drawn[10]));
    lemma_draws_single(drawn, 10);
    assert(is_draw(copy[0]));
    lemma_draws_single(copy, 0);
    lemma_draws_concat(drawn, copy);
    lemma_draws_concat(xfb + geometry + ssao, blend);
    lemma_draws_concat(xfb + geometry, ssao);
    lemma_draws_concat(xfb, geometry);
    assert(draws(xfb + geometry + ssao + blend) =~= frame_draws::<S>(
        p.xfb_pass.n_inst as i32,
        p.geometry_pass.particle.n_vert as i32,
        p.geometry_pass.n_inst as i32,
        width,
        height,
    ));
}

} // verus!
