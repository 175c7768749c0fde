use vstd::prelude::*;
use crate::deferred::{active_commands, buffer_alloc_commands, buffer_data_commands, setup_commands, setup_failure};
use crate::deferred::{slot, vao_buffer_commands, GpuBuffer, PassError, ProgramReport, RenderPass};
use crate::deferred::{draw_buffers_commands, fb_renderbuffer_commands, fb_texture_commands, registered};
use crate::deferred::{buffer_whole_commands, uniform_texture_commands, Declared};
use crate::gl::{Gl, GlCommand, Resource};
use crate::gl::{POINTS, RASTERIZER_DISCARD, STREAM_DRAW, TRANSFORM_FEEDBACK_BUFFER};
use crate::gl::{COLOR_ATTACHMENT0, COLOR_ATTACHMENT1, DEPTH_ATTACHMENT, DEPTH_COMPONENT16, DEPTH_TEST};
use crate::gl::{RGBA16F, RGBA8, STATIC_DRAW, TEXTURE0, TEXTURE1, TRIANGLES};
use crate::gl::{COLOR_BUFFER_BIT, DRAW_FRAMEBUFFER, NEAREST, R16F, TEXTURE3};
use crate::icosphere::{geodesic, unrolled, IcoSphere};
use crate::name_table::table_entries;
use vstd::arithmetic::power::pow;

verus! {

/// Bytes of one instance position: three components of four bytes.
pub const VEC3_SZ: usize = 12;

/// The largest number of instances whose positions a buffer can hold.
pub const MAX_INSTANCES: usize = 178956970;

/// The transport stage: moves every particle by one time step on the GPU.
/// Positions are read from one of two buffers and captured into the other;
/// the two change roles after each step.
pub struct XFBPass {
    pub rp: RenderPass,
    pub n_inst: usize,
    pub read_idx: usize,
    pub write_idx: usize,
    pub buffers: Vec<GpuBuffer>,
}

/// The uniform that the transport program declares.
pub open spec fn xfb_uniforms() -> Seq<&'static str> {
    seq!["u_dt"]
}

/// The attribute that the transport program declares.
pub open spec fn xfb_attributes() -> Seq<&'static str> {
    seq!["i_pos"]
}

/// The output of the transport program that is captured.
pub open spec fn xfb_varyings() -> Seq<&'static str> {
    seq!["v_pos"]
}

/// The names that the transport program declares.
pub fn xfb_declared() -> (declared: Declared)
    ensures
        declared.declares(xfb_uniforms(), xfb_attributes(), Seq::empty(), Some(xfb_varyings())),
{
    let uniforms: &'static [&'static str] = &["u_dt"];
    let attributes: &'static [&'static str] = &["i_pos"];
    let outputs: &'static [&'static str] = &[];
    let varyings: &'static [&'static str] = &["v_pos"];
    assert(uniforms@ =~= xfb_uniforms());
    assert(attributes@ =~= xfb_attributes());
    assert(outputs@ =~= Seq::<&'static str>::empty());
    assert(varyings@ =~= xfb_varyings());
    Declared { uniforms, attributes, outputs, xfb_varyings: Some(varyings) }
}

/// What one transport step records: the pass is made current with the
/// vertex array of the buffer read from, the time step is uploaded, and the
/// positions are drawn as points with rasterisation off while the buffer
/// written to captures them.
pub open spec fn xfb_render_commands<S>(
    shader: u32,
    vao: Option<u32>,
    u_dt: u32,
    dt: S,
    target: u32,
    n_inst: i32,
) -> Seq<GlCommand<S>> {
    active_commands(shader, None, vao) + seq![
        GlCommand::Uniform1f { location: u_dt, value: dt },
        GlCommand::BindBufferBase { target: TRANSFORM_FEEDBACK_BUFFER, index: 0, buffer: Some(target) },
        GlCommand::Enable(RASTERIZER_DISCARD),
        GlCommand::BeginTransformFeedback(POINTS),
        GlCommand::DrawArrays { mode: POINTS, first: 0, count: n_inst },
        GlCommand::EndTransformFeedback,
        GlCommand::Disable(RASTERIZER_DISCARD),
        GlCommand::BindBufferBase { target: TRANSFORM_FEEDBACK_BUFFER, index: 0, buffer: None },
    ]
}

/// What setting the transport stage up records, once its program linked
/// and all its objects could be created.
pub open spec fn xfb_setup_commands<S>(
    program: ProgramReport,
    first: int,
    free: int,
    instances: Vec<S>,
    n_inst: usize,
    i_pos: u32,
) -> Seq<GlCommand<S>> {
    setup_commands(program, first, free, 0, 2) + buffer_data_commands((first + 2) as u32, instances, STREAM_DRAW)
        + buffer_alloc_commands((first + 3) as u32, (n_inst * 12) as i32, STREAM_DRAW) + vao_buffer_commands(
        Some(first as u32),
        (first + 2) as u32,
        i_pos,
        3,
        0,
        0,
        false,
        0,
    ) + vao_buffer_commands(Some((first + 1) as u32), (first + 3) as u32, i_pos, 3, 0, 0, false, 0)
}

/// Why setting the transport stage up fails, if it does.
pub open spec fn xfb_failure(
    program: ProgramReport,
    free: int,
    components: nat,
    n_inst: nat,
) -> Option<PassError> {
    if 12 * n_inst > i32::MAX || components != 3 * n_inst {
        Some(PassError::InstanceData)
    } else if setup_failure(program, free, 0, 2, xfb_uniforms(), xfb_attributes(), Seq::empty()) is Some {
        setup_failure(program, free, 0, 2, xfb_uniforms(), xfb_attributes(), Seq::empty())
    } else if free < 4 {
        Some(PassError::Create(Resource::Buffer))
    } else {
        None
    }
}

impl XFBPass {
    /// The stage has its two vertex arrays and its two buffers of equal
    /// length, which are different objects, and one of them is read from
    /// while the other is written to.
    pub open spec fn wf(&self) -> bool {
        &&& self.rp.uniform_slot("u_dt"@) is Some
        &&& self.rp.fbos@.len() == 0
        &&& self.rp.vaos@.len() == 2
        &&& self.buffers@.len() == 2
        &&& self.buffers@[0].id != self.buffers@[1].id
        &&& self.buffers@[0].bytes == 12 * self.n_inst
        &&& self.buffers@[1].bytes == 12 * self.n_inst
        &&& 12 * self.n_inst <= i32::MAX
        &&& self.read_idx < 2
        &&& self.write_idx == 1 - self.read_idx
    }

    /// `self` is the stage that was set up on the context `before`, which
    /// then became `after`.
    pub open spec fn set_up<S>(
        self,
        before: Gl<S>,
        after: Gl<S>,
        program: ProgramReport,
        instances: Vec<S>,
        n_inst: usize,
    ) -> bool {
        &&& xfb_failure(program, u32::MAX - before.next_handle, instances@.len(), n_inst as nat) is None
        &&& self.wf()
        &&& self.n_inst == n_inst
        &&& self.read_idx == 0
        &&& self.write_idx == 1
        &&& self.rp.shader == program.program
        &&& self.rp.vaos@ == seq![before.next_handle, (before.next_handle + 1) as u32]
        &&& self.buffers@[0].id == before.next_handle + 2
        &&& self.buffers@[1].id == before.next_handle + 3
        &&& self.rp.attribute_slot("i_pos"@) is Some
        &&& after.follows(
            before,
            xfb_setup_commands(
                program,
                before.next_handle as int,
                u32::MAX - before.next_handle,
                instances,
                n_inst,
                self.rp.attribute_slot("i_pos"@).unwrap(),
            ),
            4,
        )
    }

    /// Sets the stage up for `n_inst` particles whose first positions are
    /// `instances`, three components each. The first buffer takes the
    /// positions, the second is reserved at the same length, and each is
    /// bound to the position attribute of its own vertex array.
    pub fn new<S>(
        gl: &mut Gl<S>,
        program: &ProgramReport,
        instances: Vec<S>,
        n_inst: usize,
    ) -> (outcome: Result<XFBPass, PassError>)
        ensures
            final(gl).continues(*old(gl)),
            match outcome {
                Ok(pass) => pass.set_up(*old(gl), *final(gl), *program, instances, n_inst),
                Err(e) => xfb_failure(
                    *program,
                    u32::MAX - old(gl).next_handle,
                    instances@.len(),
                    n_inst as nat,
                ) == Some(e),
            },
    {
        if n_inst > MAX_INSTANCES || instances.len() != 3 * n_inst {
            return Err(PassError::InstanceData);
        }
        let ghost first = gl.next_handle as int;
        let ghost free = u32::MAX - gl.next_handle;
        let declared = xfb_declared();
        let rp = match RenderPass::new(gl, program, 0, 2, Some(declared.uniforms), Some(declared.attributes), None) {
            Ok(rp) => rp,
            Err(e) => {
                return Err(e);
            },
        };
        let ghost setup = gl.commands@;
        assert(xfb_uniforms()[0]@ == "u_dt"@);
        assert(xfb_attributes()[0]@ == "i_pos"@);
        assert(rp.vaos@ =~= seq![first as u32, (first + 1) as u32]);
        let buf1 = match rp.buffer_data(gl, instances, STREAM_DRAW) {
            Ok(buffer) => buffer,
            Err(e) => {
                return Err(e);
            },
        };
        let buf2 = match rp.buffer_alloc(gl, (n_inst * VEC3_SZ) as i32, STREAM_DRAW) {
            Ok(buffer) => buffer,
            Err(e) => {
                return Err(e);
            },
        };
        rp.vao_buffer(gl, 0, &buf1, "i_pos", 3, 0, 0, false, 0);
        rp.vao_buffer(gl, 1, &buf2, "i_pos", 3, 0, 0, false, 0);
        let mut buffers: Vec<GpuBuffer> = Vec::new();
        buffers.push(buf1);
        buffers.push(buf2);
        assert(gl.commands@ =~= old(gl).commands@ + xfb_setup_commands(
            *program,
            first,
            free,
            instances,
            n_inst,
            rp.attribute_slot("i_pos"@).unwrap(),
        ));
        Ok(XFBPass { rp, n_inst, read_idx: 0, write_idx: 1, buffers })
    }

    /// One transport step, of `dt` seconds: reads the positions from the
    /// buffer at `read_idx`, captures the new ones into the buffer at
    /// `write_idx`, and swaps the two roles for the next step.
    pub fn render<S>(&mut self, gl: &mut Gl<S>, dt: S)
        requires
            old(self).wf(),
        ensures
            final(self).wf(),
            final(self).read_idx == old(self).write_idx,
            final(self).write_idx == old(self).read_idx,
            final(self).rp == old(self).rp,
            final(self).n_inst == old(self).n_inst,
            final(self).buffers == old(self).buffers,
            final(gl).follows(
                *old(gl),
                xfb_render_commands(
                    old(self).rp.shader,
                    Some(old(self).rp.vaos@[old(self).read_idx as int]),
                    old(self).rp.uniform_slot("u_dt"@).unwrap(),
                    dt,
                    old(self).buffers@[old(self).write_idx as int].id,
                    old(self).n_inst as i32,
                ),
                0,
            ),
    {
        self.rp.active(gl, 0, self.read_idx);
        self.rp.uniform_float(gl, "u_dt", dt);
        let target = self.buffers[self.write_idx].id;
        gl.issue(GlCommand::BindBufferBase { target: TRANSFORM_FEEDBACK_BUFFER, index: 0, buffer: Some(target) });
        gl.issue(GlCommand::Enable(RASTERIZER_DISCARD));
        gl.issue(GlCommand::BeginTransformFeedback(POINTS));
        gl.issue(GlCommand::DrawArrays { mode: POINTS, first: 0, count: self.n_inst as i32 });
        gl.issue(GlCommand::EndTransformFeedback);
        gl.issue(GlCommand::Disable(RASTERIZER_DISCARD));
        gl.issue(GlCommand::BindBufferBase { target: TRANSFORM_FEEDBACK_BUFFER, index: 0, buffer: None });
        assert(gl.commands@ =~= old(gl).commands@ + xfb_render_commands(
            self.rp.shader,
            Some(self.rp.vaos@[self.read_idx as int]),
            self.rp.uniform_slot("u_dt"@).unwrap(),
            dt,
            target,
            self.n_inst as i32,
        ));
        let read = self.read_idx;
        self.read_idx = self.write_idx;
        self.write_idx = read;
    }
}


impl XFBPass {
    /// The stage after one step: the two buffers have changed roles.
    pub open spec fn stepped(self) -> XFBPass {
        XFBPass { read_idx: self.write_idx, write_idx: self.read_idx, ..self }
    }
}

/// The two buffers of the transport stage are of one length and are never
/// the same object; a step keeps the stage well formed, and two steps give
/// each buffer its first role back.
pub proof fn lemma_transport_round_trip(pass: XFBPass)
    requires
        pass.wf(),
    ensures
        pass.buffers@[pass.read_idx as int].bytes == pass.buffers@[pass.write_idx as int].bytes,
        pass.buffers@[pass.read_idx as int].id != pass.buffers@[pass.write_idx as int].id,
        pass.stepped().wf(),
        pass.stepped().read_idx != pass.read_idx,
        pass.stepped().stepped() == pass,
{
}

/// The largest level of subdivision whose unrolled mesh can be addressed.
pub const MAX_LOD: usize = 10;

/// Up to the tenth, the powers of four stay below 2^20.
pub proof fn lemma_pow4_small(k: nat)
    requires
        k <= 10,
    ensures
        1 <= pow(4, k) <= 1048576,
{
    vstd::arithmetic::power::lemma_pow_positive(4, k);
    vstd::arithmetic::power::lemma_pow_increases(4, k, 10);
    reveal_with_fuel(pow, 11);
    assert(pow(4, 10) == 1048576);
}

/// The geometry stage: draws the particle mesh once for each instance into
/// a colour target and a target of packed view-space data.
pub struct GeometryPass {
    pub rp: RenderPass,
    pub n_inst: usize,
    pub particle: IcoSphere,
    pub t_color: u32,
    pub t_gdata: u32,
}

/// The uniforms that the geometry program declares.
pub open spec fn geometry_uniforms() -> Seq<&'static str> {
    seq!["u_proj", "u_view", "u_scale", "u_lightdir"]
}

/// The attributes that the geometry program declares.
pub open spec fn geometry_attributes() -> Seq<&'static str> {
    seq!["i_pos", "a_pos", "a_normal"]
}

/// The fragment outputs that the geometry program declares, in the order
/// of their colour attachments.
pub open spec fn geometry_outputs() -> Seq<&'static str> {
    seq!["o_color", "o_gdata"]
}

/// The names that the geometry program declares.
pub fn geometry_declared() -> (declared: Declared)
    ensures
        declared.declares(geometry_uniforms(), geometry_attributes(), geometry_outputs(), None),
{
    let uniforms: &'static [&'static str] = &["u_proj", "u_view", "u_scale", "u_lightdir"];
    let attributes: &'static [&'static str] = &["i_pos", "a_pos", "a_normal"];
    let outputs: &'static [&'static str] = &["o_color", "o_gdata"];
    assert(uniforms@ =~= geometry_uniforms());
    assert(attributes@ =~= geometry_attributes());
    assert(outputs@ =~= geometry_outputs());
    Declared { uniforms, attributes, outputs, xfb_varyings: None }
}

/// What binding the three attributes of one vertex array records: the
/// instance positions, advancing once an instance, then the positions and
/// the normals of the mesh, advancing with each vertex.
pub open spec fn geometry_vao_commands<S>(
    vao: Option<u32>,
    inst: u32,
    buf_g: u32,
    buf_n: u32,
    i_pos: u32,
    a_pos: u32,
    a_normal: u32,
) -> Seq<GlCommand<S>> {
    vao_buffer_commands(vao, inst, i_pos, 3, 0, 0, false, 1) + vao_buffer_commands(
        vao,
        buf_g,
        a_pos,
        3,
        0,
        0,
        false,
        0,
    ) + vao_buffer_commands(vao, buf_n, a_normal, 3, 0, 0, true, 0)
}

/// What setting the geometry stage up records, once its program linked and
/// all its objects could be created.
pub open spec fn geometry_setup_commands<S>(
    program: ProgramReport,
    first: int,
    free: int,
    inst: (u32, u32),
    verts: Vec<S>,
    norms: Vec<S>,
    targets: Vec<u32>,
    slots: (u32, u32, u32),
    width: i32,
    height: i32,
) -> Seq<GlCommand<S>> {
    let fbo = Some(first as u32);
    let buf_g = (first + 3) as u32;
    let buf_n = (first + 4) as u32;
    setup_commands(program, first, free, 1, 2) + buffer_data_commands(buf_g, verts, STATIC_DRAW)
        + buffer_data_commands(buf_n, norms, STATIC_DRAW) + geometry_vao_commands(
        Some((first + 1) as u32),
        inst.0,
        buf_g,
        buf_n,
        slots.0,
        slots.1,
        slots.2,
    ) + geometry_vao_commands(Some((first + 2) as u32), inst.1, buf_g, buf_n, slots.0, slots.1, slots.2)
        + fb_renderbuffer_commands(
        fbo,
        (first + 5) as u32,
        0,
        DEPTH_COMPONENT16,
        DEPTH_ATTACHMENT,
        width,
        height,
    ) + fb_texture_commands(fbo, (first + 6) as u32, TEXTURE0, RGBA8, COLOR_ATTACHMENT0, width, height)
        + fb_texture_commands(fbo, (first + 7) as u32, TEXTURE1, RGBA16F, COLOR_ATTACHMENT1, width, height)
        + draw_buffers_commands(fbo, targets)
}

/// Why setting the geometry stage up fails, if it does.
pub open spec fn geometry_failure(
    program: ProgramReport,
    free: int,
    n_inst: nat,
    lod: nat,
    n_vertices: nat,
    n_normals: nat,
) -> Option<PassError> {
    if n_inst > i32::MAX {
        Some(PassError::InstanceData)
    } else if lod > 10 || n_vertices != geodesic(lod).parents.len() || n_normals != geodesic(lod).parents.len() {
        Some(PassError::MeshData)
    } else if setup_failure(program, free, 1, 2, geometry_uniforms(), geometry_attributes(), geometry_outputs())
        is Some {
        setup_failure(program, free, 1, 2, geometry_uniforms(), geometry_attributes(), geometry_outputs())
    } else if free < 5 {
        Some(PassError::Create(Resource::Buffer))
    } else if free < 6 {
        Some(PassError::Create(Resource::Renderbuffer))
    } else if free < 8 {
        Some(PassError::Create(Resource::Texture))
    } else {
        None
    }
}

/// What drawing the particles records: the pass is made current with the
/// vertex array of the buffer that holds the current positions, the
/// uniforms are uploaded, the two colour targets are cleared to white and
/// to opaque black and depth to the far plane, and the mesh is drawn once
/// for each instance.
pub open spec fn geometry_render_commands<S>(
    shader: u32,
    fbo: Option<u32>,
    vao: Option<u32>,
    slots: (u32, u32, u32, u32),
    scale: S,
    lightdir: [S; 3],
    proj: [S; 16],
    view: [S; 16],
    n_vert: i32,
    n_inst: i32,
) -> Seq<GlCommand<S>> {
    active_commands(shader, fbo, vao) + seq![
        GlCommand::Uniform1f { location: slots.2, value: scale },
        GlCommand::Uniform3fv { location: slots.3, value: lightdir },
        GlCommand::UniformMatrix4fv { location: slots.0, transpose: false, value: proj },
        GlCommand::UniformMatrix4fv { location: slots.1, transpose: false, value: view },
        GlCommand::Enable(DEPTH_TEST),
        GlCommand::ClearColor { drawbuffer: 0, rgba: WHITE },
        GlCommand::ClearColor { drawbuffer: 1, rgba: BLACK },
        GlCommand::ClearDepthStencil { depth: 1, stencil: 0 },
        GlCommand::DrawArraysInstanced { mode: TRIANGLES, first: 0, count: n_vert, instances: n_inst },
    ]
}

/// The colour that the colour target is cleared to.
pub const WHITE: [i32; 4] = [1, 1, 1, 1];

/// The value that the target of packed data is cleared to.
pub const BLACK: [i32; 4] = [0, 0, 0, 1];

/// The table of the two fragment outputs holds two names.
proof fn lemma_two_outputs(table: Map<Seq<char>, u32>, answers: Seq<(String, i32)>)
    requires
        registered(table, geometry_outputs(), answers),
    ensures
        table.dom().len() == 2,
{
    reveal_strlit("o_color");
    reveal_strlit("o_gdata");
    let names = geometry_outputs();
    assert(names[0]@ == "o_color"@);
    assert(names[1]@ == "o_gdata"@);
    assert("o_color"@[2] != "o_gdata"@[2]);
    assert(table.contains_key(names[0]@));
    assert(table.contains_key(names[1]@));
    assert(table.dom() =~= set!["o_color"@, "o_gdata"@]) by {
        assert forall|name: Seq<char>| table.dom().contains(name) implies set!["o_color"@, "o_gdata"@].contains(
            name,
        ) by {
            let i = choose|i: int| 0 <= i < names.len() && (#[trigger] names[i])@ == name;
            assert(i == 0 || i == 1);
        }
    }
}

impl GeometryPass {
    /// The stage has its framebuffer and two vertex arrays, its program
    /// declares the four uniforms, and the counts of the draw fit.
    pub open spec fn wf(&self) -> bool {
        &&& self.rp.uniform_slot("u_proj"@) is Some
        &&& self.rp.uniform_slot("u_view"@) is Some
        &&& self.rp.uniform_slot("u_scale"@) is Some
        &&& self.rp.uniform_slot("u_lightdir"@) is Some
        &&& self.rp.fbos@.len() == 1
        &&& self.rp.vaos@.len() == 2
        &&& self.particle.wf()
        &&& self.particle.n_vert <= i32::MAX
        &&& self.n_inst <= i32::MAX
    }

    /// `self` is the stage that was set up on the context `before`, which
    /// then became `after`.
    pub open spec fn set_up<S>(
        self,
        before: Gl<S>,
        after: Gl<S>,
        program: ProgramReport,
        buf_i: Seq<GpuBuffer>,
        n_inst: usize,
        particle_lod: usize,
        vertices: Seq<[S; 3]>,
        normals: Seq<[S; 3]>,
    ) -> bool {
        &&& geometry_failure(
            program,
            u32::MAX - before.next_handle,
            n_inst as nat,
            particle_lod as nat,
            vertices.len(),
            normals.len(),
        ) is None
        &&& self.wf()
        &&& self.n_inst == n_inst
        &&& self.particle.subdiv == particle_lod
        &&& self.rp.shader == program.program
        &&& self.rp.fbos@ == seq![before.next_handle]
        &&& self.rp.vaos@ == seq![(before.next_handle + 1) as u32, (before.next_handle + 2) as u32]
        &&& self.t_color == before.next_handle + 6
        &&& self.t_gdata == before.next_handle + 7
        &&& self.rp.attribute_slot("i_pos"@) is Some
        &&& self.rp.attribute_slot("a_pos"@) is Some
        &&& self.rp.attribute_slot("a_normal"@) is Some
        &&& exists|verts: Vec<S>, norms: Vec<S>, targets: Vec<u32>|
            {
                &&& verts@ == unrolled(self.particle@.faces, vertices)
                &&& norms@ == unrolled(self.particle@.faces, normals)
                &&& targets@ == seq![COLOR_ATTACHMENT0, COLOR_ATTACHMENT1]
                &&& after.follows(
                    before,
                    #[trigger] geometry_setup_commands(
                        program,
                        before.next_handle as int,
                        u32::MAX - before.next_handle,
                        (buf_i[0].id, buf_i[1].id),
                        verts,
                        norms,
                        targets,
                        (
                            self.rp.attribute_slot("i_pos"@).unwrap(),
                            self.rp.attribute_slot("a_pos"@).unwrap(),
                            self.rp.attribute_slot("a_normal"@).unwrap(),
                        ),
                        before.width,
                        before.height,
                    ),
                    8,
                )
            }
    }

    /// Binds the three attributes of vertex array `vao`.
    fn bind_arrays<S>(
        rp: &RenderPass,
        gl: &mut Gl<S>,
        vao: usize,
        inst: &GpuBuffer,
        buf_g: &GpuBuffer,
        buf_n: &GpuBuffer,
    )
        requires
            rp.attribute_slot("i_pos"@) is Some,
            rp.attribute_slot("a_pos"@) is Some,
            rp.attribute_slot("a_normal"@) is Some,
        ensures
            final(gl).follows(
                *old(gl),
                geometry_vao_commands(
                    slot(rp.vaos@, vao as int),
                    inst.id,
                    buf_g.id,
                    buf_n.id,
                    rp.attribute_slot("i_pos"@).unwrap(),
                    rp.attribute_slot("a_pos"@).unwrap(),
                    rp.attribute_slot("a_normal"@).unwrap(),
                ),
                0,
            ),
    {
        rp.vao_buffer(gl, vao, inst, "i_pos", 3, 0, 0, false, 1);
        rp.vao_buffer(gl, vao, buf_g, "a_pos", 3, 0, 0, false, 0);
        rp.vao_buffer(gl, vao, buf_n, "a_normal", 3, 0, 0, true, 0);
        assert(gl.commands@ =~= old(gl).commands@ + geometry_vao_commands::<S>(
            slot(rp.vaos@, vao as int),
            inst.id,
            buf_g.id,
            buf_n.id,
            rp.attribute_slot("i_pos"@).unwrap(),
            rp.attribute_slot("a_pos"@).unwrap(),
            rp.attribute_slot("a_normal"@).unwrap(),
        ));
    }

    /// Sets the stage up for `n_inst` instances of the sphere of level
    /// `particle_lod`, whose vertices have the positions `vertices` and the
    /// normals `normals`. Both are unrolled, uploaded, and bound next to
    /// the two position buffers `buf_i` of the transport stage, each in its
    /// own vertex array; the framebuffer gets a depth buffer and the two
    /// colour targets.
    pub fn new<S: Copy>(
        gl: &mut Gl<S>,
        program: &ProgramReport,
        buf_i: &Vec<GpuBuffer>,
        n_inst: usize,
        particle_lod: usize,
        vertices: &Vec<[S; 3]>,
        normals: &Vec<[S; 3]>,
    ) -> (outcome: Result<GeometryPass, PassError>)
        requires
            buf_i@.len() >= 2,
        ensures
            final(gl).continues(*old(gl)),
            match outcome {
                Ok(pass) => pass.set_up(
                    *old(gl),
                    *final(gl),
                    *program,
                    buf_i@,
                    n_inst,
                    particle_lod,
                    vertices@,
                    normals@,
                ),
                Err(e) => geometry_failure(
                    *program,
                    u32::MAX - old(gl).next_handle,
                    n_inst as nat,
                    particle_lod as nat,
                    vertices@.len(),
                    normals@.len(),
                ) == Some(e),
            },
    {
        if n_inst > 0x7fff_ffff {
            return Err(PassError::InstanceData);
        }
        if particle_lod > MAX_LOD {
            return Err(PassError::MeshData);
        }
        proof {
            lemma_pow4_small(particle_lod as nat);
            assert(usize::MAX >= 0xffff_ffff);
            crate::icosphere::lemma_geodesic_shape(particle_lod as nat);
        }
        let particle = IcoSphere::new(particle_lod);
        if vertices.len() != particle.vertex_count() || normals.len() != particle.vertex_count() {
            return Err(PassError::MeshData);
        }
        let ghost first = gl.next_handle as int;
        let ghost free = u32::MAX - gl.next_handle;
        let declared = geometry_declared();
        let rp = match RenderPass::new(
            gl,
            program,
            1,
            2,
            Some(declared.uniforms),
            Some(declared.attributes),
            Some(declared.outputs),
        ) {
            Ok(rp) => rp,
            Err(e) => {
                return Err(e);
            },
        };
        proof {
            assert(geometry_uniforms()[0]@ == "u_proj"@);
            assert(geometry_uniforms()[1]@ == "u_view"@);
            assert(geometry_uniforms()[2]@ == "u_scale"@);
            assert(geometry_uniforms()[3]@ == "u_lightdir"@);
            assert(geometry_attributes()[0]@ == "i_pos"@);
            assert(geometry_attributes()[1]@ == "a_pos"@);
            assert(geometry_attributes()[2]@ == "a_normal"@);
            assert(rp.fbos@ =~= seq![first as u32]);
            assert(rp.vaos@ =~= seq![(first + 1) as u32, (first + 2) as u32]);
            lemma_two_outputs(table_entries(rp.draw_buffers), program.outputs@);
        }
        let verts = particle.vertex_buf(vertices);
        let norms = particle.normal_buf(normals);
        let ghost verts_sent = verts;
        let ghost norms_sent = norms;
        let buf_g = match rp.buffer_data(gl, verts, STATIC_DRAW) {
            Ok(buffer) => buffer,
            Err(e) => {
                return Err(e);
            },
        };
        let buf_n = match rp.buffer_data(gl, norms, STATIC_DRAW) {
            Ok(buffer) => buffer,
            Err(e) => {
                return Err(e);
            },
        };
        GeometryPass::bind_arrays(&rp, gl, 0, &buf_i[0], &buf_g, &buf_n);
        GeometryPass::bind_arrays(&rp, gl, 1, &buf_i[1], &buf_g, &buf_n);
        match rp.fb_renderbuffer(gl, 0, 0, DEPTH_COMPONENT16, DEPTH_ATTACHMENT) {
            Ok(done) => {},
            Err(e) => {
                return Err(e);
            },
        }
        let t_color = match rp.fb_texture(gl, 0, TEXTURE0, RGBA8, COLOR_ATTACHMENT0) {
            Ok(texture) => texture,
            Err(e) => {
                return Err(e);
            },
        };
        let t_gdata = match rp.fb_texture(gl, 0, TEXTURE1, RGBA16F, COLOR_ATTACHMENT1) {
            Ok(texture) => texture,
            Err(e) => {
                return Err(e);
            },
        };
        let ghost before_targets = gl.commands@;
        let attachments: [u32; 2] = [COLOR_ATTACHMENT0, COLOR_ATTACHMENT1];
        rp.set_draw_buffers(gl, 0, attachments.as_slice());
        proof {
            let targets = choose|list: Vec<u32>|
                list@ == attachments@.take(2) && gl.commands@ == before_targets + #[trigger] draw_buffers_commands::<
                    S,
                >(slot(rp.fbos@, 0), list);
            assert(targets@ =~= seq![COLOR_ATTACHMENT0, COLOR_ATTACHMENT1]);
            let all = geometry_setup_commands(
                *program,
                first,
                free,
                (buf_i@[0].id, buf_i@[1].id),
                verts_sent,
                norms_sent,
                targets,
                (
                    rp.attribute_slot("i_pos"@).unwrap(),
                    rp.attribute_slot("a_pos"@).unwrap(),
                    rp.attribute_slot("a_normal"@).unwrap(),
                ),
                gl.width,
                gl.height,
            );
            assert(gl.commands@ =~= old(gl).commands@ + all);
        }
        Ok(GeometryPass { rp, n_inst, particle, t_color, t_gdata })
    }

    /// Draws the particles from the position buffer at `read_idx`, the one
    /// that the transport stage wrote last.
    pub fn render<S>(
        &self,
        gl: &mut Gl<S>,
        read_idx: usize,
        scale: S,
        lightdir: [S; 3],
        proj: [S; 16],
        view: [S; 16],
    )
        requires
            self.wf(),
        ensures
            final(gl).follows(
                *old(gl),
                geometry_render_commands(
                    self.rp.shader,
                    Some(self.rp.fbos@[0]),
                    slot(self.rp.vaos@, read_idx as int),
                    (
                        self.rp.uniform_slot("u_proj"@).unwrap(),
                        self.rp.uniform_slot("u_view"@).unwrap(),
                        self.rp.uniform_slot("u_scale"@).unwrap(),
                        self.rp.uniform_slot("u_lightdir"@).unwrap(),
                    ),
                    scale,
                    lightdir,
                    proj,
                    view,
                    self.particle.n_vert as i32,
                    self.n_inst as i32,
                ),
                0,
            ),
    {
        self.rp.active(gl, 0, read_idx);
        self.rp.uniform_float(gl, "u_scale", scale);
        self.rp.uniform_vec3(gl, "u_lightdir", lightdir);
        self.rp.uniform_mat4(gl, "u_proj", proj);
        self.rp.uniform_mat4(gl, "u_view", view);
        gl.issue(GlCommand::Enable(DEPTH_TEST));
        gl.issue(GlCommand::ClearColor { drawbuffer: 0, rgba: WHITE });
        gl.issue(GlCommand::ClearColor { drawbuffer: 1, rgba: BLACK });
        gl.issue(GlCommand::ClearDepthStencil { depth: 1, stencil: 0 });
        gl.issue(
            GlCommand::DrawArraysInstanced {
                mode: TRIANGLES,
                first: 0,
                count: self.particle.n_vert as i32,
                instances: self.n_inst as i32,
            },
        );
        assert(gl.commands@ =~= old(gl).commands@ + geometry_render_commands(
            self.rp.shader,
            Some(self.rp.fbos@[0]),
            slot(self.rp.vaos@, read_idx as int),
            (
                self.rp.uniform_slot("u_proj"@).unwrap(),
                self.rp.uniform_slot("u_view"@).unwrap(),
                self.rp.uniform_slot("u_scale"@).unwrap(),
                self.rp.uniform_slot("u_lightdir"@).unwrap(),
            ),
            scale,
            lightdir,
            proj,
            view,
            self.particle.n_vert as i32,
            self.n_inst as i32,
        ));
    }
}


/// The corners of two triangles that cover the viewport, two components
/// each.
pub const QUAD: [i32; 12] = [-1, 1, -1, -1, 1, -1, -1, 1, 1, -1, 1, 1];

/// The corners of the full-screen quad as a vector.
fn quad() -> (corners: Vec<i32>)
    ensures
        corners@ == QUAD@,
{
    let mut corners: Vec<i32> = Vec::new();
    let mut i: usize = 0;
    while i < 12
        invariant
            i <= 12,
            corners@.len() == i,
            forall|k: int| 0 <= k < i ==> corners@[k] == QUAD@[k],
        decreases 12 - i,
    {
        corners.push(QUAD[i]);
        i += 1;
    }
    assert(corners@ =~= QUAD@);
    corners
}

/// The occlusion stage: a full-screen pass that reads the packed data of
/// the geometry stage and writes one occlusion value a pixel.
pub struct SSAOPass {
    pub rp: RenderPass,
    pub t_occlusion: u32,
}

/// The uniforms that the occlusion program declares.
pub open spec fn ssao_uniforms() -> Seq<&'static str> {
    seq!["s_gdata", "u_width", "u_height"]
}

/// The attribute that the programs of the two full-screen passes declare.
pub open spec fn quad_attributes() -> Seq<&'static str> {
    seq!["a_pos"]
}

/// The fragment output that the occlusion program declares.
pub open spec fn ssao_outputs() -> Seq<&'static str> {
    seq!["o_occlusion"]
}

/// The names that the occlusion program declares.
pub fn ssao_declared() -> (declared: Declared)
    ensures
        declared.declares(ssao_uniforms(), quad_attributes(), ssao_outputs(), None),
{
    let uniforms: &'static [&'static str] = &["s_gdata", "u_width", "u_height"];
    let attributes: &'static [&'static str] = &["a_pos"];
    let outputs: &'static [&'static str] = &["o_occlusion"];
    assert(uniforms@ =~= ssao_uniforms());
    assert(attributes@ =~= quad_attributes());
    assert(outputs@ =~= ssao_outputs());
    Declared { uniforms, attributes, outputs, xfb_varyings: None }
}

/// What setting the occlusion stage up records, once its program linked
/// and all its objects could be created.
pub open spec fn ssao_setup_commands<S>(
    program: ProgramReport,
    first: int,
    free: int,
    corners: Vec<i32>,
    a_pos: u32,
    width: i32,
    height: i32,
) -> Seq<GlCommand<S>> {
    setup_commands(program, first, free, 1, 1) + buffer_whole_commands((first + 2) as u32, corners, STATIC_DRAW)
        + vao_buffer_commands(Some((first + 1) as u32), (first + 2) as u32, a_pos, 2, 0, 0, false, 0)
        + fb_texture_commands(
        Some(first as u32),
        (first + 3) as u32,
        TEXTURE3,
        R16F,
        COLOR_ATTACHMENT0,
        width,
        height,
    )
}

/// Why setting the occlusion stage up fails, if it does.
pub open spec fn ssao_failure(program: ProgramReport, free: int) -> Option<PassError> {
    if setup_failure(program, free, 1, 1, ssao_uniforms(), quad_attributes(), ssao_outputs()) is Some {
        setup_failure(program, free, 1, 1, ssao_uniforms(), quad_attributes(), ssao_outputs())
    } else if free < 3 {
        Some(PassError::Create(Resource::Buffer))
    } else if free < 4 {
        Some(PassError::Create(Resource::Texture))
    } else {
        None
    }
}

/// What the occlusion pass records: the pass is made current, the packed
/// data is bound to its sampler, the size of the surface is uploaded, and
/// the quad is drawn without depth test.
pub open spec fn ssao_render_commands<S>(
    shader: u32,
    fbo: Option<u32>,
    vao: Option<u32>,
    slots: (u32, u32, u32),
    width: S,
    height: S,
    t_gdata: u32,
) -> Seq<GlCommand<S>> {
    active_commands(shader, fbo, vao) + uniform_texture_commands(slots.0, t_gdata, TEXTURE1) + seq![
        GlCommand::Uniform1f { location: slots.1, value: width },
        GlCommand::Uniform1f { location: slots.2, value: height },
        GlCommand::Disable(DEPTH_TEST),
        GlCommand::DrawArrays { mode: TRIANGLES, first: 0, count: 6 },
    ]
}

impl SSAOPass {
    /// The stage has its framebuffer and vertex array, and its program
    /// declares the three uniforms.
    pub open spec fn wf(&self) -> bool {
        &&& self.rp.uniform_slot("s_gdata"@) is Some
        &&& self.rp.uniform_slot("u_width"@) is Some
        &&& self.rp.uniform_slot("u_height"@) is Some
        &&& self.rp.fbos@.len() == 1
        &&& self.rp.vaos@.len() == 1
    }

    /// `self` is the stage that was set up on the context `before`, which
    /// then became `after`.
    pub open spec fn set_up<S>(self, before: Gl<S>, after: Gl<S>, program: ProgramReport) -> bool {
        &&& ssao_failure(program, u32::MAX - before.next_handle) is None
        &&& self.wf()
        &&& self.rp.shader == program.program
        &&& self.rp.fbos@ == seq![before.next_handle]
        &&& self.rp.vaos@ == seq![(before.next_handle + 1) as u32]
        &&& self.t_occlusion == before.next_handle + 3
        &&& self.rp.attribute_slot("a_pos"@) is Some
        &&& exists|corners: Vec<i32>|
            corners@ == QUAD@ && after.follows(
                before,
                #[trigger] ssao_setup_commands(
                    program,
                    before.next_handle as int,
                    u32::MAX - before.next_handle,
                    corners,
                    self.rp.attribute_slot("a_pos"@).unwrap(),
                    before.width,
                    before.height,
                ),
                4,
            )
    }

    /// Sets the stage up: the quad is uploaded and bound, and the
    /// framebuffer gets the occlusion target.
    pub fn new<S>(gl: &mut Gl<S>, program: &ProgramReport) -> (outcome: Result<SSAOPass, PassError>)
        ensures
            final(gl).continues(*old(gl)),
            match outcome {
                Ok(pass) => pass.set_up(*old(gl), *final(gl), *program),
                Err(e) => ssao_failure(*program, u32::MAX - old(gl).next_handle) == Some(e),
            },
    {
        let ghost first = gl.next_handle as int;
        let ghost free = u32::MAX - gl.next_handle;
        let declared = ssao_declared();
        let rp = match RenderPass::new(
            gl,
            program,
            1,
            1,
            Some(declared.uniforms),
            Some(declared.attributes),
            Some(declared.outputs),
        ) {
            Ok(rp) => rp,
            Err(e) => {
                return Err(e);
            },
        };
        proof {
            assert(ssao_uniforms()[0]@ == "s_gdata"@);
            assert(ssao_uniforms()[1]@ == "u_width"@);
            assert(ssao_uniforms()[2]@ == "u_height"@);
            assert(quad_attributes()[0]@ == "a_pos"@);
            assert(rp.fbos@ =~= seq![first as u32]);
            assert(rp.vaos@ =~= seq![(first + 1) as u32]);
        }
        let corners = quad();
        let ghost sent = corners;
        let buf_g = match rp.buffer_data_whole(gl, corners, STATIC_DRAW) {
            Ok(buffer) => buffer,
            Err(e) => {
                return Err(e);
            },
        };
        rp.vao_buffer(gl, 0, &buf_g, "a_pos", 2, 0, 0, false, 0);
        let t_occlusion = match rp.fb_texture(gl, 0, TEXTURE3, R16F, COLOR_ATTACHMENT0) {
            Ok(texture) => texture,
            Err(e) => {
                return Err(e);
            },
        };
        assert(gl.commands@ =~= old(gl).commands@ + ssao_setup_commands::<S>(
            *program,
            first,
            free,
            sent,
            rp.attribute_slot("a_pos"@).unwrap(),
            gl.width,
            gl.height,
        ));
        Ok(SSAOPass { rp, t_occlusion })
    }

    /// Computes the occlusion from the packed data in `t_gdata`, for a
    /// surface of `width` by `height` pixels.
    pub fn render<S>(&self, gl: &mut Gl<S>, width: S, height: S, t_gdata: u32)
        requires
            self.wf(),
        ensures
            final(gl).follows(
                *old(gl),
                ssao_render_commands(
                    self.rp.shader,
                    Some(self.rp.fbos@[0]),
                    Some(self.rp.vaos@[0]),
                    (
                        self.rp.uniform_slot("s_gdata"@).unwrap(),
                        self.rp.uniform_slot("u_width"@).unwrap(),
                        self.rp.uniform_slot("u_height"@).unwrap(),
                    ),
                    width,
                    height,
                    t_gdata,
                ),
                0,
            ),
    {
        self.rp.active(gl, 0, 0);
        self.rp.uniform_texture(gl, "s_gdata", t_gdata, TEXTURE1);
        self.rp.uniform_float(gl, "u_width", width);
        self.rp.uniform_float(gl, "u_height", height);
        gl.issue(GlCommand::Disable(DEPTH_TEST));
        gl.issue(GlCommand::DrawArrays { mode: TRIANGLES, first: 0, count: 6 });
        assert(gl.commands@ =~= old(gl).commands@ + ssao_render_commands(
            self.rp.shader,
            Some(self.rp.fbos@[0]),
            Some(self.rp.vaos@[0]),
            (
                self.rp.uniform_slot("s_gdata"@).unwrap(),
                self.rp.uniform_slot("u_width"@).unwrap(),
                self.rp.uniform_slot("u_height"@).unwrap(),
            ),
            width,
            height,
            t_gdata,
        ));
    }
}

/// The composite stage: a full-screen pass that blends colour and
/// occlusion and copies the result to the drawing surface.
pub struct BlendPass {
    pub rp: RenderPass,
}

/// The uniforms that the composite program declares.
pub open spec fn blend_uniforms() -> Seq<&'static str> {
    seq!["s_color", "s_occlusion"]
}

/// The fragment output that the composite program declares.
pub open spec fn blend_outputs() -> Seq<&'static str> {
    seq!["o_color"]
}

/// The names that the composite program declares.
pub fn blend_declared() -> (declared: Declared)
    ensures
        declared.declares(blend_uniforms(), quad_attributes(), blend_outputs(), None),
{
    let uniforms: &'static [&'static str] = &["s_color", "s_occlusion"];
    let attributes: &'static [&'static str] = &["a_pos"];
    let outputs: &'static [&'static str] = &["o_color"];
    assert(uniforms@ =~= blend_uniforms());
    assert(attributes@ =~= quad_attributes());
    assert(outputs@ =~= blend_outputs());
    Declared { uniforms, attributes, outputs, xfb_varyings: None }
}

/// What setting the composite stage up records, once its program linked
/// and all its objects could be created.
pub open spec fn blend_setup_commands<S>(
    program: ProgramReport,
    first: int,
    free: int,
    corners: Vec<i32>,
    a_pos: u32,
    width: i32,
    height: i32,
) -> Seq<GlCommand<S>> {
    setup_commands(program, first, free, 1, 1) + buffer_whole_commands((first + 2) as u32, corners, STATIC_DRAW)
        + vao_buffer_commands(Some((first + 1) as u32), (first + 2) as u32, a_pos, 2, 0, 0, false, 0)
        + fb_renderbuffer_commands(
        Some(first as u32),
        (first + 3) as u32,
        4,
        RGBA8,
        COLOR_ATTACHMENT0,
        width,
        height,
    )
}

/// Why setting the composite stage up fails, if it does.
pub open spec fn blend_failure(program: ProgramReport, free: int) -> Option<PassError> {
    if setup_failure(program, free, 1, 1, blend_uniforms(), quad_attributes(), blend_outputs()) is Some {
        setup_failure(program, free, 1, 1, blend_uniforms(), quad_attributes(), blend_outputs())
    } else if free < 3 {
        Some(PassError::Create(Resource::Buffer))
    } else if free < 4 {
        Some(PassError::Create(Resource::Renderbuffer))
    } else {
        None
    }
}

/// What the composite pass records: the pass is made current, colour and
/// occlusion are bound to their samplers, the quad is drawn without depth
/// test, and the result is copied to the drawing surface.
pub open spec fn blend_render_commands<S>(
    shader: u32,
    fbo: Option<u32>,
    vao: Option<u32>,
    slots: (u32, u32),
    width: i32,
    height: i32,
    t_color: u32,
    t_occlusion: u32,
) -> Seq<GlCommand<S>> {
    active_commands(shader, fbo, vao) + uniform_texture_commands(slots.0, t_color, TEXTURE0)
        + uniform_texture_commands(slots.1, t_occlusion, TEXTURE3) + seq![
        GlCommand::Disable(DEPTH_TEST),
        GlCommand::DrawArrays { mode: TRIANGLES, first: 0, count: 6 },
        GlCommand::BindFramebuffer { target: DRAW_FRAMEBUFFER, framebuffer: None },
        GlCommand::BlitFramebuffer {
            src: surface(width, height),
            dst: surface(width, height),
            mask: COLOR_BUFFER_BIT,
            filter: NEAREST,
        },
    ]
}

/// The rectangle of a surface of `width` by `height` pixels: its lower left
/// and upper right corner.
pub open spec fn surface(width: i32, height: i32) -> [i32; 4] {
    [0, 0, width, height]
}

impl BlendPass {
    /// The stage has its framebuffer and vertex array, and its program
    /// declares the two samplers.
    pub open spec fn wf(&self) -> bool {
        &&& self.rp.uniform_slot("s_color"@) is Some
        &&& self.rp.uniform_slot("s_occlusion"@) is Some
        &&& self.rp.fbos@.len() == 1
        &&& self.rp.vaos@.len() == 1
    }

    /// `self` is the stage that was set up on the context `before`, which
    /// then became `after`.
    pub open spec fn set_up<S>(self, before: Gl<S>, after: Gl<S>, program: ProgramReport) -> bool {
        &&& blend_failure(program, u32::MAX - before.next_handle) is None
        &&& self.wf()
        &&& self.rp.shader == program.program
        &&& self.rp.fbos@ == seq![before.next_handle]
        &&& self.rp.vaos@ == seq![(before.next_handle + 1) as u32]
        &&& self.rp.attribute_slot("a_pos"@) is Some
        &&& exists|corners: Vec<i32>|
            corners@ == QUAD@ && after.follows(
                before,
                #[trigger] blend_setup_commands(
                    program,
                    before.next_handle as int,
                    u32::MAX - before.next_handle,
                    corners,
                    self.rp.attribute_slot("a_pos"@).unwrap(),
                    before.width,
                    before.height,
                ),
                4,
            )
    }

    /// Sets the stage up: the quad is uploaded and bound, and the
    /// framebuffer gets a multisampled colour buffer.
    pub fn new<S>(gl: &mut Gl<S>, program: &ProgramReport) -> (outcome: Result<BlendPass, PassError>)
        ensures
            final(gl).continues(*old(gl)),
            match outcome {
                Ok(pass) => pass.set_up(*old(gl), *final(gl), *program),
                Err(e) => blend_failure(*program, u32::MAX - old(gl).next_handle) == Some(e),
            },
    {
        let ghost first = gl.next_handle as int;
        let ghost free = u32::MAX - gl.next_handle;
        let declared = blend_declared();
        let rp = match RenderPass::new(
            gl,
            program,
            1,
            1,
            Some(declared.uniforms),
            Some(declared.attributes),
            Some(declared.outputs),
        ) {
            Ok(rp) => rp,
            Err(e) => {
                return Err(e);
            },
        };
        proof {
            assert(blend_uniforms()[0]@ == "s_color"@);
            assert(blend_uniforms()[1]@ == "s_occlusion"@);
            assert(quad_attributes()[0]@ == "a_pos"@);
            assert(rp.fbos@ =~= seq![first as u32]);
            assert(rp.vaos@ =~= seq![(first + 1) as u32]);
        }
        let corners = quad();
        let ghost sent = corners;
        let buf_g = match rp.buffer_data_whole(gl, corners, STATIC_DRAW) {
            Ok(buffer) => buffer,
            Err(e) => {
                return Err(e);
            },
        };
        rp.vao_buffer(gl, 0, &buf_g, "a_pos", 2, 0, 0, false, 0);
        match rp.fb_renderbuffer(gl, 0, 4, RGBA8, COLOR_ATTACHMENT0) {
            Ok(done) => {},
            Err(e) => {
                return Err(e);
            },
        }
        assert(gl.commands@ =~= old(gl).commands@ + blend_setup_commands::<S>(
            *program,
            first,
            free,
            sent,
            rp.attribute_slot("a_pos"@).unwrap(),
            gl.width,
            gl.height,
        ));
        Ok(BlendPass { rp })
    }

    /// Blends `t_color` with `t_occlusion` and copies the result to the
    /// drawing surface of `width` by `height` pixels.
    pub fn render<S>(&self, gl: &mut Gl<S>, width: i32, height: i32, t_color: u32, t_occlusion: u32)
        requires
            self.wf(),
        ensures
            final(gl).follows(
                *old(gl),
                blend_render_commands(
                    self.rp.shader,
                    Some(self.rp.fbos@[0]),
                    Some(self.rp.vaos@[0]),
                    (self.rp.uniform_slot("s_color"@).unwrap(), self.rp.uniform_slot("s_occlusion"@).unwrap()),
                    width,
                    height,
                    t_color,
                    t_occlusion,
                ),
                0,
            ),
    {
        self.rp.active(gl, 0, 0);
        self.rp.uniform_texture(gl, "s_color", t_color, TEXTURE0);
        self.rp.uniform_texture(gl, "s_occlusion", t_occlusion, TEXTURE3);
        gl.issue(GlCommand::Disable(DEPTH_TEST));
        gl.issue(GlCommand::DrawArrays { mode: TRIANGLES, first: 0, count: 6 });
        gl.issue(GlCommand::BindFramebuffer { target: DRAW_FRAMEBUFFER, framebuffer: None });
        let rect: [i32; 4] = [0, 0, width, height];
        assert(rect == surface(width, height));
        gl.issue(GlCommand::BlitFramebuffer { src: rect, dst: rect, mask: COLOR_BUFFER_BIT, filter: NEAREST });
        assert(gl.commands@ =~= old(gl).commands@ + blend_render_commands(
            self.rp.shader,
            Some(self.rp.fbos@[0]),
            Some(self.rp.vaos@[0]),
            (self.rp.uniform_slot("s_color"@).unwrap(), self.rp.uniform_slot("s_occlusion"@).unwrap()),
            width,
            height,
            t_color,
            t_occlusion,
        ));
    }
}

} // verus!
