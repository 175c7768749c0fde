use orbital_render::deferred::{GpuBuffer, PassError, ProgramReport, ShaderReport};
use orbital_render::frame::{Pipeline, Programs, Sources, StageSource};
use orbital_render::gl::{Gl, GlCommand, Resource};
use orbital_render::icosphere::IcoSphere;
use orbital_render::pipeline::{blend_declared, geometry_declared, ssao_declared, xfb_declared};
use orbital_render::pipeline::{BlendPass, GeometryPass, SSAOPass, XFBPass};
use orbital_render::sampler::OrbitalSampler;

fn report(program: u32, uniforms: &[&str], attributes: &[&str], outputs: &[&str]) -> ProgramReport {
    let number = |names: &[&str], base: i32| -> Vec<(String, i32)> {
        names.iter().enumerate().map(|(i, n)| (n.to_string(), base + i as i32)).collect()
    };
    ProgramReport {
        program,
        vertex: ShaderReport { compiled: true, log: String::new() },
        fragment: ShaderReport { compiled: true, log: String::new() },
        linked: true,
        log: String::new(),
        uniforms: number(uniforms, 10 * program as i32),
        attributes: number(attributes, 0),
        outputs: number(outputs, 0),
    }
}

fn xfb_report() -> ProgramReport {
    report(1, &["u_dt"], &["i_pos"], &[])
}

fn geometry_report() -> ProgramReport {
    report(2, &["u_proj", "u_view", "u_scale", "u_lightdir"], &["i_pos", "a_pos", "a_normal"], &["o_color", "o_gdata"])
}

fn ssao_report() -> ProgramReport {
    report(3, &["s_gdata", "u_width", "u_height"], &["a_pos"], &["o_occlusion"])
}

fn blend_report() -> ProgramReport {
    report(4, &["s_color", "s_occlusion"], &["a_pos"], &["o_color"])
}

fn programs() -> Programs {
    Programs { xfb: xfb_report(), geometry: geometry_report(), ssao: ssao_report(), blend: blend_report() }
}

fn unit_data(n: usize) -> Vec<[f32; 3]> {
    (0..n).map(|v| [v as f32, 0.0, 1.0]).collect()
}

#[test]
fn transport_setup_makes_two_buffers_of_one_length() {
    let mut gl: Gl<f32> = Gl::new(64, 48);
    let pass = XFBPass::new(&mut gl, &xfb_report(), vec![0.5; 30], 10).unwrap();
    assert_eq!(pass.n_inst, 10);
    assert_eq!((pass.read_idx, pass.write_idx), (0, 1));
    assert_eq!(pass.buffers, vec![GpuBuffer { id: 3, bytes: 120 }, GpuBuffer { id: 4, bytes: 120 }]);
    assert_eq!(pass.rp.vaos, vec![1, 2]);
    assert_eq!(gl.commands.len(), 2 + 4 + 4 + 7 + 7);
    assert_eq!(gl.commands[4], GlCommand::BufferData { target: 34962, data: vec![0.5; 30], usage: 35040 });
    assert_eq!(gl.commands[8], GlCommand::BufferReserve { target: 34962, size: 120, usage: 35040 });
    assert_eq!(gl.commands[10], GlCommand::BindVertexArray(Some(1)));
    assert_eq!(gl.commands[11], GlCommand::BindBuffer { target: 34962, buffer: Some(3) });
    assert_eq!(gl.commands[14], GlCommand::VertexAttribDivisor { index: 0, divisor: 0 });
    assert_eq!(gl.commands[17], GlCommand::BindVertexArray(Some(2)));
    assert_eq!(gl.commands[18], GlCommand::BindBuffer { target: 34962, buffer: Some(4) });
    assert_eq!(gl.commands[21], GlCommand::VertexAttribDivisor { index: 0, divisor: 0 });
}

#[test]
fn transport_setup_rejects_data_of_the_wrong_length() {
    let mut gl: Gl<f32> = Gl::new(64, 48);
    assert_eq!(XFBPass::new(&mut gl, &xfb_report(), vec![0.5; 29], 10).err(), Some(PassError::InstanceData));
    assert_eq!(XFBPass::new(&mut gl, &xfb_report(), vec![0.5; 3], 178956971).err(), Some(PassError::InstanceData));
    assert!(gl.commands.is_empty());
    let mut bad = xfb_report();
    bad.uniforms.clear();
    assert_eq!(XFBPass::new(&mut gl, &bad, vec![0.5; 3], 1).err(), Some(PassError::MissingUniform("u_dt")));
}

#[test]
fn transport_step_captures_into_the_other_buffer() {
    let mut gl: Gl<f32> = Gl::new(64, 48);
    let mut pass = XFBPass::new(&mut gl, &xfb_report(), vec![0.5; 30], 10).unwrap();
    gl.take_commands();
    pass.render(&mut gl, 0.016);
    assert_eq!(
        gl.take_commands(),
        vec![
            GlCommand::UseProgram(Some(1)),
            GlCommand::BindFramebuffer { target: 36160, framebuffer: None },
            GlCommand::BindVertexArray(Some(1)),
            GlCommand::Uniform1f { location: 10, value: 0.016 },
            GlCommand::BindBufferBase { target: 35982, index: 0, buffer: Some(4) },
            GlCommand::Enable(35977),
            GlCommand::BeginTransformFeedback(0),
            GlCommand::DrawArrays { mode: 0, first: 0, count: 10 },
            GlCommand::EndTransformFeedback,
            GlCommand::Disable(35977),
            GlCommand::BindBufferBase { target: 35982, index: 0, buffer: None },
        ]
    );
    assert_eq!((pass.read_idx, pass.write_idx), (1, 0));
    assert_eq!(pass.buffers[pass.read_idx].bytes, pass.buffers[pass.write_idx].bytes);
    pass.render(&mut gl, 0.016);
    let second = gl.take_commands();
    assert_eq!(second[2], GlCommand::BindVertexArray(Some(2)));
    assert_eq!(second[4], GlCommand::BindBufferBase { target: 35982, index: 0, buffer: Some(3) });
    assert_eq!((pass.read_idx, pass.write_idx), (0, 1));
}

#[test]
fn geometry_setup_uploads_the_unrolled_mesh() {
    let mut gl: Gl<f32> = Gl::new(64, 48);
    let bufs = vec![GpuBuffer { id: 90, bytes: 12 }, GpuBuffer { id: 91, bytes: 12 }];
    let verts = unit_data(12);
    let pass = GeometryPass::new(&mut gl, &geometry_report(), &bufs, 1, 0, &verts, &verts).unwrap();
    assert_eq!(pass.particle.n_vert, 60);
    assert_eq!(pass.rp.fbos, vec![1]);
    assert_eq!(pass.rp.vaos, vec![2, 3]);
    assert_eq!((pass.t_color, pass.t_gdata), (7, 8));
    assert_eq!(gl.next_handle, 9);
    let expected = IcoSphere::new(0).vertex_buf(&verts);
    assert_eq!(expected.len(), 180);
    assert_eq!(gl.commands[5], GlCommand::BufferData { target: 34962, data: expected.clone(), usage: 35044 });
    assert_eq!(gl.commands[9], GlCommand::BufferData { target: 34962, data: expected, usage: 35044 });
    // first attribute of the first vertex array: the instance positions, once an instance
    assert_eq!(gl.commands[11], GlCommand::BindVertexArray(Some(2)));
    assert_eq!(gl.commands[12], GlCommand::BindBuffer { target: 34962, buffer: Some(90) });
    assert_eq!(gl.commands[15], GlCommand::VertexAttribDivisor { index: 0, divisor: 1 });
    // the attributes of the mesh advance with each vertex, in both vertex arrays
    assert_eq!(gl.commands[22], GlCommand::VertexAttribDivisor { index: 1, divisor: 0 });
    assert_eq!(gl.commands[29], GlCommand::VertexAttribDivisor { index: 2, divisor: 0 });
    assert_eq!(gl.commands[32], GlCommand::BindVertexArray(Some(3)));
    assert_eq!(gl.commands[36], GlCommand::VertexAttribDivisor { index: 0, divisor: 1 });
    assert_eq!(gl.commands[43], GlCommand::VertexAttribDivisor { index: 1, divisor: 0 });
    let n = gl.commands.len();
    assert_eq!(n, 3 + 8 + 2 * 21 + 7 + 24 + 3);
    assert_eq!(gl.commands[n - 2], GlCommand::DrawBuffers(vec![36064, 36065]));
}

#[test]
fn geometry_setup_rejects_data_that_does_not_fit_the_mesh() {
    let mut gl: Gl<f32> = Gl::new(64, 48);
    let bufs = vec![GpuBuffer { id: 90, bytes: 12 }, GpuBuffer { id: 91, bytes: 12 }];
    let r = geometry_report();
    assert_eq!(
        GeometryPass::new(&mut gl, &r, &bufs, 1, 0, &unit_data(11), &unit_data(12)).err(),
        Some(PassError::MeshData)
    );
    assert_eq!(
        GeometryPass::new(&mut gl, &r, &bufs, 1, 1, &unit_data(42), &unit_data(12)).err(),
        Some(PassError::MeshData)
    );
    assert_eq!(
        GeometryPass::new(&mut gl, &r, &bufs, 1, 11, &unit_data(12), &unit_data(12)).err(),
        Some(PassError::MeshData)
    );
    assert_eq!(
        GeometryPass::new(&mut gl, &r, &bufs, 0x8000_0000, 0, &unit_data(12), &unit_data(12)).err(),
        Some(PassError::InstanceData)
    );
    assert!(gl.commands.is_empty());
    gl.next_handle = u32::MAX - 5;
    assert_eq!(
        GeometryPass::new(&mut gl, &r, &bufs, 1, 0, &unit_data(12), &unit_data(12)).err(),
        Some(PassError::Create(Resource::Renderbuffer))
    );
}

#[test]
fn quad_passes_upload_two_triangles() {
    let mut gl: Gl<f32> = Gl::new(64, 48);
    let ssao = SSAOPass::new(&mut gl, &ssao_report()).unwrap();
    assert_eq!(ssao.t_occlusion, 4);
    let quad = GlCommand::BufferDataWhole {
        target: 34962,
        data: vec![-1, 1, -1, -1, 1, -1, -1, 1, 1, -1, 1, 1],
        usage: 35044,
    };
    assert_eq!(gl.commands[4], quad);
    assert_eq!(
        gl.commands[9],
        GlCommand::VertexAttribPointer { index: 0, size: 2, kind: 5126, normalized: false, stride: 0, offset: 0 }
    );
    assert_eq!(gl.commands[10], GlCommand::VertexAttribDivisor { index: 0, divisor: 0 });
    assert_eq!(gl.commands[15], GlCommand::ActiveTexture(33987));
    assert_eq!(
        gl.commands[21],
        GlCommand::TexStorage2d { target: 3553, levels: 1, format: 33325, width: 64, height: 48 }
    );
    gl.take_commands();
    let blend = BlendPass::new(&mut gl, &blend_report()).unwrap();
    assert_eq!(blend.rp.fbos, vec![5]);
    assert_eq!(gl.commands[4], quad);
    assert_eq!(
        gl.commands[16],
        GlCommand::RenderbufferStorageMultisample { target: 36161, samples: 4, format: 32856, width: 64, height: 48 }
    );
    let mut bad = blend_report();
    bad.linked = false;
    bad.log = "no".to_string();
    assert_eq!(BlendPass::new(&mut gl, &bad).err(), Some(PassError::Link("no".to_string())));
    let mut bad = ssao_report();
    bad.outputs.clear();
    assert_eq!(SSAOPass::new(&mut gl, &bad).err(), Some(PassError::MissingOutput("o_occlusion")));
}

#[test]
fn first_frame_draws_in_stage_order() {
    // A hundred seed positions, the icosahedron as the particle, the 4p orbital's count of points.
    let mut sampler: OrbitalSampler<f32> = OrbitalSampler::new(100);
    let xs: Vec<f32> = (0..150).map(|i| i as f32 * 0.1).collect();
    let flags: Vec<bool> = (0..150).map(|i| i % 4 != 3).collect();
    assert_eq!(sampler.collect(&xs, &xs, &xs, &flags), 100);
    assert!(sampler.is_complete());
    let seeds = sampler.instance_data();
    assert_eq!(seeds.len(), 300);

    let sphere = IcoSphere::new(0);
    assert_eq!(sphere.n_face * 3, 60);
    let verts = unit_data(sphere.vertex_count());

    let mut gl: Gl<f32> = Gl::new(800, 600);
    let mut p = Pipeline::new(&mut gl, &programs(), seeds, 100, 0, &verts, &verts).unwrap();
    assert_eq!(gl.next_handle, 21);
    gl.take_commands();

    let proj = [1.0f32; 16];
    let view = [2.0f32; 16];
    p.render(&mut gl, 0.016, 2.0, [0.0, 1.0, 1.0], proj, view, (800.0, 600.0));
    let frame = gl.take_commands();
    assert_eq!(frame.len(), 11 + 12 + 10 + 13);

    let drawn: Vec<(usize, &GlCommand<f32>)> = frame
        .iter()
        .enumerate()
        .filter(|(_, c)| {
            matches!(
                c,
                GlCommand::DrawArrays { .. } | GlCommand::DrawArraysInstanced { .. } | GlCommand::BlitFramebuffer { .. }
            )
        })
        .collect();
    assert_eq!(drawn.len(), 5);
    assert_eq!(drawn[0], (7, &GlCommand::DrawArrays { mode: 0, first: 0, count: 100 }));
    assert_eq!(frame[6], GlCommand::BeginTransformFeedback(0));
    assert_eq!(frame[8], GlCommand::EndTransformFeedback);
    assert_eq!(drawn[1], (22, &GlCommand::DrawArraysInstanced { mode: 4, first: 0, count: 60, instances: 100 }));
    assert_eq!(drawn[2], (32, &GlCommand::DrawArrays { mode: 4, first: 0, count: 6 }));
    assert_eq!(drawn[3], (43, &GlCommand::DrawArrays { mode: 4, first: 0, count: 6 }));
    assert_eq!(
        drawn[4],
        (
            45,
            &GlCommand::BlitFramebuffer { src: [0, 0, 800, 600], dst: [0, 0, 800, 600], mask: 16384, filter: 9728 }
        )
    );
    assert_eq!(frame[44], GlCommand::BindFramebuffer { target: 36009, framebuffer: None });

    // geometry reads the buffer that transport has just written
    assert_eq!(frame[4], GlCommand::BindBufferBase { target: 35982, index: 0, buffer: Some(4) });
    assert_eq!(frame[13], GlCommand::BindVertexArray(Some(7)));
    assert_eq!(frame[14], GlCommand::Uniform1f { location: 22, value: 2.0 });
    assert_eq!(frame[15], GlCommand::Uniform3fv { location: 23, value: [0.0, 1.0, 1.0] });
    assert_eq!(frame[16], GlCommand::UniformMatrix4fv { location: 20, transpose: false, value: proj });
    assert_eq!(frame[17], GlCommand::UniformMatrix4fv { location: 21, transpose: false, value: view });
    assert_eq!(frame[19], GlCommand::ClearColor { drawbuffer: 0, rgba: [1, 1, 1, 1] });
    assert_eq!(frame[20], GlCommand::ClearColor { drawbuffer: 1, rgba: [0, 0, 0, 1] });
    assert_eq!(frame[21], GlCommand::ClearDepthStencil { depth: 1, stencil: 0 });
    // occlusion samples the packed data of geometry, composite samples colour and occlusion
    assert_eq!(frame[27], GlCommand::BindTexture { target: 3553, texture: Some(12) });
    assert_eq!(frame[29], GlCommand::Uniform1f { location: 31, value: 800.0 });
    assert_eq!(frame[30], GlCommand::Uniform1f { location: 32, value: 600.0 });
    assert_eq!(frame[37], GlCommand::BindTexture { target: 3553, texture: Some(11) });
    assert_eq!(frame[40], GlCommand::BindTexture { target: 3553, texture: Some(16) });
    assert_eq!(frame[41], GlCommand::Uniform1i { location: 41, value: 3 });
}

#[test]
fn two_frames_return_the_buffers_to_their_roles() {
    let mut gl: Gl<f32> = Gl::new(80, 60);
    let verts = unit_data(12);
    let mut p = Pipeline::new(&mut gl, &programs(), vec![0.0; 6], 2, 0, &verts, &verts).unwrap();
    gl.take_commands();
    let m = [0.0f32; 16];
    p.render(&mut gl, 0.1, 2.0, [0.0, 1.0, 1.0], m, m, (80.0, 60.0));
    let first = gl.take_commands();
    assert_eq!((p.xfb_pass.read_idx, p.xfb_pass.write_idx), (1, 0));
    p.render(&mut gl, 0.1, 2.0, [0.0, 1.0, 1.0], m, m, (80.0, 60.0));
    let second = gl.take_commands();
    assert_eq!((p.xfb_pass.read_idx, p.xfb_pass.write_idx), (0, 1));
    assert_ne!(first, second);
    p.render(&mut gl, 0.1, 2.0, [0.0, 1.0, 1.0], m, m, (80.0, 60.0));
    assert_eq!(gl.take_commands(), first);
    assert_eq!(gl.next_handle, 21);
}

#[test]
fn pipeline_fails_with_the_first_stage_that_fails() {
    let verts = unit_data(12);
    let mut progs = programs();
    progs.ssao.vertex = ShaderReport { compiled: false, log: "ssao".to_string() };
    progs.blend.linked = false;
    let mut gl: Gl<f32> = Gl::new(80, 60);
    assert_eq!(
        Pipeline::new(&mut gl, &progs, vec![0.0; 6], 2, 0, &verts, &verts).err(),
        Some(PassError::CompileVertex("ssao".to_string()))
    );
    progs.geometry.attributes.pop();
    let mut gl: Gl<f32> = Gl::new(80, 60);
    assert_eq!(
        Pipeline::new(&mut gl, &progs, vec![0.0; 6], 2, 0, &verts, &verts).err(),
        Some(PassError::MissingAttribute("a_normal"))
    );
    let mut gl: Gl<f32> = Gl::new(80, 60);
    assert_eq!(
        Pipeline::new(&mut gl, &progs, vec![0.0; 7], 2, 0, &verts, &verts).err(),
        Some(PassError::InstanceData)
    );
    let mut gl: Gl<f32> = Gl::new(80, 60);
    gl.next_handle = u32::MAX - 18;
    assert_eq!(
        Pipeline::new(&mut gl, &programs(), vec![0.0; 6], 2, 0, &verts, &verts).err(),
        Some(PassError::Create(Resource::Buffer))
    );
}

fn sources() -> Sources {
    let stage = |name: &str| StageSource { vertex: format!("{name}.vert"), fragment: format!("{name}.frag") };
    Sources { xfb: stage("xfb"), geometry: stage("g"), ssao: stage("ssao"), blend: stage("blend") }
}

#[test]
fn stages_declare_their_names() {
    let xfb = xfb_declared();
    assert_eq!(xfb.uniforms, &["u_dt"]);
    assert_eq!(xfb.attributes, &["i_pos"]);
    assert!(xfb.outputs.is_empty());
    assert_eq!(xfb.xfb_varyings, Some(&["v_pos"][..]));
    let g = geometry_declared();
    assert_eq!(g.uniforms, &["u_proj", "u_view", "u_scale", "u_lightdir"]);
    assert_eq!(g.attributes, &["i_pos", "a_pos", "a_normal"]);
    assert_eq!(g.outputs, &["o_color", "o_gdata"]);
    assert_eq!(g.xfb_varyings, None);
    let ssao = ssao_declared();
    assert_eq!(ssao.uniforms, &["s_gdata", "u_width", "u_height"]);
    assert_eq!(ssao.attributes, &["a_pos"]);
    assert_eq!(ssao.outputs, &["o_occlusion"]);
    let blend = blend_declared();
    assert_eq!(blend.uniforms, &["s_color", "s_occlusion"]);
    assert_eq!(blend.attributes, &["a_pos"]);
    assert_eq!(blend.outputs, &["o_color"]);
}

#[test]
fn pipeline_requests_four_programs_in_stage_order() {
    let mut gl: Gl<f32> = Gl::new(80, 60);
    let asked = Pipeline::request(&mut gl, sources()).unwrap();
    assert_eq!((asked.xfb.vertex, asked.xfb.fragment, asked.xfb.program), (1, 2, 3));
    assert_eq!(asked.geometry.program, 6);
    assert_eq!(asked.ssao.program, 9);
    assert_eq!((asked.blend.vertex, asked.blend.fragment, asked.blend.program), (10, 11, 12));
    assert_eq!(asked.xfb.declared, xfb_declared());
    assert_eq!(asked.blend.declared, blend_declared());
    assert_eq!(gl.commands.len(), 11 + 10 + 10 + 10);
    assert_eq!(gl.commands[1], GlCommand::ShaderSource { shader: 1, source: "xfb.vert".to_string() });
    assert_eq!(
        gl.commands[9],
        GlCommand::TransformFeedbackVaryings { program: 3, varyings: &["v_pos"], mode: 35981 }
    );
    assert_eq!(gl.commands[10], GlCommand::LinkProgram(3));
    assert_eq!(gl.commands[15], GlCommand::ShaderSource { shader: 5, source: "g.frag".to_string() });
    assert_eq!(gl.commands[40], GlCommand::LinkProgram(12));
}

#[test]
fn pipeline_request_fails_where_handles_run_out() {
    for (left, error) in [
        (0, Resource::VertexShader),
        (4, Resource::FragmentShader),
        (8, Resource::Program),
        (9, Resource::VertexShader),
        (11, Resource::Program),
    ] {
        let mut gl: Gl<f32> = Gl::new(80, 60);
        gl.next_handle = u32::MAX - left;
        assert_eq!(Pipeline::request(&mut gl, sources()).err(), Some(PassError::Create(error)));
    }
    let mut gl: Gl<f32> = Gl::new(80, 60);
    gl.next_handle = u32::MAX - 12;
    assert!(Pipeline::request(&mut gl, sources()).is_ok());
}

#[test]
fn prepare_sets_the_state_the_stages_draw_in() {
    let mut gl: Gl<f32> = Gl::new(80, 60);
    Pipeline::prepare(&mut gl);
    assert_eq!(
        gl.commands,
        vec![
            GlCommand::Disable(3024),
            GlCommand::Disable(3042),
            GlCommand::Disable(3089),
            GlCommand::Disable(2960),
            GlCommand::Enable(2929),
            GlCommand::Enable(2884),
        ]
    );
    assert_eq!(gl.next_handle, 1);
}

#[test]
fn resize_moves_the_viewport_and_the_blit() {
    let mut gl: Gl<f32> = Gl::new(80, 60);
    let verts = unit_data(12);
    let mut p = Pipeline::new(&mut gl, &programs(), vec![0.0; 6], 2, 0, &verts, &verts).unwrap();
    gl.take_commands();
    Pipeline::resize(&mut gl, 120, 90);
    assert_eq!(gl.take_commands(), vec![GlCommand::Viewport { x: 0, y: 0, width: 120, height: 90 }]);
    assert_eq!((gl.drawing_buffer_width(), gl.drawing_buffer_height()), (120, 90));
    let m = [0.0f32; 16];
    p.render(&mut gl, 0.1, 2.0, [0.0, 1.0, 1.0], m, m, (120.0, 90.0));
    let frame = gl.take_commands();
    assert_eq!(
        frame[45],
        GlCommand::BlitFramebuffer { src: [0, 0, 120, 90], dst: [0, 0, 120, 90], mask: 16384, filter: 9728 }
    );
}
