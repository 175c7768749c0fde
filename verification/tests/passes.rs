use orbital_render::deferred::{find_location, get_slot, gl_compile_shader, gl_link_program, resolve_names};
use orbital_render::deferred::Declared;
use orbital_render::deferred::{GpuBuffer, PassError, ProgramReport, RenderPass, ShaderReport};
use orbital_render::gl;
use orbital_render::gl::{Gl, GlCommand, Resource};

fn answers(names: &[(&str, i32)]) -> Vec<(String, i32)> {
    names.iter().map(|(n, l)| (n.to_string(), *l)).collect()
}

fn report(uniforms: &[(&str, i32)], attributes: &[(&str, i32)], outputs: &[(&str, i32)]) -> ProgramReport {
    ProgramReport {
        program: 77,
        vertex: ShaderReport { compiled: true, log: String::new() },
        fragment: ShaderReport { compiled: true, log: String::new() },
        linked: true,
        log: String::new(),
        uniforms: answers(uniforms),
        attributes: answers(attributes),
        outputs: answers(outputs),
    }
}

fn simple_pass(gl: &mut Gl<f32>) -> RenderPass {
    let r = report(&[("u_a", 4), ("u_b", 9)], &[("a_pos", 0), ("a_col", 2)], &[("o_x", 0), ("o_y", 1)]);
    RenderPass::new(gl, &r, 2, 2, Some(&["u_a", "u_b"]), Some(&["a_pos", "a_col"]), Some(&["o_x", "o_y"]))
        .unwrap()
}

#[test]
fn context_starts_empty_and_hands_out_handles_in_order() {
    let mut gl: Gl<f32> = Gl::new(640, 480);
    assert!(gl.commands.is_empty());
    assert_eq!(gl.drawing_buffer_width(), 640);
    assert_eq!(gl.drawing_buffer_height(), 480);
    assert_eq!(gl.create(Resource::Buffer), Some(1));
    assert_eq!(gl.create(Resource::Texture), Some(2));
    gl.issue(GlCommand::Enable(gl::DEPTH_TEST));
    assert_eq!(
        gl.commands,
        vec![GlCommand::CreateBuffer(1), GlCommand::CreateTexture(2), GlCommand::Enable(2929)]
    );
    let taken = gl.take_commands();
    assert_eq!(taken.len(), 3);
    assert!(gl.commands.is_empty());
    assert_eq!(gl.next_handle, 3);
}

#[test]
fn context_without_handles_creates_nothing() {
    let mut gl: Gl<f32> = Gl::new(1, 1);
    gl.next_handle = u32::MAX;
    assert_eq!(gl.create(Resource::Framebuffer), None);
    assert!(gl.commands.is_empty());
    assert_eq!(gl.next_handle, u32::MAX);
}

#[test]
fn find_location_takes_the_first_answer() {
    let a = answers(&[("u_a", 3), ("u_b", -1), ("u_a", 8), ("u_c", 0)]);
    assert_eq!(find_location(&a, "u_a"), Some(3));
    assert_eq!(find_location(&a, "u_b"), None);
    assert_eq!(find_location(&a, "u_c"), Some(0));
    assert_eq!(find_location(&a, "u_d"), None);
    assert_eq!(find_location(&Vec::new(), "u_a"), None);
}

#[test]
fn resolve_names_reports_the_first_missing() {
    let a = answers(&[("u_a", 3), ("u_b", -1), ("u_c", 5)]);
    assert_eq!(resolve_names(&["u_a", "u_b", "u_x"], &a).unwrap_err(), 1);
    assert_eq!(resolve_names(&["u_x", "u_b"], &a).unwrap_err(), 0);
    let table = resolve_names(&["u_c", "u_a"], &a).unwrap();
    assert_eq!(table.len(), 2);
    assert_eq!(table.get("u_a"), Some(&3));
    assert_eq!(table.get("u_c"), Some(&5));
    assert!(resolve_names(&[], &a).unwrap().is_empty());
}

#[test]
fn pass_with_present_names_registers_each() {
    let mut gl: Gl<f32> = Gl::new(8, 8);
    let pass = simple_pass(&mut gl);
    assert_eq!(pass.shader, 77);
    assert_eq!(pass.fbos, vec![1, 2]);
    assert_eq!(pass.vaos, vec![3, 4]);
    assert_eq!(pass.uniform_location("u_a"), Some(4));
    assert_eq!(pass.uniform_location("u_b"), Some(9));
    assert_eq!(pass.uniform_location("u_c"), None);
    assert_eq!(pass.attribute_location("a_pos"), Some(0));
    assert_eq!(pass.attribute_location("a_col"), Some(2));
    assert_eq!(pass.attribute_location("u_a"), None);
    assert_eq!(pass.output_location("o_x"), Some(0));
    assert_eq!(pass.output_location("o_y"), Some(1));
    assert_eq!(
        gl.commands,
        vec![
            GlCommand::CreateFramebuffer(1),
            GlCommand::CreateFramebuffer(2),
            GlCommand::CreateVertexArray(3),
            GlCommand::CreateVertexArray(4),
        ]
    );
}

#[test]
fn pass_without_lists_registers_nothing() {
    let mut gl: Gl<f32> = Gl::new(8, 8);
    let r = report(&[("u_a", 4)], &[], &[]);
    let pass = RenderPass::new(&mut gl, &r, 0, 0, None, None, None).unwrap();
    assert_eq!(pass.uniform_location("u_a"), None);
    assert!(pass.fbos.is_empty() && pass.vaos.is_empty());
    assert!(gl.commands.is_empty());
}

#[test]
fn pass_with_an_absent_uniform_fails() {
    let mut gl: Gl<f32> = Gl::new(8, 8);
    let r = report(&[("u_a", 4), ("u_b", -1)], &[("a_pos", 0)], &[]);
    let e = RenderPass::new(&mut gl, &r, 1, 1, Some(&["u_a", "u_b"]), Some(&["a_pos"]), None).err();
    assert_eq!(e, Some(PassError::MissingUniform("u_b")));
    let e = RenderPass::new(&mut gl, &r, 1, 1, Some(&["u_zz", "u_b"]), Some(&["nope"]), None).err();
    assert_eq!(e, Some(PassError::MissingUniform("u_zz")));
}

#[test]
fn pass_with_an_absent_attribute_or_output_fails() {
    let mut gl: Gl<f32> = Gl::new(8, 8);
    let r = report(&[("u_a", 4)], &[("a_pos", 0), ("a_gone", -1)], &[("o_x", 0)]);
    let e = RenderPass::new(&mut gl, &r, 0, 0, Some(&["u_a"]), Some(&["a_pos", "a_gone"]), Some(&["o_y"])).err();
    assert_eq!(e, Some(PassError::MissingAttribute("a_gone")));
    let e = RenderPass::new(&mut gl, &r, 0, 0, Some(&["u_a"]), Some(&["a_pos"]), Some(&["o_x", "o_y"])).err();
    assert_eq!(e, Some(PassError::MissingOutput("o_y")));
}

#[test]
fn pass_reports_the_compiler_and_the_linker() {
    let mut gl: Gl<f32> = Gl::new(8, 8);
    let mut r = report(&[], &[], &[]);
    r.linked = false;
    r.log = "varying mismatch".to_string();
    assert_eq!(
        RenderPass::new(&mut gl, &r, 1, 1, None, None, None).err(),
        Some(PassError::Link("varying mismatch".to_string()))
    );
    r.fragment = ShaderReport { compiled: false, log: "frag: syntax".to_string() };
    assert_eq!(
        RenderPass::new(&mut gl, &r, 1, 1, None, None, None).err(),
        Some(PassError::CompileFragment("frag: syntax".to_string()))
    );
    r.vertex = ShaderReport { compiled: false, log: "vert: syntax".to_string() };
    assert_eq!(
        RenderPass::new(&mut gl, &r, 1, 1, None, None, None).err(),
        Some(PassError::CompileVertex("vert: syntax".to_string()))
    );
    assert!(gl.commands.is_empty());
}

#[test]
fn pass_fails_when_objects_run_out() {
    let r = report(&[], &[], &[]);
    let mut gl: Gl<f32> = Gl::new(8, 8);
    gl.next_handle = u32::MAX - 1;
    assert_eq!(
        RenderPass::new(&mut gl, &r, 2, 1, None, None, None).err(),
        Some(PassError::Create(Resource::Framebuffer))
    );
    assert_eq!(gl.commands, vec![GlCommand::CreateFramebuffer(u32::MAX - 1)]);
    let mut gl: Gl<f32> = Gl::new(8, 8);
    gl.next_handle = u32::MAX - 1;
    assert_eq!(
        RenderPass::new(&mut gl, &r, 1, 1, None, None, None).err(),
        Some(PassError::Create(Resource::VertexArray))
    );
    let pass = RenderPass::new(&mut Gl::<f32>::new(8, 8), &r, 0, 0, None, None, None).unwrap();
    let mut gl: Gl<f32> = Gl::new(8, 8);
    gl.next_handle = u32::MAX;
    assert_eq!(pass.buffer_alloc(&mut gl, 16, gl::STATIC_DRAW).err(), Some(PassError::Create(Resource::Buffer)));
    assert_eq!(pass.buffer_data(&mut gl, vec![1.0], gl::STATIC_DRAW).err(), Some(PassError::Create(Resource::Buffer)));
    assert_eq!(
        pass.fb_renderbuffer(&mut gl, 0, 0, gl::RGBA8, gl::COLOR_ATTACHMENT0).err(),
        Some(PassError::Create(Resource::Renderbuffer))
    );
    assert_eq!(
        pass.fb_texture(&mut gl, 0, gl::TEXTURE0, gl::RGBA8, gl::COLOR_ATTACHMENT0).err(),
        Some(PassError::Create(Resource::Texture))
    );
}

#[test]
fn get_slot_is_none_past_the_end() {
    assert_eq!(get_slot(&vec![5, 6], 0), Some(5));
    assert_eq!(get_slot(&vec![5, 6], 1), Some(6));
    assert_eq!(get_slot(&vec![5, 6], 2), None);
    assert_eq!(get_slot(&Vec::new(), 0), None);
}

#[test]
fn buffers_record_their_length_in_bytes() {
    let mut gl: Gl<f32> = Gl::new(8, 8);
    let pass = simple_pass(&mut gl);
    gl.take_commands();
    let a = pass.buffer_alloc(&mut gl, 1200, gl::STREAM_DRAW).unwrap();
    assert_eq!(a, GpuBuffer { id: 5, bytes: 1200 });
    let b = pass.buffer_data(&mut gl, vec![0.5, 1.5, 2.5], gl::STATIC_DRAW).unwrap();
    assert_eq!(b, GpuBuffer { id: 6, bytes: 12 });
    let c = pass.buffer_data_whole(&mut gl, vec![1, -1], gl::STATIC_DRAW).unwrap();
    assert_eq!(c, GpuBuffer { id: 7, bytes: 8 });
    assert_eq!(
        gl.commands,
        vec![
            GlCommand::CreateBuffer(5),
            GlCommand::BindBuffer { target: 34962, buffer: Some(5) },
            GlCommand::BufferReserve { target: 34962, size: 1200, usage: 35040 },
            GlCommand::BindBuffer { target: 34962, buffer: None },
            GlCommand::CreateBuffer(6),
            GlCommand::BindBuffer { target: 34962, buffer: Some(6) },
            GlCommand::BufferData { target: 34962, data: vec![0.5, 1.5, 2.5], usage: 35044 },
            GlCommand::BindBuffer { target: 34962, buffer: None },
            GlCommand::CreateBuffer(7),
            GlCommand::BindBuffer { target: 34962, buffer: Some(7) },
            GlCommand::BufferDataWhole { target: 34962, data: vec![1, -1], usage: 35044 },
            GlCommand::BindBuffer { target: 34962, buffer: None },
        ]
    );
}

#[test]
fn vao_buffer_sets_the_divisor_of_every_binding() {
    let mut gl: Gl<f32> = Gl::new(8, 8);
    let pass = simple_pass(&mut gl);
    gl.take_commands();
    let buf = GpuBuffer { id: 40, bytes: 12 };
    pass.vao_buffer(&mut gl, 1, &buf, "a_col", 3, 0, 0, true, 0);
    assert_eq!(
        gl.take_commands(),
        vec![
            GlCommand::BindVertexArray(Some(4)),
            GlCommand::BindBuffer { target: 34962, buffer: Some(40) },
            GlCommand::EnableVertexAttribArray(2),
            GlCommand::VertexAttribPointer { index: 2, size: 3, kind: 5126, normalized: true, stride: 0, offset: 0 },
            GlCommand::VertexAttribDivisor { index: 2, divisor: 0 },
            GlCommand::BindBuffer { target: 34962, buffer: None },
            GlCommand::BindVertexArray(None),
        ]
    );
    pass.vao_buffer(&mut gl, 0, &buf, "a_pos", 2, 8, 4, false, 3);
    assert_eq!(
        gl.take_commands(),
        vec![
            GlCommand::BindVertexArray(Some(3)),
            GlCommand::BindBuffer { target: 34962, buffer: Some(40) },
            GlCommand::EnableVertexAttribArray(0),
            GlCommand::VertexAttribPointer { index: 0, size: 2, kind: 5126, normalized: false, stride: 8, offset: 4 },
            GlCommand::VertexAttribDivisor { index: 0, divisor: 3 },
            GlCommand::BindBuffer { target: 34962, buffer: None },
            GlCommand::BindVertexArray(None),
        ]
    );
}

/// The divisor that each attribute of each vertex array has after `commands`.
fn divisors(commands: &[GlCommand<f32>]) -> std::collections::HashMap<(u32, u32), u32> {
    let mut bound = None;
    let mut set = std::collections::HashMap::new();
    for command in commands {
        match command {
            GlCommand::BindVertexArray(vao) => bound = *vao,
            GlCommand::VertexAttribDivisor { index, divisor } => {
                if let Some(vao) = bound {
                    set.insert((vao, *index), *divisor);
                }
            }
            _ => {}
        }
    }
    set
}

#[test]
fn vao_buffer_with_divisor_zero_takes_an_earlier_divisor_back() {
    let mut gl: Gl<f32> = Gl::new(8, 8);
    let pass = simple_pass(&mut gl);
    gl.take_commands();
    let per_instance = GpuBuffer { id: 40, bytes: 12 };
    let per_vertex = GpuBuffer { id: 41, bytes: 12 };
    pass.vao_buffer(&mut gl, 0, &per_instance, "a_pos", 3, 0, 0, false, 1);
    pass.vao_buffer(&mut gl, 1, &per_instance, "a_pos", 3, 0, 0, false, 2);
    assert_eq!(divisors(&gl.commands).get(&(3, 0)), Some(&1));
    pass.vao_buffer(&mut gl, 0, &per_vertex, "a_pos", 3, 0, 0, false, 0);
    let set = divisors(&gl.commands);
    // the slot that was bound again advances with each vertex, the other vertex array keeps its own
    assert_eq!(set.get(&(3, 0)), Some(&0));
    assert_eq!(set.get(&(4, 0)), Some(&2));
    assert_eq!(set.get(&(3, 2)), None);
}

#[test]
fn attachments_take_the_size_of_the_surface() {
    let mut gl: Gl<f32> = Gl::new(320, 200);
    let pass = simple_pass(&mut gl);
    gl.take_commands();
    pass.fb_renderbuffer(&mut gl, 0, 4, gl::RGBA8, gl::COLOR_ATTACHMENT0).unwrap();
    assert_eq!(
        gl.take_commands(),
        vec![
            GlCommand::BindFramebuffer { target: 36160, framebuffer: Some(1) },
            GlCommand::CreateRenderbuffer(5),
            GlCommand::BindRenderbuffer { target: 36161, renderbuffer: Some(5) },
            GlCommand::RenderbufferStorageMultisample { target: 36161, samples: 4, format: 32856, width: 320, height: 200 },
            GlCommand::FramebufferRenderbuffer {
                target: 36160,
                attachment: 36064,
                renderbuffer_target: 36161,
                renderbuffer: Some(5)
            },
            GlCommand::BindRenderbuffer { target: 36161, renderbuffer: None },
            GlCommand::BindFramebuffer { target: 36160, framebuffer: None },
        ]
    );
    let tex = pass.fb_texture(&mut gl, 1, gl::TEXTURE1, gl::RGBA16F, gl::COLOR_ATTACHMENT1).unwrap();
    assert_eq!(tex, 6);
    assert_eq!(
        gl.take_commands(),
        vec![
            GlCommand::BindFramebuffer { target: 36160, framebuffer: Some(2) },
            GlCommand::CreateTexture(6),
            GlCommand::ActiveTexture(33985),
            GlCommand::BindTexture { target: 3553, texture: Some(6) },
            GlCommand::TexParameteri { target: 3553, name: 10240, value: 9728 },
            GlCommand::TexParameteri { target: 3553, name: 10241, value: 9728 },
            GlCommand::TexParameteri { target: 3553, name: 10242, value: 33071 },
            GlCommand::TexParameteri { target: 3553, name: 10243, value: 33071 },
            GlCommand::TexStorage2d { target: 3553, levels: 1, format: 34842, width: 320, height: 200 },
            GlCommand::FramebufferTexture2d {
                target: 36160,
                attachment: 36065,
                texture_target: 3553,
                texture: Some(6),
                level: 0
            },
            GlCommand::BindTexture { target: 3553, texture: None },
            GlCommand::BindFramebuffer { target: 36160, framebuffer: None },
        ]
    );
}

#[test]
fn uniform_setters_upload_to_the_registered_location() {
    let mut gl: Gl<f32> = Gl::new(8, 8);
    let pass = simple_pass(&mut gl);
    gl.take_commands();
    pass.uniform_float(&mut gl, "u_b", 0.25);
    pass.uniform_vec3(&mut gl, "u_a", [0.0, 1.0, 1.0]);
    let mut m = [0.0f32; 16];
    m[0] = 1.0;
    m[15] = 2.0;
    pass.uniform_mat4(&mut gl, "u_a", m);
    pass.uniform_texture(&mut gl, "u_b", 12, gl::TEXTURE3);
    assert_eq!(
        gl.commands,
        vec![
            GlCommand::Uniform1f { location: 9, value: 0.25 },
            GlCommand::Uniform3fv { location: 4, value: [0.0, 1.0, 1.0] },
            GlCommand::UniformMatrix4fv { location: 4, transpose: false, value: m },
            GlCommand::ActiveTexture(33987),
            GlCommand::BindTexture { target: 3553, texture: Some(12) },
            GlCommand::Uniform1i { location: 9, value: 3 },
        ]
    );
}

#[test]
fn set_draw_buffers_takes_one_target_for_each_output() {
    let mut gl: Gl<f32> = Gl::new(8, 8);
    let pass = simple_pass(&mut gl);
    gl.take_commands();
    pass.set_draw_buffers(&mut gl, 0, &[gl::COLOR_ATTACHMENT0, gl::COLOR_ATTACHMENT1, 5]);
    assert_eq!(
        gl.commands,
        vec![
            GlCommand::BindFramebuffer { target: 36160, framebuffer: Some(1) },
            GlCommand::DrawBuffers(vec![36064, 36065]),
            GlCommand::BindFramebuffer { target: 36160, framebuffer: None },
        ]
    );
}

#[test]
fn active_binds_the_same_state_each_time() {
    let mut gl: Gl<f32> = Gl::new(8, 8);
    let pass = simple_pass(&mut gl);
    gl.take_commands();
    pass.active(&mut gl, 1, 0);
    let once = gl.take_commands();
    assert_eq!(
        once,
        vec![
            GlCommand::UseProgram(Some(77)),
            GlCommand::BindFramebuffer { target: 36160, framebuffer: Some(2) },
            GlCommand::BindVertexArray(Some(3)),
        ]
    );
    pass.active(&mut gl, 1, 0);
    pass.active(&mut gl, 1, 0);
    let twice = gl.take_commands();
    assert_eq!(&twice[..3], &once[..]);
    assert_eq!(&twice[3..], &once[..]);
    assert_eq!(gl.next_handle, 5);
}

#[test]
fn active_past_the_last_framebuffer_selects_the_surface() {
    let mut gl: Gl<f32> = Gl::new(8, 8);
    let pass = simple_pass(&mut gl);
    gl.take_commands();
    pass.active(&mut gl, 2, 7);
    assert_eq!(
        gl.commands,
        vec![
            GlCommand::UseProgram(Some(77)),
            GlCommand::BindFramebuffer { target: 36160, framebuffer: None },
            GlCommand::BindVertexArray(None),
        ]
    );
}

#[test]
fn compile_records_source_and_compilation() {
    let mut gl: Gl<f32> = Gl::new(8, 8);
    assert_eq!(gl_compile_shader(&mut gl, gl::FRAGMENT_SHADER, "void main() {}".to_string()), Some(1));
    assert_eq!(
        gl.commands,
        vec![
            GlCommand::CreateShader { handle: 1, kind: 35632 },
            GlCommand::ShaderSource { shader: 1, source: "void main() {}".to_string() },
            GlCommand::CompileShader(1),
        ]
    );
    gl.next_handle = u32::MAX;
    assert_eq!(gl_compile_shader(&mut gl, gl::VERTEX_SHADER, String::new()), None);
    assert_eq!(gl.commands.len(), 3);
}

#[test]
fn link_names_captured_outputs_only_where_there_are_any() {
    let mut gl: Gl<f32> = Gl::new(8, 8);
    gl.next_handle = 3;
    assert_eq!(gl_link_program(&mut gl, 1, 2, None), Some(3));
    assert_eq!(
        gl.take_commands(),
        vec![
            GlCommand::CreateProgram(3),
            GlCommand::AttachShader { program: 3, shader: 1 },
            GlCommand::AttachShader { program: 3, shader: 2 },
            GlCommand::LinkProgram(3),
        ]
    );
    assert_eq!(gl_link_program(&mut gl, 1, 2, Some(&["v_pos"])), Some(4));
    assert_eq!(
        gl.take_commands(),
        vec![
            GlCommand::CreateProgram(4),
            GlCommand::AttachShader { program: 4, shader: 1 },
            GlCommand::AttachShader { program: 4, shader: 2 },
            GlCommand::TransformFeedbackVaryings { program: 4, varyings: &["v_pos"], mode: 35981 },
            GlCommand::LinkProgram(4),
        ]
    );
    gl.next_handle = u32::MAX;
    assert_eq!(gl_link_program(&mut gl, 1, 2, None), None);
}

#[test]
fn request_compiles_both_shaders_and_links() {
    let mut gl: Gl<f32> = Gl::new(8, 8);
    let declared = Declared { uniforms: &["u_a"], attributes: &[], outputs: &[], xfb_varyings: None };
    let asked = RenderPass::request(&mut gl, "vert".to_string(), "frag".to_string(), declared).unwrap();
    assert_eq!((asked.vertex, asked.fragment, asked.program), (1, 2, 3));
    assert_eq!(asked.declared, declared);
    assert_eq!(gl.commands.len(), 10);
    assert_eq!(gl.commands[0], GlCommand::CreateShader { handle: 1, kind: 35633 });
    assert_eq!(gl.commands[1], GlCommand::ShaderSource { shader: 1, source: "vert".to_string() });
    assert_eq!(gl.commands[3], GlCommand::CreateShader { handle: 2, kind: 35632 });
    assert_eq!(gl.commands[4], GlCommand::ShaderSource { shader: 2, source: "frag".to_string() });
    assert_eq!(gl.commands[8], GlCommand::AttachShader { program: 3, shader: 2 });
    for (left, error) in [
        (0, Resource::VertexShader),
        (1, Resource::FragmentShader),
        (2, Resource::Program),
    ] {
        let mut gl: Gl<f32> = Gl::new(8, 8);
        gl.next_handle = u32::MAX - left;
        assert_eq!(
            RenderPass::request(&mut gl, String::new(), String::new(), declared).err(),
            Some(PassError::Create(error))
        );
    }
}
