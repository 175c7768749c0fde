use vstd::prelude::*;

verus! {

// The constants of WebGL 2 that the renderer uses, under their names there.
pub const ARRAY_BUFFER: u32 = 34962;
pub const FRAMEBUFFER: u32 = 36160;
pub const DRAW_FRAMEBUFFER: u32 = 36009;
pub const RENDERBUFFER: u32 = 36161;
pub const TRANSFORM_FEEDBACK_BUFFER: u32 = 35982;
pub const TEXTURE_2D: u32 = 3553;
pub const TEXTURE_MAG_FILTER: u32 = 10240;
pub const TEXTURE_MIN_FILTER: u32 = 10241;
pub const TEXTURE_WRAP_S: u32 = 10242;
pub const TEXTURE_WRAP_T: u32 = 10243;
pub const NEAREST: u32 = 9728;
pub const CLAMP_TO_EDGE: u32 = 33071;
pub const FLOAT: u32 = 5126;
pub const TEXTURE0: u32 = 33984;
pub const TEXTURE1: u32 = 33985;
pub const TEXTURE3: u32 = 33987;
pub const RASTERIZER_DISCARD: u32 = 35977;
pub const DEPTH_TEST: u32 = 2929;
pub const DITHER: u32 = 3024;
pub const BLEND: u32 = 3042;
pub const SCISSOR_TEST: u32 = 3089;
pub const STENCIL_TEST: u32 = 2960;
pub const CULL_FACE: u32 = 2884;
pub const POINTS: u32 = 0;
pub const TRIANGLES: u32 = 4;
pub const COLOR_BUFFER_BIT: u32 = 16384;
pub const STREAM_DRAW: u32 = 35040;
pub const STATIC_DRAW: u32 = 35044;
pub const DEPTH_COMPONENT16: u32 = 33189;
pub const DEPTH_ATTACHMENT: u32 = 36096;
pub const RGBA8: u32 = 32856;
pub const RGBA16F: u32 = 34842;
pub const R16F: u32 = 33325;
pub const COLOR_ATTACHMENT0: u32 = 36064;
pub const COLOR_ATTACHMENT1: u32 = 36065;
pub const VERTEX_SHADER: u32 = 35633;
pub const FRAGMENT_SHADER: u32 = 35632;
pub const SEPARATE_ATTRIBS: u32 = 35981;

/// One call on the rendering context, with its arguments. Shaders,
/// programs and other objects are named by the handles that the recording
/// context gives out, uniform locations by the numbers under which the
/// host reported them. `S` is the type of a floating-point component.
#[derive(Debug, PartialEq)]
#[allow(inconsistent_fields)]
pub enum GlCommand<S> {
    CreateShader { handle: u32, kind: u32 },
    ShaderSource { shader: u32, source: String },
    CompileShader(u32),
    CreateProgram(u32),
    AttachShader { program: u32, shader: u32 },
    /// Names the outputs of the vertex stage that are captured, each into a
    /// buffer of its own where `mode` says so.
    TransformFeedbackVaryings { program: u32, varyings: &'static [&'static str], mode: u32 },
    LinkProgram(u32),
    CreateBuffer(u32),
    CreateFramebuffer(u32),
    CreateVertexArray(u32),
    CreateRenderbuffer(u32),
    CreateTexture(u32),
    BindBuffer { target: u32, buffer: Option<u32> },
    /// Gives the bound buffer a store of `size` bytes without filling it.
    BufferReserve { target: u32, size: i32, usage: u32 },
    /// Fills the bound buffer with `data`.
    BufferData { target: u32, data: Vec<S>, usage: u32 },
    /// Fills the bound buffer with whole numbers, stored as floating-point
    /// components.
    BufferDataWhole { target: u32, data: Vec<i32>, usage: u32 },
    BindVertexArray(Option<u32>),
    EnableVertexAttribArray(u32),
    VertexAttribPointer { index: u32, size: i32, kind: u32, normalized: bool, stride: i32, offset: i32 },
    VertexAttribDivisor { index: u32, divisor: u32 },
    BindFramebuffer { target: u32, framebuffer: Option<u32> },
    BindRenderbuffer { target: u32, renderbuffer: Option<u32> },
    RenderbufferStorageMultisample { target: u32, samples: i32, format: u32, width: i32, height: i32 },
    FramebufferRenderbuffer { target: u32, attachment: u32, renderbuffer_target: u32, renderbuffer: Option<u32> },
    ActiveTexture(u32),
    BindTexture { target: u32, texture: Option<u32> },
    TexParameteri { target: u32, name: u32, value: i32 },
    TexStorage2d { target: u32, levels: i32, format: u32, width: i32, height: i32 },
    FramebufferTexture2d { target: u32, attachment: u32, texture_target: u32, texture: Option<u32>, level: i32 },
    Uniform1i { location: u32, value: i32 },
    Uniform1f { location: u32, value: S },
    Uniform3fv { location: u32, value: [S; 3] },
    UniformMatrix4fv { location: u32, transpose: bool, value: [S; 16] },
    DrawBuffers(Vec<u32>),
    UseProgram(Option<u32>),
    BindBufferBase { target: u32, index: u32, buffer: Option<u32> },
    Enable(u32),
    Disable(u32),
    BeginTransformFeedback(u32),
    EndTransformFeedback,
    DrawArrays { mode: u32, first: i32, count: i32 },
    DrawArraysInstanced { mode: u32, first: i32, count: i32, instances: i32 },
    /// Clears colour target `drawbuffer` to the whole-numbered components
    /// `rgba`.
    ClearColor { drawbuffer: i32, rgba: [i32; 4] },
    /// Clears depth to the whole number `depth` and stencil to `stencil`.
    ClearDepthStencil { depth: i32, stencil: i32 },
    BlitFramebuffer { src: [i32; 4], dst: [i32; 4], mask: u32, filter: u32 },
    Viewport { x: i32, y: i32, width: i32, height: i32 },
}

/// A recording rendering context. Calls are appended to `commands` in the
/// order they are made, for the host to carry out in that order; objects
/// are created by handing out the next unused handle.
pub struct Gl<S> {
    pub commands: Vec<GlCommand<S>>,
    pub next_handle: u32,
    pub width: i32,
    pub height: i32,
}

/// The kinds of object that a context creates.
#[derive(Debug, Clone, Copy, PartialEq, Eq, Structural)]
pub enum Resource {
    VertexShader,
    FragmentShader,
    Program,
    Buffer,
    Framebuffer,
    VertexArray,
    Renderbuffer,
    Texture,
}

/// The command that creates an object of `kind` under `handle`.
pub open spec fn creation<S>(kind: Resource, handle: u32) -> GlCommand<S> {
    match kind {
        Resource::VertexShader => GlCommand::CreateShader { handle, kind: VERTEX_SHADER },
        Resource::FragmentShader => GlCommand::CreateShader { handle, kind: FRAGMENT_SHADER },
        Resource::Program => GlCommand::CreateProgram(handle),
        Resource::Buffer => GlCommand::CreateBuffer(handle),
        Resource::Framebuffer => GlCommand::CreateFramebuffer(handle),
        Resource::VertexArray => GlCommand::CreateVertexArray(handle),
        Resource::Renderbuffer => GlCommand::CreateRenderbuffer(handle),
        Resource::Texture => GlCommand::CreateTexture(handle),
    }
}

impl<S> Gl<S> {
    /// A context for a drawing surface of `width` by `height` pixels, with
    /// nothing recorded. Handles start at 1.
    pub fn new(width: i32, height: i32) -> (gl: Gl<S>)
        ensures
            gl.commands@ == Seq::<GlCommand<S>>::empty(),
            gl.next_handle == 1,
            gl.width == width,
            gl.height == height,
    {
        Gl { commands: Vec::new(), next_handle: 1, width, height }
    }

    /// `self` is `before` with `added` recorded after what it held and
    /// `created` handles used up.
    pub open spec fn follows(self, before: Gl<S>, added: Seq<GlCommand<S>>, created: int) -> bool {
        &&& self.commands@ == before.commands@ + added
        &&& self.next_handle == before.next_handle + created
        &&& self.width == before.width
        &&& self.height == before.height
    }

    /// `self` holds all that `before` recorded, in the same places, and has
    /// given out every handle that `before` had.
    pub open spec fn continues(self, before: Gl<S>) -> bool {
        &&& before.commands@.len() <= self.commands@.len()
        &&& forall|i: int| 0 <= i < before.commands@.len() ==> self.commands@[i] == before.commands@[i]
        &&& before.next_handle <= self.next_handle
        &&& self.width == before.width
        &&& self.height == before.height
    }

    /// Records one call.
    pub fn issue(&mut self, command: GlCommand<S>)
        ensures
            final(self).follows(*old(self), seq![command], 0),
    {
        self.commands.push(command);
        assert(self.commands@ =~= old(self).commands@ + seq![command]);
    }

    /// Creates an object of `kind` and returns its handle; `None`, with
    /// nothing recorded, when no handle is left.
    pub fn create(&mut self, kind: Resource) -> (handle: Option<u32>)
        ensures
            match handle {
                Some(h) => h == old(self).next_handle && h < u32::MAX && final(self).follows(
                    *old(self),
                    seq![creation(kind, h)],
                    1,
                ),
                None => old(self).next_handle == u32::MAX && *final(self) == *old(self),
            },
    {
        if self.next_handle == u32::MAX {
            return None;
        }
        let h = self.next_handle;
        let command = match kind {
            Resource::VertexShader => GlCommand::CreateShader { handle: h, kind: VERTEX_SHADER },
            Resource::FragmentShader => GlCommand::CreateShader { handle: h, kind: FRAGMENT_SHADER },
            Resource::Program => GlCommand::CreateProgram(h),
            Resource::Buffer => GlCommand::CreateBuffer(h),
            Resource::Framebuffer => GlCommand::CreateFramebuffer(h),
            Resource::VertexArray => GlCommand::CreateVertexArray(h),
            Resource::Renderbuffer => GlCommand::CreateRenderbuffer(h),
            Resource::Texture => GlCommand::CreateTexture(h),
        };
        self.commands.push(command);
        self.next_handle = h + 1;
        assert(self.commands@ =~= old(self).commands@ + seq![creation::<S>(kind, h)]);
        Some(h)
    }

    /// Width of the drawing surface in pixels.
    pub fn drawing_buffer_width(&self) -> (w: i32)
        ensures
            w == self.width,
    {
        self.width
    }

    /// Height of the drawing surface in pixels.
    pub fn drawing_buffer_height(&self) -> (h: i32)
        ensures
            h == self.height,
    {
        self.height
    }

    /// Hands the recorded calls over, in order, and starts recording anew.
    pub fn take_commands(&mut self) -> (taken: Vec<GlCommand<S>>)
        ensures
            taken@ == old(self).commands@,
            final(self).commands@ == Seq::<GlCommand<S>>::empty(),
            final(self).next_handle == old(self).next_handle,
            final(self).width == old(self).width,
            final(self).height == old(self).height,
    {
        let mut taken: Vec<GlCommand<S>> = Vec::new();
        std::mem::swap(&mut taken, &mut self.commands);
        taken
    }
}

} // verus!
