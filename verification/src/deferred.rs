use vstd::prelude::*;
use rustc_hash::FxHashMap;
use crate::gl::{Gl, GlCommand, Resource};
use crate::gl::{ARRAY_BUFFER, CLAMP_TO_EDGE, DRAW_FRAMEBUFFER, FLOAT, FRAMEBUFFER, NEAREST};
use crate::gl::{RENDERBUFFER, TEXTURE0, TEXTURE_2D};
use crate::gl::{TEXTURE_MAG_FILTER, TEXTURE_MIN_FILTER, TEXTURE_WRAP_S, TEXTURE_WRAP_T};
use crate::gl::{FRAGMENT_SHADER, SEPARATE_ATTRIBS, VERTEX_SHADER};
use crate::name_table::{table_entries, table_get, table_insert, table_len, table_new};

verus! {

/// The names that the program of a pass declares: its uniforms, its vertex
/// attributes, its fragment outputs, and the outputs of its vertex stage
/// that are captured, if it captures any.
#[derive(Debug, Clone, Copy, PartialEq, Eq)]
pub struct Declared {
    pub uniforms: &'static [&'static str],
    pub attributes: &'static [&'static str],
    pub outputs: &'static [&'static str],
    pub xfb_varyings: Option<&'static [&'static str]>,
}

/// A program that is to be compiled and linked: the handles of its two
/// shaders and its own, and the names whose locations are asked for.
#[derive(Debug, Clone, Copy, PartialEq, Eq)]
pub struct ProgramRequest {
    pub vertex: u32,
    pub fragment: u32,
    pub program: u32,
    pub declared: Declared,
}

/// What the host learned when it compiled one shader.
pub struct ShaderReport {
    pub compiled: bool,
    pub log: String,
}

/// What the host learned when it compiled and linked the program of a
/// pass, and asked for the location of each name the pass declares. A
/// location below zero says that the program has no such name; of several
/// answers for one name the first counts.
pub struct ProgramReport {
    pub program: u32,
    pub vertex: ShaderReport,
    pub fragment: ShaderReport,
    pub linked: bool,
    pub log: String,
    pub uniforms: Vec<(String, i32)>,
    pub attributes: Vec<(String, i32)>,
    pub outputs: Vec<(String, i32)>,
}

/// Why a pass could not be set up. None of these can be recovered from:
/// without its program and its objects a pass cannot draw.
#[derive(Debug, PartialEq, Eq)]
pub enum PassError {
    /// The vertex shader did not compile; the diagnostic text.
    CompileVertex(String),
    /// The fragment shader did not compile; the diagnostic text.
    CompileFragment(String),
    /// The program did not link; the diagnostic text.
    Link(String),
    /// An object of this kind could not be created.
    Create(Resource),
    /// The program has no uniform of this name.
    MissingUniform(&'static str),
    /// The program has no attribute of this name.
    MissingAttribute(&'static str),
    /// The program has no fragment output of this name.
    MissingOutput(&'static str),
    /// The instance data does not hold three components for each instance,
    /// or is too large to be addressed.
    InstanceData,
    /// The mesh data does not fit the mesh, or is too large to be addressed.
    MeshData,
}

/// The names of an optional list of captured outputs.
pub open spec fn varyings_of(vars: Option<&'static [&'static str]>) -> Option<Seq<&'static str>> {
    match vars {
        Some(list) => Some(list@),
        None => None,
    }
}

impl Declared {
    /// `self` declares exactly these names, in this order.
    pub open spec fn declares(
        self,
        uniforms: Seq<&'static str>,
        attributes: Seq<&'static str>,
        outputs: Seq<&'static str>,
        xfb_varyings: Option<Seq<&'static str>>,
    ) -> bool {
        &&& self.uniforms@ == uniforms
        &&& self.attributes@ == attributes
        &&& self.outputs@ == outputs
        &&& varyings_of(self.xfb_varyings) == xfb_varyings
    }
}

/// What compiling a shader records.
pub open spec fn compile_commands<S>(shader: u32, shader_type: u32, source: String) -> Seq<GlCommand<S>> {
    seq![
        GlCommand::CreateShader { handle: shader, kind: shader_type },
        GlCommand::ShaderSource { shader, source },
        GlCommand::CompileShader(shader),
    ]
}

/// What linking a program records. The captured outputs are named only
/// where there are any, and each is captured into a buffer of its own.
pub open spec fn link_commands<S>(
    program: u32,
    vert: u32,
    frag: u32,
    xfb_varyings: Option<&'static [&'static str]>,
) -> Seq<GlCommand<S>> {
    let head = seq![
        GlCommand::CreateProgram(program),
        GlCommand::AttachShader { program, shader: vert },
        GlCommand::AttachShader { program, shader: frag },
    ];
    match xfb_varyings {
        Some(varyings) => head + seq![
            GlCommand::TransformFeedbackVaryings { program, varyings, mode: SEPARATE_ATTRIBS },
            GlCommand::LinkProgram(program),
        ],
        None => head + seq![GlCommand::LinkProgram(program)],
    }
}

/// What requesting the program of a pass records: its vertex shader, its
/// fragment shader, and the program linked from the two.
pub open spec fn request_commands<S>(
    first: int,
    vert_src: String,
    frag_src: String,
    xfb_varyings: Option<&'static [&'static str]>,
) -> Seq<GlCommand<S>> {
    compile_commands(first as u32, VERTEX_SHADER, vert_src) + compile_commands(
        (first + 1) as u32,
        FRAGMENT_SHADER,
        frag_src,
    ) + link_commands((first + 2) as u32, first as u32, (first + 1) as u32, xfb_varyings)
}

/// Has a shader of `shader_type` created and compiled from `source`, and
/// returns its handle; `None`, with nothing recorded, when no handle is
/// left. Whether it compiled is for the host to report.
pub fn gl_compile_shader<S>(gl: &mut Gl<S>, shader_type: u32, source: String) -> (shader: Option<u32>)
    requires
        shader_type == VERTEX_SHADER || shader_type == FRAGMENT_SHADER,
    ensures
        match shader {
            Some(h) => h == old(gl).next_handle && h < u32::MAX && final(gl).follows(
                *old(gl),
                compile_commands(h, shader_type, source),
                1,
            ),
            None => old(gl).next_handle == u32::MAX && *final(gl) == *old(gl),
        },
{
    let kind = if shader_type == VERTEX_SHADER {
        Resource::VertexShader
    } else {
        Resource::FragmentShader
    };
    let shader = match gl.create(kind) {
        Some(handle) => handle,
        None => {
            return None;
        },
    };
    gl.issue(GlCommand::ShaderSource { shader, source });
    gl.issue(GlCommand::CompileShader(shader));
    assert(gl.commands@ =~= old(gl).commands@ + compile_commands::<S>(shader, shader_type, source));
    Some(shader)
}

/// Has a program created and linked from the two shaders, and returns its
/// handle; `None`, with nothing recorded, when no handle is left. Whether
/// it linked is for the host to report.
pub fn gl_link_program<S>(
    gl: &mut Gl<S>,
    vert_shader: u32,
    frag_shader: u32,
    xfb_varyings: Option<&'static [&'static str]>,
) -> (program: Option<u32>)
    ensures
        match program {
            Some(h) => h == old(gl).next_handle && h < u32::MAX && final(gl).follows(
                *old(gl),
                link_commands(h, vert_shader, frag_shader, xfb_varyings),
                1,
            ),
            None => old(gl).next_handle == u32::MAX && *final(gl) == *old(gl),
        },
{
    let program = match gl.create(Resource::Program) {
        Some(handle) => handle,
        None => {
            return None;
        },
    };
    gl.issue(GlCommand::AttachShader { program, shader: vert_shader });
    gl.issue(GlCommand::AttachShader { program, shader: frag_shader });
    if let Some(varyings) = xfb_varyings {
        gl.issue(GlCommand::TransformFeedbackVaryings { program, varyings, mode: SEPARATE_ATTRIBS });
    }
    gl.issue(GlCommand::LinkProgram(program));
    assert(gl.commands@ =~= old(gl).commands@ + link_commands::<S>(
        program,
        vert_shader,
        frag_shader,
        xfb_varyings,
    ));
    Some(program)
}

/// Why requesting a program fails with `free` handles left, if it does.
pub open spec fn request_failure(free: int) -> Option<PassError> {
    if free < 1 {
        Some(PassError::Create(Resource::VertexShader))
    } else if free < 2 {
        Some(PassError::Create(Resource::FragmentShader))
    } else if free < 3 {
        Some(PassError::Create(Resource::Program))
    } else {
        None
    }
}

/// Location that `answers` give for `name`, looking from position `from`
/// on: that of the first answer for the name, if it is not below zero.
pub open spec fn location_from(answers: Seq<(String, i32)>, name: Seq<char>, from: int) -> Option<u32>
    decreases answers.len() - from,
{
    if from < 0 || from >= answers.len() {
        None
    } else if answers[from].0@ == name {
        if answers[from].1 >= 0 {
            Some(answers[from].1 as u32)
        } else {
            None
        }
    } else {
        location_from(answers, name, from + 1)
    }
}

/// Location that `answers` give for `name`, if the program has it.
pub open spec fn location(answers: Seq<(String, i32)>, name: Seq<char>) -> Option<u32> {
    location_from(answers, name, 0)
}

/// The names of an optional list; none where there is no list.
pub open spec fn names_of(vars: Option<&[&'static str]>) -> Seq<&'static str> {
    match vars {
        Some(list) => list@,
        None => Seq::empty(),
    }
}

/// The first `n` of `names` all have a location.
pub open spec fn all_resolved(names: Seq<&'static str>, answers: Seq<(String, i32)>, n: int) -> bool {
    forall|i: int| 0 <= i < n ==> location(answers, (#[trigger] names[i])@) is Some
}

/// The table that registering the first `n` of `names` gives: each name
/// under its location.
pub open spec fn resolved_table(
    names: Seq<&'static str>,
    answers: Seq<(String, i32)>,
    n: nat,
) -> Map<Seq<char>, u32>
    decreases n,
{
    if n == 0 {
        Map::empty()
    } else {
        resolved_table(names, answers, (n - 1) as nat).insert(
            names[n - 1]@,
            location(answers, names[n - 1]@).unwrap(),
        )
    }
}

/// Name resolution registers exactly the names asked for, and each is
/// retrievable under the location that the program reported for it.
pub proof fn lemma_resolved_table(names: Seq<&'static str>, answers: Seq<(String, i32)>, n: nat)
    requires
        n <= names.len(),
        all_resolved(names, answers, n as int),
    ensures
        forall|name: Seq<char>| #[trigger]
            resolved_table(names, answers, n).contains_key(name) <==> exists|i: int|
                0 <= i < n && (#[trigger] names[i])@ == name,
        forall|name: Seq<char>| #[trigger]
            resolved_table(names, answers, n).contains_key(name) ==> location(answers, name) == Some(
                resolved_table(names, answers, n)[name],
            ),
        resolved_table(names, answers, n).dom().finite(),
    decreases n,
{
    if n > 0 {
        let before = resolved_table(names, answers, (n - 1) as nat);
        let table = resolved_table(names, answers, n);
        lemma_resolved_table(names, answers, (n - 1) as nat);
        assert forall|name: Seq<char>| #[trigger] table.contains_key(name) <==> exists|i: int|
            0 <= i < n && (#[trigger] names[i])@ == name by {
            if table.contains_key(name) {
                if name == names[n - 1]@ {
                } else {
                    assert(before.contains_key(name));
                    let i = choose|i: int| 0 <= i < n - 1 && (#[trigger] names[i])@ == name;
                    assert(0 <= i < n && names[i]@ == name);
                }
            }
            if exists|i: int| 0 <= i < n && (#[trigger] names[i])@ == name {
                let i = choose|i: int| 0 <= i < n && (#[trigger] names[i])@ == name;
                if i < n - 1 {
                    assert(before.contains_key(name));
                }
            }
        }
    }
}

/// Position of the first of `names`, from `from` on, that the program lacks.
pub open spec fn first_missing(
    names: Seq<&'static str>,
    answers: Seq<(String, i32)>,
    from: int,
) -> Option<int>
    decreases names.len() - from,
{
    if from < 0 || from >= names.len() {
        None
    } else if location(answers, names[from]@) is None {
        Some(from)
    } else {
        first_missing(names, answers, from + 1)
    }
}

/// Looks `name` up among the locations that the program reported.
pub fn find_location(answers: &Vec<(String, i32)>, name: &str) -> (found: Option<u32>)
    ensures
        found == location(answers@, name@),
{
    let wanted = name.to_owned();
    let mut i: usize = 0;
    while i < answers.len()
        invariant
            i <= answers@.len(),
            wanted@ == name@,
            location(answers@, name@) == location_from(answers@, name@, i as int),
        decreases answers@.len() - i,
    {
        if answers[i].0 == wanted {
            let raw = answers[i].1;
            if raw >= 0 {
                return Some(raw as u32);
            } else {
                return None;
            }
        }
        i += 1;
    }
    None
}

/// Registers each of `names` under the location that the program reported
/// for it. Fails at the first name that the program lacks, with its
/// position in `names`.
pub fn resolve_names(
    names: &[&'static str],
    answers: &Vec<(String, i32)>,
) -> (outcome: Result<FxHashMap<&'static str, u32>, usize>)
    ensures
        match outcome {
            Ok(table) => first_missing(names@, answers@, 0) is None && all_resolved(
                names@,
                answers@,
                names@.len() as int,
            ) && table_entries(table) == resolved_table(names@, answers@, names@.len()),
            Err(missing) => first_missing(names@, answers@, 0) == Some(missing as int) && missing
                < names@.len(),
        },
{
    let mut table = table_new();
    let mut i: usize = 0;
    assert(table_entries(table) =~= resolved_table(names@, answers@, 0));
    while i < names.len()
        invariant
            i <= names@.len(),
            all_resolved(names@, answers@, i as int),
            first_missing(names@, answers@, 0) == first_missing(names@, answers@, i as int),
            table_entries(table) == resolved_table(names@, answers@, i as nat),
        decreases names@.len() - i,
    {
        let name: &'static str = names[i];
        match find_location(answers, name) {
            Some(slot) => {
                table_insert(&mut table, name, slot);
            },
            None => {
                return Err(i);
            },
        }
        i += 1;
    }
    Ok(table)
}


/// `table` holds exactly `names`, each under the location that `answers`
/// give for it.
pub open spec fn registered(
    table: Map<Seq<char>, u32>,
    names: Seq<&'static str>,
    answers: Seq<(String, i32)>,
) -> bool {
    &&& forall|i: int|
        0 <= i < names.len() ==> table.contains_key((#[trigger] names[i])@) && location(answers, names[i]@)
            == Some(table[names[i]@])
    &&& forall|name: Seq<char>| #[trigger]
        table.contains_key(name) ==> exists|i: int| 0 <= i < names.len() && (#[trigger] names[i])@ == name
    &&& table.dom().finite()
}

/// Where no name is missing from some position on, every name from there
/// on has a location.
pub proof fn lemma_none_missing(names: Seq<&'static str>, answers: Seq<(String, i32)>, from: int)
    requires
        0 <= from,
        first_missing(names, answers, from) is None,
    ensures
        forall|i: int| from <= i < names.len() ==> location(answers, (#[trigger] names[i])@) is Some,
    decreases names.len() - from,
{
    if from < names.len() {
        lemma_none_missing(names, answers, from + 1);
    }
}

/// The table of a successful resolution holds exactly the names asked for.
pub proof fn lemma_registered(names: Seq<&'static str>, answers: Seq<(String, i32)>)
    requires
        first_missing(names, answers, 0) is None,
    ensures
        registered(resolved_table(names, answers, names.len()), names, answers),
{
    lemma_none_missing(names, answers, 0);
    lemma_resolved_table(names, answers, names.len());
    let table = resolved_table(names, answers, names.len());
    assert forall|i: int| 0 <= i < names.len() implies table.contains_key((#[trigger] names[i])@)
        && location(answers, names[i]@) == Some(table[names[i]@]) by {
        assert(0 <= i < names.len() && names[i]@ == names[i]@);
    }
}

/// Entry `i` of `list`, if it has one.
pub open spec fn slot(list: Seq<u32>, i: int) -> Option<u32> {
    if 0 <= i < list.len() {
        Some(list[i])
    } else {
        None
    }
}

/// Entry `i` of `list`, if it has one.
pub fn get_slot(list: &Vec<u32>, i: usize) -> (found: Option<u32>)
    ensures
        found == slot(list@, i as int),
{
    if i < list.len() {
        Some(list[i])
    } else {
        None
    }
}

/// The handles `first`, `first + 1`, ... : `count` of them.
pub open spec fn handles_run(first: int, count: nat) -> Seq<u32> {
    Seq::new(count, |k: int| (first + k) as u32)
}

/// The commands that create `count` objects of `kind` under the handles
/// from `first` on.
pub open spec fn created_run<S>(kind: Resource, first: int, count: nat) -> Seq<GlCommand<S>> {
    Seq::new(count, |k: int| crate::gl::creation(kind, (first + k) as u32))
}

/// The smaller of two counts.
pub open spec fn at_most(wanted: int, free: int) -> nat {
    if wanted <= free {
        if wanted >= 0 { wanted as nat } else { 0 }
    } else {
        if free >= 0 { free as nat } else { 0 }
    }
}

/// Creates `n` objects of `kind`, as far as handles are left, and returns
/// their handles if all `n` were created.
fn create_objects<S>(gl: &mut Gl<S>, kind: Resource, n: usize) -> (made: Option<Vec<u32>>)
    ensures
        final(gl).follows(
            *old(gl),
            created_run(kind, old(gl).next_handle as int, at_most(n as int, u32::MAX - old(gl).next_handle)),
            at_most(n as int, u32::MAX - old(gl).next_handle) as int,
        ),
        made is Some <==> old(gl).next_handle + n <= u32::MAX,
        made matches Some(handles) ==> handles@ == handles_run(old(gl).next_handle as int, n as nat),
{
    let ghost first = gl.next_handle as int;
    let mut handles: Vec<u32> = Vec::new();
    let mut i: usize = 0;
    assert(gl.commands@ =~= old(gl).commands@ + created_run::<S>(kind, first, 0));
    while i < n
        invariant
            i <= n,
            first == old(gl).next_handle,
            first + i <= u32::MAX,
            gl.follows(*old(gl), created_run(kind, first, i as nat), i as int),
            handles@ == handles_run(first, i as nat),
        decreases n - i,
    {
        match gl.create(kind) {
            Some(h) => {
                handles.push(h);
                assert(handles@ =~= handles_run(first, (i + 1) as nat));
                assert(gl.commands@ =~= old(gl).commands@ + created_run::<S>(kind, first, (i + 1) as nat));
            },
            None => {
                return None;
            },
        }
        i += 1;
    }
    Some(handles)
}

/// One stage of the pipeline: a linked program, the framebuffers and vertex
/// arrays it draws with, and the locations of the names it declared.
pub struct RenderPass {
    pub shader: u32,
    pub fbos: Vec<u32>,
    pub vaos: Vec<u32>,
    pub uniforms: FxHashMap<&'static str, u32>,
    pub attributes: FxHashMap<&'static str, u32>,
    pub draw_buffers: FxHashMap<&'static str, u32>,
}

/// A buffer on the GPU: its handle and the length of its store in bytes,
/// at four bytes a component.
#[derive(Debug, Clone, Copy, PartialEq, Eq, Structural)]
pub struct GpuBuffer {
    pub id: u32,
    pub bytes: i32,
}

/// The program compiled and linked.
pub open spec fn links(program: ProgramReport) -> bool {
    program.vertex.compiled && program.fragment.compiled && program.linked
}

/// Why setting up a pass fails, if it does: the first of the shader that
/// did not compile, the program that did not link, the object that could
/// not be created with `free` handles left, and the declared name that the
/// program lacks.
pub open spec fn setup_failure(
    program: ProgramReport,
    free: int,
    n_fbos: nat,
    n_vaos: nat,
    uniforms: Seq<&'static str>,
    attributes: Seq<&'static str>,
    outputs: Seq<&'static str>,
) -> Option<PassError> {
    if !program.vertex.compiled {
        Some(PassError::CompileVertex(program.vertex.log))
    } else if !program.fragment.compiled {
        Some(PassError::CompileFragment(program.fragment.log))
    } else if !program.linked {
        Some(PassError::Link(program.log))
    } else if free < n_fbos {
        Some(PassError::Create(Resource::Framebuffer))
    } else if free < n_fbos + n_vaos {
        Some(PassError::Create(Resource::VertexArray))
    } else if first_missing(uniforms, program.uniforms@, 0) is Some {
        Some(PassError::MissingUniform(uniforms[first_missing(uniforms, program.uniforms@, 0).unwrap()]))
    } else if first_missing(attributes, program.attributes@, 0) is Some {
        Some(
            PassError::MissingAttribute(
                attributes[first_missing(attributes, program.attributes@, 0).unwrap()],
            ),
        )
    } else if first_missing(outputs, program.outputs@, 0) is Some {
        Some(PassError::MissingOutput(outputs[first_missing(outputs, program.outputs@, 0).unwrap()]))
    } else {
        None
    }
}

/// What setting up a pass records: nothing unless the program linked; then
/// the creation of its framebuffers and of its vertex arrays, as far as
/// `free` handles reach.
pub open spec fn setup_commands<S>(
    program: ProgramReport,
    first: int,
    free: int,
    n_fbos: nat,
    n_vaos: nat,
) -> Seq<GlCommand<S>> {
    if !links(program) {
        Seq::empty()
    } else if free < n_fbos {
        created_run(Resource::Framebuffer, first, at_most(n_fbos as int, free))
    } else {
        created_run(Resource::Framebuffer, first, n_fbos) + created_run(
            Resource::VertexArray,
            first + n_fbos,
            at_most(n_vaos as int, free - n_fbos),
        )
    }
}

impl RenderPass {
    /// Location of the uniform `name`, if the pass declared it.
    pub open spec fn uniform_slot(&self, name: Seq<char>) -> Option<u32> {
        if table_entries(self.uniforms).contains_key(name) {
            Some(table_entries(self.uniforms)[name])
        } else {
            None
        }
    }

    /// Slot of the attribute `name`, if the pass declared it.
    pub open spec fn attribute_slot(&self, name: Seq<char>) -> Option<u32> {
        if table_entries(self.attributes).contains_key(name) {
            Some(table_entries(self.attributes)[name])
        } else {
            None
        }
    }

    /// Slot of the fragment output `name`, if the pass declared it.
    pub open spec fn output_slot(&self, name: Seq<char>) -> Option<u32> {
        if table_entries(self.draw_buffers).contains_key(name) {
            Some(table_entries(self.draw_buffers)[name])
        } else {
            None
        }
    }

    /// Has the program of a pass compiled and linked from its sources, for
    /// the host to report on.
    pub fn request<S>(
        gl: &mut Gl<S>,
        vert_src: String,
        frag_src: String,
        declared: Declared,
    ) -> (outcome: Result<ProgramRequest, PassError>)
        ensures
            final(gl).continues(*old(gl)),
            match outcome {
                Ok(asked) => request_failure(u32::MAX - old(gl).next_handle) is None && asked == (ProgramRequest {
                    vertex: old(gl).next_handle,
                    fragment: (old(gl).next_handle + 1) as u32,
                    program: (old(gl).next_handle + 2) as u32,
                    declared,
                }) && final(gl).follows(
                    *old(gl),
                    request_commands(old(gl).next_handle as int, vert_src, frag_src, declared.xfb_varyings),
                    3,
                ),
                Err(e) => request_failure(u32::MAX - old(gl).next_handle) == Some(e),
            },
    {
        let vertex = match gl_compile_shader(gl, VERTEX_SHADER, vert_src) {
            Some(shader) => shader,
            None => {
                return Err(PassError::Create(Resource::VertexShader));
            },
        };
        let fragment = match gl_compile_shader(gl, FRAGMENT_SHADER, frag_src) {
            Some(shader) => shader,
            None => {
                return Err(PassError::Create(Resource::FragmentShader));
            },
        };
        let program = match gl_link_program(gl, vertex, fragment, declared.xfb_varyings) {
            Some(program) => program,
            None => {
                return Err(PassError::Create(Resource::Program));
            },
        };
        assert(gl.commands@ =~= old(gl).commands@ + request_commands::<S>(
            old(gl).next_handle as int,
            vert_src,
            frag_src,
            declared.xfb_varyings,
        ));
        Ok(ProgramRequest { vertex, fragment, program, declared })
    }

    /// Sets a pass up from the report on its program. Checks that both
    /// shaders compiled and the program linked, creates `n_fbos`
    /// framebuffers and `n_vaos` vertex arrays, and registers every declared
    /// name under its location. Fails, as `setup_failure` says, rather than
    /// leave a name without a location.
    pub fn new<S>(
        gl: &mut Gl<S>,
        program: &ProgramReport,
        n_fbos: usize,
        n_vaos: usize,
        uniform_vars: Option<&[&'static str]>,
        attribute_vars: Option<&[&'static str]>,
        draw_buf_vars: Option<&[&'static str]>,
    ) -> (outcome: Result<RenderPass, PassError>)
        ensures
            final(gl).follows(
                *old(gl),
                setup_commands(
                    *program,
                    old(gl).next_handle as int,
                    u32::MAX - old(gl).next_handle,
                    n_fbos as nat,
                    n_vaos as nat,
                ),
                setup_commands::<S>(
                    *program,
                    old(gl).next_handle as int,
                    u32::MAX - old(gl).next_handle,
                    n_fbos as nat,
                    n_vaos as nat,
                ).len() as int,
            ),
            match outcome {
                Ok(pass) => {
                    &&& setup_failure(
                        *program,
                        u32::MAX - old(gl).next_handle,
                        n_fbos as nat,
                        n_vaos as nat,
                        names_of(uniform_vars),
                        names_of(attribute_vars),
                        names_of(draw_buf_vars),
                    ) is None
                    &&& pass.shader == program.program
                    &&& pass.fbos@ == handles_run(old(gl).next_handle as int, n_fbos as nat)
                    &&& pass.vaos@ == handles_run(old(gl).next_handle + n_fbos, n_vaos as nat)
                    &&& table_entries(pass.uniforms) == resolved_table(
                        names_of(uniform_vars),
                        program.uniforms@,
                        names_of(uniform_vars).len(),
                    )
                    &&& table_entries(pass.attributes) == resolved_table(
                        names_of(attribute_vars),
                        program.attributes@,
                        names_of(attribute_vars).len(),
                    )
                    &&& table_entries(pass.draw_buffers) == resolved_table(
                        names_of(draw_buf_vars),
                        program.outputs@,
                        names_of(draw_buf_vars).len(),
                    )
                    &&& registered(table_entries(pass.uniforms), names_of(uniform_vars), program.uniforms@)
                    &&& registered(
                        table_entries(pass.attributes),
                        names_of(attribute_vars),
                        program.attributes@,
                    )
                    &&& registered(table_entries(pass.draw_buffers), names_of(draw_buf_vars), program.outputs@)
                },
                Err(e) => setup_failure(
                    *program,
                    u32::MAX - old(gl).next_handle,
                    n_fbos as nat,
                    n_vaos as nat,
                    names_of(uniform_vars),
                    names_of(attribute_vars),
                    names_of(draw_buf_vars),
                ) == Some(e),
            },
    {
        let ghost first = gl.next_handle as int;
        let ghost empty = Seq::<GlCommand<S>>::empty();
        assert(gl.commands@ =~= old(gl).commands@ + empty);
        if !program.vertex.compiled {
            return Err(PassError::CompileVertex(program.vertex.log.clone()));
        }
        if !program.fragment.compiled {
            return Err(PassError::CompileFragment(program.fragment.log.clone()));
        }
        if !program.linked {
            return Err(PassError::Link(program.log.clone()));
        }
        let fbos = match create_objects(gl, Resource::Framebuffer, n_fbos) {
            Some(handles) => handles,
            None => {
                return Err(PassError::Create(Resource::Framebuffer));
            },
        };
        let ghost mid = gl.commands@;
        let vaos = match create_objects(gl, Resource::VertexArray, n_vaos) {
            Some(handles) => handles,
            None => {
                assert(gl.commands@ =~= old(gl).commands@ + setup_commands::<S>(
                    *program,
                    first,
                    u32::MAX - first,
                    n_fbos as nat,
                    n_vaos as nat,
                ));
                return Err(PassError::Create(Resource::VertexArray));
            },
        };
        assert(gl.commands@ =~= old(gl).commands@ + setup_commands::<S>(
            *program,
            first,
            u32::MAX - first,
            n_fbos as nat,
            n_vaos as nat,
        ));
        let uniforms = match uniform_vars {
            Some(vars) => match resolve_names(vars, &program.uniforms) {
                Ok(table) => table,
                Err(missing) => {
                    return Err(PassError::MissingUniform(vars[missing]));
                },
            },
            None => empty_table(),
        };
        let attributes = match attribute_vars {
            Some(vars) => match resolve_names(vars, &program.attributes) {
                Ok(table) => table,
                Err(missing) => {
                    return Err(PassError::MissingAttribute(vars[missing]));
                },
            },
            None => empty_table(),
        };
        let draw_buffers = match draw_buf_vars {
            Some(vars) => match resolve_names(vars, &program.outputs) {
                Ok(table) => table,
                Err(missing) => {
                    return Err(PassError::MissingOutput(vars[missing]));
                },
            },
            None => empty_table(),
        };
        proof {
            lemma_registered(names_of(uniform_vars), program.uniforms@);
            lemma_registered(names_of(attribute_vars), program.attributes@);
            lemma_registered(names_of(draw_buf_vars), program.outputs@);
        }
        Ok(RenderPass { shader: program.program, fbos, vaos, uniforms, attributes, draw_buffers })
    }
}

/// A table with no name in it.
fn empty_table() -> (table: FxHashMap<&'static str, u32>)
    ensures
        table_entries(table) == Map::<Seq<char>, u32>::empty(),
{
    let table = table_new();
    assert(table_entries(table) =~= Map::<Seq<char>, u32>::empty());
    table
}


/// What reserving a buffer records.
pub open spec fn buffer_alloc_commands<S>(buffer: u32, size: i32, hint: u32) -> Seq<GlCommand<S>> {
    seq![
        GlCommand::CreateBuffer(buffer),
        GlCommand::BindBuffer { target: ARRAY_BUFFER, buffer: Some(buffer) },
        GlCommand::BufferReserve { target: ARRAY_BUFFER, size, usage: hint },
        GlCommand::BindBuffer { target: ARRAY_BUFFER, buffer: None },
    ]
}

/// What uploading `data` into a new buffer records.
pub open spec fn buffer_data_commands<S>(buffer: u32, data: Vec<S>, hint: u32) -> Seq<GlCommand<S>> {
    seq![
        GlCommand::CreateBuffer(buffer),
        GlCommand::BindBuffer { target: ARRAY_BUFFER, buffer: Some(buffer) },
        GlCommand::BufferData { target: ARRAY_BUFFER, data, usage: hint },
        GlCommand::BindBuffer { target: ARRAY_BUFFER, buffer: None },
    ]
}

/// What uploading whole-numbered components into a new buffer records.
pub open spec fn buffer_whole_commands<S>(buffer: u32, data: Vec<i32>, hint: u32) -> Seq<GlCommand<S>> {
    seq![
        GlCommand::CreateBuffer(buffer),
        GlCommand::BindBuffer { target: ARRAY_BUFFER, buffer: Some(buffer) },
        GlCommand::BufferDataWhole { target: ARRAY_BUFFER, data, usage: hint },
        GlCommand::BindBuffer { target: ARRAY_BUFFER, buffer: None },
    ]
}

/// What binding a buffer to an attribute of a vertex array records. The
/// divisor is set whatever it is, so that none set before stays in force:
/// zero advances the attribute with each vertex, `n > 0` with every `n`
/// instances.
pub open spec fn vao_buffer_commands<S>(
    vao: Option<u32>,
    buffer: u32,
    attrib: u32,
    size: i32,
    stride: i32,
    offset: i32,
    normalize: bool,
    divisor: u32,
) -> Seq<GlCommand<S>> {
    seq![
        GlCommand::BindVertexArray(vao),
        GlCommand::BindBuffer { target: ARRAY_BUFFER, buffer: Some(buffer) },
        GlCommand::EnableVertexAttribArray(attrib),
        GlCommand::VertexAttribPointer {
            index: attrib,
            size,
            kind: FLOAT,
            normalized: normalize,
            stride,
            offset,
        },
        GlCommand::VertexAttribDivisor { index: attrib, divisor },
        GlCommand::BindBuffer { target: ARRAY_BUFFER, buffer: None },
        GlCommand::BindVertexArray(None),
    ]
}

/// What attaching a new renderbuffer to a framebuffer records.
pub open spec fn fb_renderbuffer_commands<S>(
    fbo: Option<u32>,
    rbo: u32,
    samples: i32,
    format: u32,
    attachment: u32,
    width: i32,
    height: i32,
) -> Seq<GlCommand<S>> {
    seq![
        GlCommand::BindFramebuffer { target: FRAMEBUFFER, framebuffer: fbo },
        GlCommand::CreateRenderbuffer(rbo),
        GlCommand::BindRenderbuffer { target: RENDERBUFFER, renderbuffer: Some(rbo) },
        GlCommand::RenderbufferStorageMultisample { target: RENDERBUFFER, samples, format, width, height },
        GlCommand::FramebufferRenderbuffer {
            target: FRAMEBUFFER,
            attachment,
            renderbuffer_target: RENDERBUFFER,
            renderbuffer: Some(rbo),
        },
        GlCommand::BindRenderbuffer { target: RENDERBUFFER, renderbuffer: None },
        GlCommand::BindFramebuffer { target: FRAMEBUFFER, framebuffer: None },
    ]
}

/// What attaching a new texture to a framebuffer records.
pub open spec fn fb_texture_commands<S>(
    fbo: Option<u32>,
    tex: u32,
    unit: u32,
    format: u32,
    attachment: u32,
    width: i32,
    height: i32,
) -> Seq<GlCommand<S>> {
    seq![
        GlCommand::BindFramebuffer { target: FRAMEBUFFER, framebuffer: fbo },
        GlCommand::CreateTexture(tex),
        GlCommand::ActiveTexture(unit),
        GlCommand::BindTexture { target: TEXTURE_2D, texture: Some(tex) },
        GlCommand::TexParameteri { target: TEXTURE_2D, name: TEXTURE_MAG_FILTER, value: NEAREST as i32 },
        GlCommand::TexParameteri { target: TEXTURE_2D, name: TEXTURE_MIN_FILTER, value: NEAREST as i32 },
        GlCommand::TexParameteri { target: TEXTURE_2D, name: TEXTURE_WRAP_S, value: CLAMP_TO_EDGE as i32 },
        GlCommand::TexParameteri { target: TEXTURE_2D, name: TEXTURE_WRAP_T, value: CLAMP_TO_EDGE as i32 },
        GlCommand::TexStorage2d { target: TEXTURE_2D, levels: 1, format, width, height },
        GlCommand::FramebufferTexture2d {
            target: FRAMEBUFFER,
            attachment,
            texture_target: TEXTURE_2D,
            texture: Some(tex),
            level: 0,
        },
        GlCommand::BindTexture { target: TEXTURE_2D, texture: None },
        GlCommand::BindFramebuffer { target: FRAMEBUFFER, framebuffer: None },
    ]
}

/// What binding a texture to a sampler uniform records.
pub open spec fn uniform_texture_commands<S>(location: u32, texture: u32, unit: u32) -> Seq<GlCommand<S>> {
    seq![
        GlCommand::ActiveTexture(unit),
        GlCommand::BindTexture { target: TEXTURE_2D, texture: Some(texture) },
        GlCommand::Uniform1i { location, value: (unit - TEXTURE0) as i32 },
    ]
}

/// What making a pass current records.
pub open spec fn active_commands<S>(shader: u32, fbo: Option<u32>, vao: Option<u32>) -> Seq<GlCommand<S>> {
    seq![
        GlCommand::UseProgram(Some(shader)),
        GlCommand::BindFramebuffer { target: FRAMEBUFFER, framebuffer: fbo },
        GlCommand::BindVertexArray(vao),
    ]
}

/// What declaring the colour targets `list` of a framebuffer records.
pub open spec fn draw_buffers_commands<S>(fbo: Option<u32>, list: Vec<u32>) -> Seq<GlCommand<S>> {
    seq![
        GlCommand::BindFramebuffer { target: FRAMEBUFFER, framebuffer: fbo },
        GlCommand::DrawBuffers(list),
        GlCommand::BindFramebuffer { target: FRAMEBUFFER, framebuffer: None },
    ]
}

impl RenderPass {
    /// Creates a buffer with a store of `size` bytes.
    pub fn buffer_alloc<S>(
        &self,
        gl: &mut Gl<S>,
        size: i32,
        hint: u32,
    ) -> (outcome: Result<GpuBuffer, PassError>)
        requires
            size >= 0,
        ensures
            match outcome {
                Ok(buffer) => buffer == (GpuBuffer { id: old(gl).next_handle, bytes: size })
                    && final(gl).follows(*old(gl), buffer_alloc_commands(old(gl).next_handle, size, hint), 1),
                Err(e) => e == PassError::Create(Resource::Buffer) && old(gl).next_handle == u32::MAX
                    && *final(gl) == *old(gl),
            },
    {
        let buffer = match gl.create(Resource::Buffer) {
            Some(handle) => handle,
            None => {
                return Err(PassError::Create(Resource::Buffer));
            },
        };
        gl.issue(GlCommand::BindBuffer { target: ARRAY_BUFFER, buffer: Some(buffer) });
        gl.issue(GlCommand::BufferReserve { target: ARRAY_BUFFER, size, usage: hint });
        gl.issue(GlCommand::BindBuffer { target: ARRAY_BUFFER, buffer: None });
        assert(gl.commands@ =~= old(gl).commands@ + buffer_alloc_commands::<S>(buffer, size, hint));
        Ok(GpuBuffer { id: buffer, bytes: size })
    }

    /// Creates a buffer that holds `data`, four bytes a component.
    pub fn buffer_data<S>(
        &self,
        gl: &mut Gl<S>,
        data: Vec<S>,
        hint: u32,
    ) -> (outcome: Result<GpuBuffer, PassError>)
        requires
            4 * data@.len() <= i32::MAX,
        ensures
            match outcome {
                Ok(buffer) => buffer == (GpuBuffer {
                    id: old(gl).next_handle,
                    bytes: (4 * data@.len()) as i32,
                }) && final(gl).follows(*old(gl), buffer_data_commands(old(gl).next_handle, data, hint), 1),
                Err(e) => e == PassError::Create(Resource::Buffer) && old(gl).next_handle == u32::MAX
                    && *final(gl) == *old(gl),
            },
    {
        let buffer = match gl.create(Resource::Buffer) {
            Some(handle) => handle,
            None => {
                return Err(PassError::Create(Resource::Buffer));
            },
        };
        let bytes = (4 * data.len()) as i32;
        gl.issue(GlCommand::BindBuffer { target: ARRAY_BUFFER, buffer: Some(buffer) });
        gl.issue(GlCommand::BufferData { target: ARRAY_BUFFER, data, usage: hint });
        gl.issue(GlCommand::BindBuffer { target: ARRAY_BUFFER, buffer: None });
        assert(gl.commands@ =~= old(gl).commands@ + buffer_data_commands::<S>(buffer, data, hint));
        Ok(GpuBuffer { id: buffer, bytes })
    }

    /// Creates a buffer that holds the whole numbers `data` as
    /// floating-point components, four bytes each.
    pub fn buffer_data_whole<S>(
        &self,
        gl: &mut Gl<S>,
        data: Vec<i32>,
        hint: u32,
    ) -> (outcome: Result<GpuBuffer, PassError>)
        requires
            4 * data@.len() <= i32::MAX,
        ensures
            match outcome {
                Ok(buffer) => buffer == (GpuBuffer {
                    id: old(gl).next_handle,
                    bytes: (4 * data@.len()) as i32,
                }) && final(gl).follows(*old(gl), buffer_whole_commands(old(gl).next_handle, data, hint), 1),
                Err(e) => e == PassError::Create(Resource::Buffer) && old(gl).next_handle == u32::MAX
                    && *final(gl) == *old(gl),
            },
    {
        let buffer = match gl.create(Resource::Buffer) {
            Some(handle) => handle,
            None => {
                return Err(PassError::Create(Resource::Buffer));
            },
        };
        let bytes = (4 * data.len()) as i32;
        gl.issue(GlCommand::BindBuffer { target: ARRAY_BUFFER, buffer: Some(buffer) });
        gl.issue(GlCommand::BufferDataWhole { target: ARRAY_BUFFER, data, usage: hint });
        gl.issue(GlCommand::BindBuffer { target: ARRAY_BUFFER, buffer: None });
        assert(gl.commands@ =~= old(gl).commands@ + buffer_whole_commands::<S>(buffer, data, hint));
        Ok(GpuBuffer { id: buffer, bytes })
    }

    /// Binds `buffer` into the attribute `attribute_var` of vertex array
    /// `vao`: `size` components a vertex, `stride` and `offset` in bytes.
    /// With `divisor` zero the attribute advances with each vertex, with
    /// `divisor` above zero with every `divisor` instances; the divisor is
    /// set in both cases, so that an earlier binding of the attribute
    /// leaves none behind. The attribute must be one that the pass
    /// declared.
    pub fn vao_buffer<S>(
        &self,
        gl: &mut Gl<S>,
        vao: usize,
        buffer: &GpuBuffer,
        attribute_var: &str,
        size: i32,
        stride: i32,
        offset: i32,
        normalize: bool,
        divisor: u32,
    )
        requires
            self.attribute_slot(attribute_var@) is Some,
        ensures
            final(gl).follows(
                *old(gl),
                vao_buffer_commands(
                    slot(self.vaos@, vao as int),
                    buffer.id,
                    self.attribute_slot(attribute_var@).unwrap(),
                    size,
                    stride,
                    offset,
                    normalize,
                    divisor,
                ),
                0,
            ),
    {
        gl.issue(GlCommand::BindVertexArray(get_slot(&self.vaos, vao)));
        gl.issue(GlCommand::BindBuffer { target: ARRAY_BUFFER, buffer: Some(buffer.id) });
        let attrib = match table_get(&self.attributes, attribute_var) {
            Some(found) => found,
            None => 0,
        };
        gl.issue(GlCommand::EnableVertexAttribArray(attrib));
        gl.issue(
            GlCommand::VertexAttribPointer {
                index: attrib,
                size,
                kind: FLOAT,
                normalized: normalize,
                stride,
                offset,
            },
        );
        gl.issue(GlCommand::VertexAttribDivisor { index: attrib, divisor });
        gl.issue(GlCommand::BindBuffer { target: ARRAY_BUFFER, buffer: None });
        gl.issue(GlCommand::BindVertexArray(None));
        assert(gl.commands@ =~= old(gl).commands@ + vao_buffer_commands::<S>(
            slot(self.vaos@, vao as int),
            buffer.id,
            attrib,
            size,
            stride,
            offset,
            normalize,
            divisor,
        ));
    }

    /// Attaches a new renderbuffer of the size of the drawing surface to
    /// framebuffer `fbo` at `attachment`.
    pub fn fb_renderbuffer<S>(
        &self,
        gl: &mut Gl<S>,
        fbo: usize,
        samples: i32,
        format: u32,
        attachment: u32,
    ) -> (outcome: Result<(), PassError>)
        ensures
            match outcome {
                Ok(done) => old(gl).next_handle < u32::MAX && final(gl).follows(
                    *old(gl),
                    fb_renderbuffer_commands(
                        slot(self.fbos@, fbo as int),
                        old(gl).next_handle,
                        samples,
                        format,
                        attachment,
                        old(gl).width,
                        old(gl).height,
                    ),
                    1,
                ),
                Err(e) => e == PassError::Create(Resource::Renderbuffer) && old(gl).next_handle
                    == u32::MAX && final(gl).follows(
                    *old(gl),
                    seq![
                        GlCommand::BindFramebuffer {
                            target: FRAMEBUFFER,
                            framebuffer: slot(self.fbos@, fbo as int),
                        },
                    ],
                    0,
                ),
            },
    {
        gl.issue(GlCommand::BindFramebuffer { target: FRAMEBUFFER, framebuffer: get_slot(&self.fbos, fbo) });
        let rbo = match gl.create(Resource::Renderbuffer) {
            Some(handle) => handle,
            None => {
                return Err(PassError::Create(Resource::Renderbuffer));
            },
        };
        gl.issue(GlCommand::BindRenderbuffer { target: RENDERBUFFER, renderbuffer: Some(rbo) });
        let width = gl.drawing_buffer_width();
        let height = gl.drawing_buffer_height();
        gl.issue(
            GlCommand::RenderbufferStorageMultisample { target: RENDERBUFFER, samples, format, width, height },
        );
        gl.issue(
            GlCommand::FramebufferRenderbuffer {
                target: FRAMEBUFFER,
                attachment,
                renderbuffer_target: RENDERBUFFER,
                renderbuffer: Some(rbo),
            },
        );
        gl.issue(GlCommand::BindRenderbuffer { target: RENDERBUFFER, renderbuffer: None });
        gl.issue(GlCommand::BindFramebuffer { target: FRAMEBUFFER, framebuffer: None });
        assert(gl.commands@ =~= old(gl).commands@ + fb_renderbuffer_commands::<S>(
            slot(self.fbos@, fbo as int),
            rbo,
            samples,
            format,
            attachment,
            width,
            height,
        ));
        Ok(())
    }

    /// Attaches a new texture of the size of the drawing surface to
    /// framebuffer `fbo` at `attachment`, and returns its handle for later
    /// passes to sample.
    pub fn fb_texture<S>(
        &self,
        gl: &mut Gl<S>,
        fbo: usize,
        unit: u32,
        format: u32,
        attachment: u32,
    ) -> (outcome: Result<u32, PassError>)
        ensures
            match outcome {
                Ok(tex) => tex == old(gl).next_handle && tex < u32::MAX && final(gl).follows(
                    *old(gl),
                    fb_texture_commands(
                        slot(self.fbos@, fbo as int),
                        tex,
                        unit,
                        format,
                        attachment,
                        old(gl).width,
                        old(gl).height,
                    ),
                    1,
                ),
                Err(e) => e == PassError::Create(Resource::Texture) && old(gl).next_handle == u32::MAX
                    && final(gl).follows(
                    *old(gl),
                    seq![
                        GlCommand::BindFramebuffer {
                            target: FRAMEBUFFER,
                            framebuffer: slot(self.fbos@, fbo as int),
                        },
                    ],
                    0,
                ),
            },
    {
        gl.issue(GlCommand::BindFramebuffer { target: FRAMEBUFFER, framebuffer: get_slot(&self.fbos, fbo) });
        let tex = match gl.create(Resource::Texture) {
            Some(handle) => handle,
            None => {
                return Err(PassError::Create(Resource::Texture));
            },
        };
        gl.issue(GlCommand::ActiveTexture(unit));
        gl.issue(GlCommand::BindTexture { target: TEXTURE_2D, texture: Some(tex) });
        gl.issue(GlCommand::TexParameteri { target: TEXTURE_2D, name: TEXTURE_MAG_FILTER, value: NEAREST as i32 });
        gl.issue(GlCommand::TexParameteri { target: TEXTURE_2D, name: TEXTURE_MIN_FILTER, value: NEAREST as i32 });
        gl.issue(
            GlCommand::TexParameteri { target: TEXTURE_2D, name: TEXTURE_WRAP_S, value: CLAMP_TO_EDGE as i32 },
        );
        gl.issue(
            GlCommand::TexParameteri { target: TEXTURE_2D, name: TEXTURE_WRAP_T, value: CLAMP_TO_EDGE as i32 },
        );
        let width = gl.drawing_buffer_width();
        let height = gl.drawing_buffer_height();
        gl.issue(GlCommand::TexStorage2d { target: TEXTURE_2D, levels: 1, format, width, height });
        gl.issue(
            GlCommand::FramebufferTexture2d {
                target: FRAMEBUFFER,
                attachment,
                texture_target: TEXTURE_2D,
                texture: Some(tex),
                level: 0,
            },
        );
        gl.issue(GlCommand::BindTexture { target: TEXTURE_2D, texture: None });
        gl.issue(GlCommand::BindFramebuffer { target: FRAMEBUFFER, framebuffer: None });
        assert(gl.commands@ =~= old(gl).commands@ + fb_texture_commands::<S>(
            slot(self.fbos@, fbo as int),
            tex,
            unit,
            format,
            attachment,
            width,
            height,
        ));
        Ok(tex)
    }

    /// Binds the texture `val` to texture unit `unit` and points the
    /// sampler uniform `var` at that unit. The uniform must be one that the
    /// pass declared, and `unit` a texture unit.
    pub fn uniform_texture<S>(&self, gl: &mut Gl<S>, var: &str, val: u32, unit: u32)
        requires
            self.uniform_slot(var@) is Some,
            TEXTURE0 <= unit,
            unit - TEXTURE0 <= i32::MAX,
        ensures
            final(gl).follows(
                *old(gl),
                uniform_texture_commands(self.uniform_slot(var@).unwrap(), val, unit),
                0,
            ),
    {
        let location = match table_get(&self.uniforms, var) {
            Some(found) => found,
            None => 0,
        };
        gl.issue(GlCommand::ActiveTexture(unit));
        gl.issue(GlCommand::BindTexture { target: TEXTURE_2D, texture: Some(val) });
        gl.issue(GlCommand::Uniform1i { location, value: (unit - TEXTURE0) as i32 });
        assert(gl.commands@ =~= old(gl).commands@ + uniform_texture_commands::<S>(location, val, unit));
    }

    /// Uploads a 4×4 matrix, sixteen components in column order, to the
    /// uniform `var`, which the pass must have declared.
    pub fn uniform_mat4<S>(&self, gl: &mut Gl<S>, var: &str, val: [S; 16])
        requires
            self.uniform_slot(var@) is Some,
        ensures
            final(gl).follows(
                *old(gl),
                seq![
                    GlCommand::UniformMatrix4fv {
                        location: self.uniform_slot(var@).unwrap(),
                        transpose: false,
                        value: val,
                    },
                ],
                0,
            ),
    {
        let location = match table_get(&self.uniforms, var) {
            Some(found) => found,
            None => 0,
        };
        gl.issue(GlCommand::UniformMatrix4fv { location, transpose: false, value: val });
    }

    /// Uploads three components to the uniform `var`, which the pass must
    /// have declared.
    pub fn uniform_vec3<S>(&self, gl: &mut Gl<S>, var: &str, val: [S; 3])
        requires
            self.uniform_slot(var@) is Some,
        ensures
            final(gl).follows(
                *old(gl),
                seq![GlCommand::Uniform3fv { location: self.uniform_slot(var@).unwrap(), value: val }],
                0,
            ),
    {
        let location = match table_get(&self.uniforms, var) {
            Some(found) => found,
            None => 0,
        };
        gl.issue(GlCommand::Uniform3fv { location, value: val });
    }

    /// Uploads one component to the uniform `var`, which the pass must have
    /// declared.
    pub fn uniform_float<S>(&self, gl: &mut Gl<S>, var: &str, val: S)
        requires
            self.uniform_slot(var@) is Some,
        ensures
            final(gl).follows(
                *old(gl),
                seq![GlCommand::Uniform1f { location: self.uniform_slot(var@).unwrap(), value: val }],
                0,
            ),
    {
        let location = match table_get(&self.uniforms, var) {
            Some(found) => found,
            None => 0,
        };
        gl.issue(GlCommand::Uniform1f { location, value: val });
    }

    /// Declares which colour attachments of framebuffer `fbo` receive the
    /// fragment outputs: the first of `vars`, one for each output that the
    /// pass declared, in the order in which the shader declares them.
    pub fn set_draw_buffers<S>(&self, gl: &mut Gl<S>, fbo: usize, vars: &[u32])
        requires
            table_entries(self.draw_buffers).dom().len() <= vars@.len(),
        ensures
            exists|list: Vec<u32>|
                list@ == vars@.take(table_entries(self.draw_buffers).dom().len() as int) && final(gl).follows(
                    *old(gl),
                    #[trigger] draw_buffers_commands(slot(self.fbos@, fbo as int), list),
                    0,
                ),
    {
        gl.issue(GlCommand::BindFramebuffer { target: FRAMEBUFFER, framebuffer: get_slot(&self.fbos, fbo) });
        let len = table_len(&self.draw_buffers);
        let mut args: Vec<u32> = Vec::new();
        let mut i: usize = 0;
        while i < len
            invariant
                i <= len,
                len <= vars@.len(),
                args@ == vars@.take(i as int),
            decreases len - i,
        {
            args.push(vars[i]);
            assert(args@ =~= vars@.take(i + 1));
            i += 1;
        }
        let ghost list = args;
        gl.issue(GlCommand::DrawBuffers(args));
        gl.issue(GlCommand::BindFramebuffer { target: FRAMEBUFFER, framebuffer: None });
        assert(gl.commands@ =~= old(gl).commands@ + draw_buffers_commands::<S>(
            slot(self.fbos@, fbo as int),
            list,
        ));
    }

    /// Makes the pass current: its program, framebuffer `fbo` and vertex
    /// array `vao`. An index past the last framebuffer selects the drawing
    /// surface; one past the last vertex array selects none.
    pub fn active<S>(&self, gl: &mut Gl<S>, fbo: usize, vao: usize)
        ensures
            final(gl).follows(
                *old(gl),
                active_commands(self.shader, slot(self.fbos@, fbo as int), slot(self.vaos@, vao as int)),
                0,
            ),
    {
        gl.issue(GlCommand::UseProgram(Some(self.shader)));
        gl.issue(GlCommand::BindFramebuffer { target: FRAMEBUFFER, framebuffer: get_slot(&self.fbos, fbo) });
        gl.issue(GlCommand::BindVertexArray(get_slot(&self.vaos, vao)));
        assert(gl.commands@ =~= old(gl).commands@ + active_commands::<S>(
            self.shader,
            slot(self.fbos@, fbo as int),
            slot(self.vaos@, vao as int),
        ));
    }

    /// Location of the uniform `name`, if the pass declared it.
    pub fn uniform_location(&self, name: &str) -> (found: Option<u32>)
        ensures
            found == self.uniform_slot(name@),
    {
        table_get(&self.uniforms, name)
    }

    /// Slot of the attribute `name`, if the pass declared it.
    pub fn attribute_location(&self, name: &str) -> (found: Option<u32>)
        ensures
            found == self.attribute_slot(name@),
    {
        table_get(&self.attributes, name)
    }

    /// Slot of the fragment output `name`, if the pass declared it.
    pub fn output_location(&self, name: &str) -> (found: Option<u32>)
        ensures
            found == self.output_slot(name@),
    {
        table_get(&self.draw_buffers, name)
    }
}


/// What is current on the context: the program in use, the framebuffer
/// drawn into and the vertex array drawn from.
pub struct Bindings {
    pub program: Option<u32>,
    pub framebuffer: Option<u32>,
    pub vertex_array: Option<u32>,
}

/// What is current after `command`, if `state` was before it.
pub open spec fn bind<S>(state: Bindings, command: GlCommand<S>) -> Bindings {
    match command {
        GlCommand::UseProgram(program) => Bindings { program, ..state },
        GlCommand::BindFramebuffer { target, framebuffer } => if target == FRAMEBUFFER || target
            == DRAW_FRAMEBUFFER {
            Bindings { framebuffer, ..state }
        } else {
            state
        },
        GlCommand::BindVertexArray(vertex_array) => Bindings { vertex_array, ..state },
        _ => state,
    }
}

/// What is current after `commands`, carried out in order from `state`.
pub open spec fn bound_after<S>(state: Bindings, commands: Seq<GlCommand<S>>) -> Bindings
    decreases commands.len(),
{
    if commands.len() == 0 {
        state
    } else {
        bind(bound_after(state, commands.drop_last()), commands.last())
    }
}

/// Carrying out `first` and then `second` is carrying out their
/// concatenation.
pub proof fn lemma_bound_after_concat<S>(state: Bindings, first: Seq<GlCommand<S>>, second: Seq<GlCommand<S>>)
    ensures
        bound_after(state, first + second) == bound_after(bound_after(state, first), second),
    decreases second.len(),
{
    if second.len() == 0 {
        assert(first + second =~= first);
    } else {
        lemma_bound_after_concat(state, first, second.drop_last());
        assert((first + second).drop_last() =~= first + second.drop_last());
        assert((first + second).last() == second.last());
    }
}

/// Making a pass current binds its program, framebuffer and vertex array,
/// whatever was current before.
pub proof fn lemma_active_binds<S>(state: Bindings, shader: u32, fbo: Option<u32>, vao: Option<u32>)
    ensures
        bound_after(state, active_commands::<S>(shader, fbo, vao)) == (Bindings {
            program: Some(shader),
            framebuffer: fbo,
            vertex_array: vao,
        }),
{
    let all = active_commands::<S>(shader, fbo, vao);
    assert(all.len() == 3);
    let two = all.drop_last();
    let one = two.drop_last();
    let none = one.drop_last();
    assert(none.len() == 0);
    assert(bound_after(state, none) == state);
    assert(one.last() == all[0]);
    assert(bound_after(state, one) == bind(state, all[0]));
    assert(two.last() == all[1]);
    assert(bound_after(state, two) == bind(bound_after(state, one), all[1]));
    assert(all.last() == all[2]);
    assert(bound_after(state, all) == bind(bound_after(state, two), all[2]));
}

/// Making a pass current twice in a row leaves the same state current as
/// making it current once.
pub proof fn lemma_active_idempotent<S>(state: Bindings, shader: u32, fbo: Option<u32>, vao: Option<u32>)
    ensures
        bound_after(
            state,
            active_commands::<S>(shader, fbo, vao) + active_commands::<S>(shader, fbo, vao),
        ) == bound_after(state, active_commands::<S>(shader, fbo, vao)),
{
    let once = active_commands::<S>(shader, fbo, vao);
    lemma_bound_after_concat(state, once, once);
    lemma_active_binds::<S>(state, shader, fbo, vao);
    lemma_active_binds::<S>(bound_after(state, once), shader, fbo, vao);
}

} // verus!
