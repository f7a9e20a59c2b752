//! Shading programs: the fail-fast build decision over the backend's
//! compile and link reports, and the named uniform table each pass's
//! parameters are routed through.
//!
//! The backend compiles and links opaque shader text and reports a status
//! flag and a diagnostic log per stage; those plain reports are decided
//! here. A program whose compile or link failed is never constructed.

use vstd::prelude::*;

verus! {

/// A setup-time failure of the pipeline. All failures here are fatal by
/// design: a broken pass would corrupt every downstream frame.
#[derive(Clone, Debug)]
pub enum PipelineError {
    /// Shader source rejected by the backend, with its diagnostic log.
    CompileError { log: String },
    /// Stage interfaces incompatible, with the backend's diagnostic log.
    LinkError { log: String },
    /// Texture or framebuffer allocation failed.
    ResourceExhaustion,
    /// A pass expects a named parameter the program does not expose.
    UniformBindingMismatch,
}

/// A shading stage of a program.
#[derive(Clone, Copy, PartialEq, Eq, Structural, Debug)]
pub enum StageKind {
    Vertex,
    Fragment,
}

/// The named per-draw parameters a pass may route into a program.
#[derive(Clone, Copy, PartialEq, Eq, Structural, Debug)]
pub enum UniformName {
    /// Elapsed time, fixed point seconds.
    Time,
    /// The frame index.
    FrameIndex,
    /// The ordinal of the pass within the frame.
    PassIndex,
    /// The first bound sampler.
    Channel0,
    /// The second bound sampler.
    Channel1,
}

/// What the backend reported for one compile or link call: a status flag
/// and the diagnostic log.
#[derive(Clone, Debug)]
pub struct StageReport {
    pub ok: bool,
    pub log: String,
}

/// A linked program: its uniform table, resolved once at link time,
/// mapping each exposed parameter name to its slot.
#[derive(Clone, Debug)]
pub struct Program {
    pub uniforms: Vec<(UniformName, u32)>,
}

/// The table exposes the named parameter.
pub open spec fn table_has(tab: Seq<(UniformName, u32)>, n: UniformName) -> bool {
    exists|i: int| 0 <= i < tab.len() && (#[trigger] tab[i]).0 == n
}

/// The source text holds no NUL byte, so the backend, which takes
/// NUL-terminated text, can carry it whole.
pub open spec fn source_ok(s: Seq<u8>) -> bool {
    forall|i: int| 0 <= i < s.len() ==> s[i] != 0
}

/// Validate shader source before it is handed to the backend: `Ok`
/// exactly when it holds no NUL byte, and the fatal compile error
/// otherwise — the byte would silently truncate the source.
pub fn validate_source(src: &[u8]) -> (r: Result<(), PipelineError>)
    ensures
        r is Ok <==> source_ok(src@),
        r is Err ==> r matches Err(PipelineError::CompileError { .. }),
{
    let n = src.len();
    let mut i: usize = 0;
    while i < n
        invariant
            n == src@.len(),
            i <= n,
            forall|j: int| 0 <= j < i ==> src@[j] != 0,
        decreases n - i,
    {
        if src[i] == 0 {
            proof {
                assert(src@[i as int] == 0);
            }
            return Err(
                PipelineError::CompileError {
                    log: "shader source contains a NUL byte".to_string(),
                },
            );
        }
        i += 1;
    }
    Ok(())
}

/// Decide the outcome of building a program from the backend's reports:
/// fail fast on the first failed stage, propagating its diagnostic, and
/// only construct a program when every stage succeeded.
pub fn build_program(
    vs: StageReport,
    fs: StageReport,
    link: StageReport,
    uniforms: Vec<(UniformName, u32)>,
) -> (r: Result<Program, PipelineError>)
    ensures
        r is Ok <==> (vs.ok && fs.ok && link.ok),
        (match r {
            Ok(p) => p.uniforms@ == uniforms@,
            Err(e) => {
                &&& !vs.ok ==> (e matches PipelineError::CompileError { log } && log@ == vs.log@)
                &&& (vs.ok && !fs.ok) ==> (e matches PipelineError::CompileError { log } && log@
                    == fs.log@)
                &&& (vs.ok && fs.ok && !link.ok) ==> (e matches PipelineError::LinkError { log }
                    && log@ == link.log@)
            },
        }),
{
    if !vs.ok {
        Err(PipelineError::CompileError { log: vs.log })
    } else if !fs.ok {
        Err(PipelineError::CompileError { log: fs.log })
    } else if !link.ok {
        Err(PipelineError::LinkError { log: link.log })
    } else {
        Ok(Program { uniforms })
    }
}

impl Program {
    /// Look the named parameter up in the uniform table: its slot when
    /// the program exposes it, `None` otherwise.
    pub fn lookup(&self, n: UniformName) -> (r: Option<u32>)
        ensures
            r is Some <==> table_has(self.uniforms@, n),
            (match r {
                Some(slot) => exists|i: int|
                    0 <= i < self.uniforms@.len() && (#[trigger] self.uniforms@[i]) == (n, slot),
                None => true,
            }),
    {
        let mut i: usize = 0;
        while i < self.uniforms.len()
            invariant
                i <= self.uniforms@.len(),
                forall|j: int| 0 <= j < i ==> (#[trigger] self.uniforms@[j]).0 != n,
            decreases self.uniforms@.len() - i,
        {
            let (name, slot) = self.uniforms[i];
            if name == n {
                return Some(slot);
            }
            i += 1;
        }
        None
    }

    /// Validate, once at setup, that the program exposes every parameter
    /// the pass expects to push: `Ok` exactly when it does, and the
    /// fatal configuration error otherwise.
    pub fn validate_uniforms(&self, required: &Vec<UniformName>) -> (r: Result<(), PipelineError>)
        ensures
            r is Ok <==> (forall|i: int|
                0 <= i < required@.len() ==> table_has(self.uniforms@, #[trigger] required@[i])),
            r is Err ==> r matches Err(PipelineError::UniformBindingMismatch),
    {
        let mut i: usize = 0;
        while i < required.len()
            invariant
                i <= required@.len(),
                forall|j: int|
                    0 <= j < i ==> table_has(self.uniforms@, #[trigger] required@[j]),
            decreases required@.len() - i,
        {
            if self.lookup(required[i]).is_none() {
                return Err(PipelineError::UniformBindingMismatch);
            }
            i += 1;
        }
        Ok(())
    }
}

} // verus!
