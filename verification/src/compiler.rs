//! The handles the JavaScript side holds: a compiler by its id, the
//! transform tasks it starts, their output, and the exit request.

use vstd::prelude::*;

verus! {

/// A compiler, known by the id under which its options are kept.
pub struct JsCompiler {
    pub id: u32,
}

/// Transformed code and its source map.
pub struct Output {
    pub code: String,
    pub map: Option<String>,
}

/// A transform to run with the compiler `compiler_id`.
pub struct TransformTask {
    pub compiler_id: u32,
    pub code: String,
    pub filename: String,
    pub map: Option<String>,
}

impl JsCompiler {
    /// The task that transforms `code` of `filename` with this compiler.
    pub fn transform(&self, filename: String, code: String, map: Option<String>) -> (r: TransformTask)
        ensures
            r.compiler_id == self.id,
            r.code == code,
            r.filename == filename,
            r.map == map,
    {
        TransformTask { compiler_id: self.id, code, filename, map }
    }
}

/// The request to end the process with an exit code.
pub struct Exit(pub i32);

impl Exit {
    /// Whether the process has to be ended: not for code zero, which
    /// means that it is ending normally already.
    pub fn must_exit(&self) -> (r: bool)
        ensures
            r == (self.0 != 0),
    {
        self.0 != 0
    }
}

} // verus!
