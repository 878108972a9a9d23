use vstd::prelude::*;

verus! {

/// The kinds of failure a session operation can report.
#[derive(Clone, Copy, Debug, PartialEq, Eq, Hash, Structural)]
pub enum ErrorKind {
    /// The encoded manifest could not be decoded (bad base64 or malformed encoding).
    ManifestDecode,
    /// The manifest decoded but violates the model's structural rules.
    ManifestAnalysis,
    /// A remote function's declared return type is unsupported by the engine.
    FunctionTypeMapping,
    /// The engine-side session could not be initialised.
    EngineInit,
    /// The SQL text did not parse to exactly one statement.
    SqlParse,
    /// The engine-side SQL transformation failed.
    SqlTransform,
}

/// A typed error with a human-readable message.
#[derive(Clone, Debug)]
pub struct CoreError {
    pub kind: ErrorKind,
    pub message: String,
}

impl CoreError {
    pub fn new(kind: ErrorKind, message: String) -> (r: CoreError)
        ensures
            r.kind == kind,
            r.message@ == message@,
    {
        CoreError { kind, message }
    }

    /// The kind of this error.
    pub fn kind(&self) -> (r: ErrorKind)
        ensures
            r == self.kind,
    {
        self.kind
    }

    /// The human-readable message of this error.
    pub fn message(&self) -> (r: String)
        ensures
            r@ == self.message@,
    {
        self.message.clone()
    }
}

} // verus!
