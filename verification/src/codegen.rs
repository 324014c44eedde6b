use vstd::prelude::*;
use codespan::FileId;
use codespan::Span;

pub mod includes;
pub mod variables;
pub mod lowering;
pub mod c;
pub mod laws;

verus! {

/// The family of the platform on which the generated program will wait for
/// a key before it ends.
#[derive(Clone, Copy, Debug, PartialEq, Eq, Structural)]
pub enum Host {
    Windows,
    Other,
}

/// What a compilation is configured with.
#[derive(Debug)]
pub struct CodegenConfig {
    /// The target platform triple, named in the banner of the output.
    pub target_triple: String,
    /// The platform family that decides how the entry point waits.
    pub host: Host,
}

/// A failed compilation.
#[derive(Debug)]
pub enum CompileError {
    CodegenError { message: String, span: Option<Span>, file_id: FileId },
}

/// What a failed compilation reports, apart from the file it was found in.
pub struct Diagnostic {
    pub message: Seq<char>,
    pub span: Option<Span>,
}

impl CompileError {
    /// The message and span of the failure.
    pub open spec fn diagnostic(&self) -> Diagnostic {
        match *self {
            CompileError::CodegenError { message, span, file_id } => Diagnostic {
                message: message@,
                span: span,
            },
        }
    }

    /// The source file that the failure belongs to.
    pub open spec fn file(&self) -> FileId {
        match *self {
            CompileError::CodegenError { message, span, file_id } => file_id,
        }
    }
}

} // verus!
