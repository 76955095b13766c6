use vstd::prelude::*;
use crate::span::Span;

verus! {

/// An error reported by one of the compiler's stages.
#[derive(Debug)]
pub enum CompileError {
    Syntax { msg: String, span: Span },
    Type { msg: String, span: Span },
    Codegen { msg: String },
    Link { msg: String },
    Manifest { msg: String, path: String },
    SiblingFile { path: String, source: Box<CompileError> },
    Toolchain(String),
    VersionNotFound(String),
    Network(String),
}

impl CompileError {
    pub fn syntax(msg: String, span: Span) -> (e: CompileError)
        ensures
            e == (CompileError::Syntax { msg, span }),
    {
        CompileError::Syntax { msg, span }
    }

    pub fn type_err(msg: String, span: Span) -> (e: CompileError)
        ensures
            e == (CompileError::Type { msg, span }),
    {
        CompileError::Type { msg, span }
    }

    pub fn codegen(msg: String) -> (e: CompileError)
        ensures
            e == (CompileError::Codegen { msg }),
    {
        CompileError::Codegen { msg }
    }

    pub fn toolchain(msg: String) -> (e: CompileError)
        ensures
            e == CompileError::Toolchain(msg),
    {
        CompileError::Toolchain(msg)
    }

    pub fn version_not_found(msg: String) -> (e: CompileError)
        ensures
            e == CompileError::VersionNotFound(msg),
    {
        CompileError::VersionNotFound(msg)
    }

    pub fn network(msg: String) -> (e: CompileError)
        ensures
            e == CompileError::Network(msg),
    {
        CompileError::Network(msg)
    }
}

/// A warning reported by the type checker.
#[derive(Debug, Clone)]
pub struct CompileWarning {
    pub msg: String,
    pub span: Span,
}

} // verus!
