//! The errors of extraction and transformation.

use vstd::prelude::*;

verus! {

/// Why a transformation failed.
#[derive(Debug)]
pub enum TransformError {
    FileRead(String),
    JsParse { message: String },
    CssParse { message: String },
    JsPanicParse,
    CssTransform { message: String },
    UrlNotFound { url: String },
    CssSerialize { message: String },
    ReplacementNotFound { import: String },
}

/// A transformation error as a mathematical value.
pub enum TransformErrorView {
    FileRead(Seq<char>),
    JsParse { message: Seq<char> },
    CssParse { message: Seq<char> },
    JsPanicParse,
    CssTransform { message: Seq<char> },
    UrlNotFound { url: Seq<char> },
    CssSerialize { message: Seq<char> },
    ReplacementNotFound { import: Seq<char> },
}

impl View for TransformError {
    type V = TransformErrorView;

    open spec fn view(&self) -> TransformErrorView {
        match self {
            TransformError::FileRead(s) => TransformErrorView::FileRead(s@),
            TransformError::JsParse { message } => TransformErrorView::JsParse {
                message: message@,
            },
            TransformError::CssParse { message } => TransformErrorView::CssParse {
                message: message@,
            },
            TransformError::JsPanicParse => TransformErrorView::JsPanicParse,
            TransformError::CssTransform { message } => TransformErrorView::CssTransform {
                message: message@,
            },
            TransformError::UrlNotFound { url } => TransformErrorView::UrlNotFound { url: url@ },
            TransformError::CssSerialize { message } => TransformErrorView::CssSerialize {
                message: message@,
            },
            TransformError::ReplacementNotFound { import } =>
                TransformErrorView::ReplacementNotFound { import: import@ },
        }
    }
}

/// Why the extraction of dependencies failed.
#[derive(Debug)]
pub enum DependencyError {
    FileRead(String),
    JsParse { message: String },
    CssParse { message: String },
    JsPanicParse,
    Extract { message: String },
}

/// An extraction error as a mathematical value.
pub enum DependencyErrorView {
    FileRead(Seq<char>),
    JsParse { message: Seq<char> },
    CssParse { message: Seq<char> },
    JsPanicParse,
    Extract { message: Seq<char> },
}

impl View for DependencyError {
    type V = DependencyErrorView;

    open spec fn view(&self) -> DependencyErrorView {
        match self {
            DependencyError::FileRead(s) => DependencyErrorView::FileRead(s@),
            DependencyError::JsParse { message } => DependencyErrorView::JsParse {
                message: message@,
            },
            DependencyError::CssParse { message } => DependencyErrorView::CssParse {
                message: message@,
            },
            DependencyError::JsPanicParse => DependencyErrorView::JsPanicParse,
            DependencyError::Extract { message } => DependencyErrorView::Extract {
                message: message@,
            },
        }
    }
}

/// Why a run failed.
#[derive(Debug)]
pub enum Error {
    Io(String),
    Glob(String),
    GlobWalk(String),
    Custom(String),
}

} // verus!
