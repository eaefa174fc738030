//! Annotations: typed byte ranges of a text, used for highlighting.
use vstd::prelude::*;

verus! {

/// What an annotated range of text is.
#[derive(Copy, Clone, Eq, PartialEq, Structural, Debug)]
pub enum AnnotationType {
    Match,
    SelectedMatch,
    Number,
    Keyword,
    Type,
    KnownValue,
    Char,
    LifetimeSpecifier,
    Comment,
    String,
    Replacement,
    Selection,
    Error,
    Warning,
    Information,
    Hint,
    Attribute,
    Boolean,
    Constant,
    Function,
    Macro,
    Method,
    Operator,
    Property,
    Punctuation,
    Variable,
}

/// A typed range of bytes `[start, end)`.
#[derive(Copy, Clone, Eq, PartialEq, Structural, Debug)]
pub struct Annotation {
    pub annotation_type: AnnotationType,
    pub start: usize,
    pub end: usize,
}

} // verus!
