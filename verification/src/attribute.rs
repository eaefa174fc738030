//! The colours in which each kind of annotated text is drawn.
use vstd::prelude::*;

use crate::annotation::AnnotationType;

verus! {

/// A 24-bit colour.
#[derive(Copy, Clone, Eq, PartialEq, Structural, Debug)]
pub struct Rgb {
    pub r: u8,
    pub g: u8,
    pub b: u8,
}

/// Foreground and background colours; `None` keeps the terminal's colour.
#[derive(Copy, Clone, Eq, PartialEq, Structural, Debug)]
pub struct Attribute {
    pub foreground: Option<Rgb>,
    pub background: Option<Rgb>,
}

pub open spec fn fg(r: u8, g: u8, b: u8) -> Attribute {
    Attribute { foreground: Some(Rgb { r, g, b }), background: None }
}

pub open spec fn bg(r: u8, g: u8, b: u8) -> Attribute {
    Attribute { foreground: None, background: Some(Rgb { r, g, b }) }
}

/// The colours of each kind of annotation: search matches are white on
/// grey (the selected one on olive), the selection has a slate background,
/// and everything else is a foreground colour.
pub open spec fn attribute_of(t: AnnotationType) -> Attribute {
    match t {
        AnnotationType::Match => Attribute {
            foreground: Some(Rgb { r: 255, g: 255, b: 255 }),
            background: Some(Rgb { r: 100, g: 100, b: 100 }),
        },
        AnnotationType::SelectedMatch => Attribute {
            foreground: Some(Rgb { r: 255, g: 255, b: 255 }),
            background: Some(Rgb { r: 153, g: 153, b: 0 }),
        },
        AnnotationType::Number => fg(255, 165, 0),
        AnnotationType::Keyword => fg(135, 206, 250),
        AnnotationType::Type => fg(144, 238, 144),
        AnnotationType::KnownValue => fg(216, 191, 216),
        AnnotationType::Char => fg(255, 215, 0),
        AnnotationType::LifetimeSpecifier => fg(250, 128, 114),
        AnnotationType::Comment => fg(105, 105, 105),
        AnnotationType::String => fg(244, 164, 96),
        AnnotationType::Variable => fg(240, 230, 140),
        AnnotationType::Function => fg(173, 216, 230),
        AnnotationType::Method => fg(176, 224, 230),
        AnnotationType::Operator => fg(255, 255, 224),
        AnnotationType::Punctuation => fg(211, 211, 211),
        AnnotationType::Property => fg(238, 232, 170),
        AnnotationType::Constant => fg(255, 140, 0),
        AnnotationType::Boolean => fg(255, 99, 71),
        AnnotationType::Macro => fg(255, 105, 180),
        AnnotationType::Attribute => fg(221, 160, 221),
        AnnotationType::Replacement => fg(105, 105, 105),
        AnnotationType::Selection => bg(70, 70, 120),
        AnnotationType::Error => fg(255, 85, 85),
        AnnotationType::Warning => fg(255, 200, 0),
        AnnotationType::Information => fg(100, 149, 237),
        AnnotationType::Hint => fg(169, 169, 169),
    }
}

/// The kinds that syntax highlighting gives.
pub open spec fn syntax_kind(t: AnnotationType) -> bool {
    t == AnnotationType::Number || t == AnnotationType::Keyword || t == AnnotationType::Type || t == AnnotationType::KnownValue || t == AnnotationType::Char || t == AnnotationType::LifetimeSpecifier || t == AnnotationType::Comment || t == AnnotationType::String
}

/// The colours each kind of annotation is drawn in (red, green, blue): the
/// syntax kinds each in a colour of its own, comments and whitespace
/// replacements in dim grey, errors red, warnings amber, information blue,
/// hints grey; a search match white on grey, the selected match white on
/// olive, the selection on a slate background.
pub proof fn lemma_annotation_colours()
    ensures
        attribute_of(AnnotationType::Number) == (Attribute { foreground: Some(Rgb { r: 255, g: 165, b: 0 }), background: None }),
        attribute_of(AnnotationType::Keyword) == (Attribute { foreground: Some(Rgb { r: 135, g: 206, b: 250 }), background: None }),
        attribute_of(AnnotationType::Type) == (Attribute { foreground: Some(Rgb { r: 144, g: 238, b: 144 }), background: None }),
        attribute_of(AnnotationType::KnownValue) == (Attribute { foreground: Some(Rgb { r: 216, g: 191, b: 216 }), background: None }),
        attribute_of(AnnotationType::Char) == (Attribute { foreground: Some(Rgb { r: 255, g: 215, b: 0 }), background: None }),
        attribute_of(AnnotationType::LifetimeSpecifier) == (Attribute { foreground: Some(Rgb { r: 250, g: 128, b: 114 }), background: None }),
        attribute_of(AnnotationType::Comment) == (Attribute { foreground: Some(Rgb { r: 105, g: 105, b: 105 }), background: None }),
        attribute_of(AnnotationType::String) == (Attribute { foreground: Some(Rgb { r: 244, g: 164, b: 96 }), background: None }),
        attribute_of(AnnotationType::Variable) == (Attribute { foreground: Some(Rgb { r: 240, g: 230, b: 140 }), background: None }),
        attribute_of(AnnotationType::Function) == (Attribute { foreground: Some(Rgb { r: 173, g: 216, b: 230 }), background: None }),
        attribute_of(AnnotationType::Method) == (Attribute { foreground: Some(Rgb { r: 176, g: 224, b: 230 }), background: None }),
        attribute_of(AnnotationType::Operator) == (Attribute { foreground: Some(Rgb { r: 255, g: 255, b: 224 }), background: None }),
        attribute_of(AnnotationType::Punctuation) == (Attribute { foreground: Some(Rgb { r: 211, g: 211, b: 211 }), background: None }),
        attribute_of(AnnotationType::Property) == (Attribute { foreground: Some(Rgb { r: 238, g: 232, b: 170 }), background: None }),
        attribute_of(AnnotationType::Constant) == (Attribute { foreground: Some(Rgb { r: 255, g: 140, b: 0 }), background: None }),
        attribute_of(AnnotationType::Boolean) == (Attribute { foreground: Some(Rgb { r: 255, g: 99, b: 71 }), background: None }),
        attribute_of(AnnotationType::Macro) == (Attribute { foreground: Some(Rgb { r: 255, g: 105, b: 180 }), background: None }),
        attribute_of(AnnotationType::Attribute) == (Attribute { foreground: Some(Rgb { r: 221, g: 160, b: 221 }), background: None }),
        attribute_of(AnnotationType::Replacement) == (Attribute { foreground: Some(Rgb { r: 105, g: 105, b: 105 }), background: None }),
        attribute_of(AnnotationType::Selection) == (Attribute { foreground: None, background: Some(Rgb { r: 70, g: 70, b: 120 }) }),
        attribute_of(AnnotationType::Error) == (Attribute { foreground: Some(Rgb { r: 255, g: 85, b: 85 }), background: None }),
        attribute_of(AnnotationType::Warning) == (Attribute { foreground: Some(Rgb { r: 255, g: 200, b: 0 }), background: None }),
        attribute_of(AnnotationType::Information) == (Attribute { foreground: Some(Rgb { r: 100, g: 149, b: 237 }), background: None }),
        attribute_of(AnnotationType::Hint) == (Attribute { foreground: Some(Rgb { r: 169, g: 169, b: 169 }), background: None }),
        attribute_of(AnnotationType::Match) == (Attribute { foreground: Some(Rgb { r: 255, g: 255, b: 255 }), background: Some(Rgb { r: 100, g: 100, b: 100 }) }),
        attribute_of(AnnotationType::SelectedMatch) == (Attribute { foreground: Some(Rgb { r: 255, g: 255, b: 255 }), background: Some(Rgb { r: 153, g: 153, b: 0 }) }),
        forall|a: AnnotationType, b: AnnotationType| syntax_kind(a) && syntax_kind(b) && a != b ==> #[trigger] attribute_of(a) != #[trigger] attribute_of(b),
{
}

fn foreground(r: u8, g: u8, b: u8) -> (a: Attribute)
    ensures
        a == fg(r, g, b),
{
    Attribute { foreground: Some(Rgb { r, g, b }), background: None }
}

fn background(r: u8, g: u8, b: u8) -> (a: Attribute)
    ensures
        a == bg(r, g, b),
{
    Attribute { foreground: None, background: Some(Rgb { r, g, b }) }
}

impl From<AnnotationType> for Attribute {
    fn from(annotation_type: AnnotationType) -> (a: Self)
        ensures
            a == attribute_of(annotation_type),
    {
        match annotation_type {
            AnnotationType::Match => Attribute {
                foreground: Some(Rgb { r: 255, g: 255, b: 255 }),
                background: Some(Rgb { r: 100, g: 100, b: 100 }),
            },
            AnnotationType::SelectedMatch => Attribute {
                foreground: Some(Rgb { r: 255, g: 255, b: 255 }),
                background: Some(Rgb { r: 153, g: 153, b: 0 }),
            },
            AnnotationType::Number => foreground(255, 165, 0),
            AnnotationType::Keyword => foreground(135, 206, 250),
            AnnotationType::Type => foreground(144, 238, 144),
            AnnotationType::KnownValue => foreground(216, 191, 216),
            AnnotationType::Char => foreground(255, 215, 0),
            AnnotationType::LifetimeSpecifier => foreground(250, 128, 114),
            AnnotationType::Comment => foreground(105, 105, 105),
            AnnotationType::String => foreground(244, 164, 96),
            AnnotationType::Variable => foreground(240, 230, 140),
            AnnotationType::Function => foreground(173, 216, 230),
            AnnotationType::Method => foreground(176, 224, 230),
            AnnotationType::Operator => foreground(255, 255, 224),
            AnnotationType::Punctuation => foreground(211, 211, 211),
            AnnotationType::Property => foreground(238, 232, 170),
            AnnotationType::Constant => foreground(255, 140, 0),
            AnnotationType::Boolean => foreground(255, 99, 71),
            AnnotationType::Macro => foreground(255, 105, 180),
            AnnotationType::Attribute => foreground(221, 160, 221),
            AnnotationType::Replacement => foreground(105, 105, 105),
            AnnotationType::Selection => background(70, 70, 120),
            AnnotationType::Error => foreground(255, 85, 85),
            AnnotationType::Warning => foreground(255, 200, 0),
            AnnotationType::Information => foreground(100, 149, 237),
            AnnotationType::Hint => foreground(169, 169, 169),
        }
    }
}

impl vstd::std_specs::convert::FromSpecImpl<AnnotationType> for Attribute {
    open spec fn obeys_from_spec() -> bool {
        true
    }

    open spec fn from_spec(v: AnnotationType) -> Attribute {
        attribute_of(v)
    }
}

} // verus!
