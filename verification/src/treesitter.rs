//! Syntax annotations from the tree-sitter highlight query for Rust.
use vstd::prelude::*;

use crate::annotation::{Annotation, AnnotationType};
use crate::filetype::FileType;
use crate::text::{char_len_utf8, chars_of, str_eq, strings_view, utf8_len};
use tree_sitter::StreamingIterator;

verus! {

#[verifier::external_type_specification]
#[verifier::external_body]
pub struct ExParser(tree_sitter::Parser);

#[verifier::external_type_specification]
#[verifier::external_body]
pub struct ExQuery(tree_sitter::Query);

/// A capture of the highlight query: the index of its name among the
/// query's capture names, and the captured node's bytes and rows (the end
/// row is the row of the node's end).
#[derive(Copy, Clone, Debug)]
pub struct Capture {
    pub index: usize,
    pub start_byte: usize,
    pub end_byte: usize,
    pub start_row: usize,
    pub end_row: usize,
}

/// The Rust grammar's parser and highlight query. Only `rust_grammar` makes
/// one, so every value holds that grammar and that query.
pub struct RustGrammar {
    parser: tree_sitter::Parser,
    query: tree_sitter::Query,
}

/// What parsing `source` with the Rust grammar and running its highlight
/// query over the tree gives: the query's capture names and the captures of
/// all matches in the order the query cursor yields them; `None` when the
/// parse gives no tree.
pub uninterp spec fn rust_highlights(source: Seq<char>) -> Option<(Seq<Seq<char>>, Seq<Capture>)>;

/// `tree_sitter::Parser::new` with `Parser::set_language` for the Rust
/// grammar, and `tree_sitter::Query::new` with its highlight query. Claimed:
/// both succeed. `set_language` accepts the ABI versions 13 to 15 of the
/// tree-sitter built here, and the Rust grammar built here is of version 15;
/// the highlight query is the constant shipped with that grammar, which
/// compiles against it. Were either refused, the result would be `None`.
#[verifier::external_body]
fn rust_grammar() -> (r: Option<RustGrammar>)
    ensures
        r is Some,
{
    let language: tree_sitter::Language = tree_sitter_rust::LANGUAGE.into();
    let mut parser = tree_sitter::Parser::new();
    parser.set_language(&language).ok()?;
    let query = tree_sitter::Query::new(&language, tree_sitter_rust::HIGHLIGHTS_QUERY).ok()?;
    Some(RustGrammar { parser, query })
}

/// `tree_sitter::Parser::parse` of `source` from scratch, then
/// `Query::capture_names` and the captures of `QueryCursor::matches` over
/// the tree, in the order the cursor yields them. With the grammar and
/// query fixed they depend on `source` alone: the contract says they are
/// `rust_highlights(source@)`.
#[verifier::external_body]
fn highlight_source(grammar: &mut RustGrammar, source: &str) -> (r: Option<(Vec<String>, Vec<Capture>)>)
    ensures
        match rust_highlights(source@) {
            Some((n, c)) => r matches Some((names, caps)) && strings_view(names@) == n && caps@ == c,
            None => r is None,
        },
{
    let tree = grammar.parser.parse(source, None)?;
    let names = grammar.query.capture_names().iter().map(|s| s.to_string()).collect();
    let mut cursor = tree_sitter::QueryCursor::new();
    let mut matches = cursor.matches(&grammar.query, tree.root_node(), source.as_bytes());
    let mut caps = Vec::new();
    while let Some(m) = matches.next() {
        for c in m.captures() {
            let (r, index) = (c.node.range(), c.index as usize);
            caps.push(Capture { index, start_byte: r.start_byte, end_byte: r.end_byte, start_row: r.start_point.row, end_row: r.end_point.row });
        }
    }
    Some((names, caps))
}

/// The kind of annotation for a capture name of the highlight query.
pub open spec fn capture_type(name: Seq<char>) -> Option<AnnotationType> {
    if name == "comment"@ {
        Some(AnnotationType::Comment)
    } else if name == "string"@ || name == "string.fragment"@ {
        Some(AnnotationType::String)
    } else if name == "constant.numeric"@ || name == "number"@ || name == "integer"@ || name == "float"@ {
        Some(AnnotationType::Number)
    } else if name == "keyword"@ || name == "keyword.control"@ || name == "keyword.function"@
        || name == "keyword.operator"@ || name == "keyword.return"@ || name == "keyword.storage"@ {
        Some(AnnotationType::Keyword)
    } else if name == "type"@ || name == "type.builtin"@ || name == "primitive"@ {
        Some(AnnotationType::Type)
    } else if name == "constant"@ || name == "boolean"@ || name == "variable.builtin"@
        || name == "constant.builtin"@ {
        Some(AnnotationType::KnownValue)
    } else if name == "char"@ || name == "character"@ {
        Some(AnnotationType::Char)
    } else if name == "attribute"@ || name == "lifetime"@ || name == "label"@ {
        Some(AnnotationType::LifetimeSpecifier)
    } else {
        None
    }
}

proof fn lemma_capture_comment()
    ensures
        capture_type("comment"@) == Some(AnnotationType::Comment),
{
    reveal_strlit("comment");
}

proof fn lemma_capture_string()
    ensures
        capture_type("string"@) == Some(AnnotationType::String),
{
    reveal_strlit("string");
    reveal_strlit("comment");
    assert("string"@.len() == 6 && "comment"@.len() == 7);
    assert("string"@ != "comment"@);
}

proof fn lemma_capture_string_fragment()
    ensures
        capture_type("string.fragment"@) == Some(AnnotationType::String),
{
    reveal_strlit("string.fragment");
    reveal_strlit("comment");
    reveal_strlit("string");
    assert("string.fragment"@.len() == 15 && "comment"@.len() == 7);
    assert("string.fragment"@ != "comment"@);
    assert("string.fragment"@.len() == 15 && "string"@.len() == 6);
    assert("string.fragment"@ != "string"@);
}

proof fn lemma_capture_constant_numeric()
    ensures
        capture_type("constant.numeric"@) == Some(AnnotationType::Number),
{
    reveal_strlit("constant.numeric");
    reveal_strlit("comment");
    reveal_strlit("string");
    reveal_strlit("string.fragment");
    assert("constant.numeric"@.len() == 16 && "comment"@.len() == 7);
    assert("constant.numeric"@ != "comment"@);
    assert("constant.numeric"@.len() == 16 && "string"@.len() == 6);
    assert("constant.numeric"@ != "string"@);
    assert("constant.numeric"@.len() == 16 && "string.fragment"@.len() == 15);
    assert("constant.numeric"@ != "string.fragment"@);
}

proof fn lemma_capture_number()
    ensures
        capture_type("number"@) == Some(AnnotationType::Number),
{
    reveal_strlit("number");
    reveal_strlit("comment");
    reveal_strlit("string");
    reveal_strlit("string.fragment");
    reveal_strlit("constant.numeric");
    assert("number"@.len() == 6 && "comment"@.len() == 7);
    assert("number"@ != "comment"@);
    assert("number"@[0] == 'n' && "string"@[0] == 's');
    assert("number"@ != "string"@);
    assert("number"@.len() == 6 && "string.fragment"@.len() == 15);
    assert("number"@ != "string.fragment"@);
    assert("number"@.len() == 6 && "constant.numeric"@.len() == 16);
    assert("number"@ != "constant.numeric"@);
}

proof fn lemma_capture_integer()
    ensures
        capture_type("integer"@) == Some(AnnotationType::Number),
{
    reveal_strlit("integer");
    reveal_strlit("comment");
    reveal_strlit("string");
    reveal_strlit("string.fragment");
    reveal_strlit("constant.numeric");
    reveal_strlit("number");
    assert("integer"@[0] == 'i' && "comment"@[0] == 'c');
    assert("integer"@ != "comment"@);
    assert("integer"@.len() == 7 && "string"@.len() == 6);
    assert("integer"@ != "string"@);
    assert("integer"@.len() == 7 && "string.fragment"@.len() == 15);
    assert("integer"@ != "string.fragment"@);
    assert("integer"@.len() == 7 && "constant.numeric"@.len() == 16);
    assert("integer"@ != "constant.numeric"@);
    assert("integer"@.len() == 7 && "number"@.len() == 6);
    assert("integer"@ != "number"@);
}

proof fn lemma_capture_float()
    ensures
        capture_type("float"@) == Some(AnnotationType::Number),
{
    reveal_strlit("float");
    reveal_strlit("comment");
    reveal_strlit("string");
    reveal_strlit("string.fragment");
    reveal_strlit("constant.numeric");
    reveal_strlit("number");
    reveal_strlit("integer");
    assert("float"@.len() == 5 && "comment"@.len() == 7);
    assert("float"@ != "comment"@);
    assert("float"@.len() == 5 && "string"@.len() == 6);
    assert("float"@ != "string"@);
    assert("float"@.len() == 5 && "string.fragment"@.len() == 15);
    assert("float"@ != "string.fragment"@);
    assert("float"@.len() == 5 && "constant.numeric"@.len() == 16);
    assert("float"@ != "constant.numeric"@);
    assert("float"@.len() == 5 && "number"@.len() == 6);
    assert("float"@ != "number"@);
    assert("float"@.len() == 5 && "integer"@.len() == 7);
    assert("float"@ != "integer"@);
}

proof fn lemma_capture_keyword()
    ensures
        capture_type("keyword"@) == Some(AnnotationType::Keyword),
{
    reveal_strlit("keyword");
    reveal_strlit("comment");
    reveal_strlit("string");
    reveal_strlit("string.fragment");
    reveal_strlit("constant.numeric");
    reveal_strlit("number");
    reveal_strlit("integer");
    reveal_strlit("float");
    assert("keyword"@[0] == 'k' && "comment"@[0] == 'c');
    assert("keyword"@ != "comment"@);
    assert("keyword"@.len() == 7 && "string"@.len() == 6);
    assert("keyword"@ != "string"@);
    assert("keyword"@.len() == 7 && "string.fragment"@.len() == 15);
    assert("keyword"@ != "string.fragment"@);
    assert("keyword"@.len() == 7 && "constant.numeric"@.len() == 16);
    assert("keyword"@ != "constant.numeric"@);
    assert("keyword"@.len() == 7 && "number"@.len() == 6);
    assert("keyword"@ != "number"@);
    assert("keyword"@[0] == 'k' && "integer"@[0] == 'i');
    assert("keyword"@ != "integer"@);
    assert("keyword"@.len() == 7 && "float"@.len() == 5);
    assert("keyword"@ != "float"@);
}

proof fn lemma_capture_keyword_control()
    ensures
        capture_type("keyword.control"@) == Some(AnnotationType::Keyword),
{
    reveal_strlit("keyword.control");
    reveal_strlit("comment");
    reveal_strlit("string");
    reveal_strlit("string.fragment");
    reveal_strlit("constant.numeric");
    reveal_strlit("number");
    reveal_strlit("integer");
    reveal_strlit("float");
    reveal_strlit("keyword");
    assert("keyword.control"@.len() == 15 && "comment"@.len() == 7);
    assert("keyword.control"@ != "comment"@);
    assert("keyword.control"@.len() == 15 && "string"@.len() == 6);
    assert("keyword.control"@ != "string"@);
    assert("keyword.control"@[0] == 'k' && "string.fragment"@[0] == 's');
    assert("keyword.control"@ != "string.fragment"@);
    assert("keyword.control"@.len() == 15 && "constant.numeric"@.len() == 16);
    assert("keyword.control"@ != "constant.numeric"@);
    assert("keyword.control"@.len() == 15 && "number"@.len() == 6);
    assert("keyword.control"@ != "number"@);
    assert("keyword.control"@.len() == 15 && "integer"@.len() == 7);
    assert("keyword.control"@ != "integer"@);
    assert("keyword.control"@.len() == 15 && "float"@.len() == 5);
    assert("keyword.control"@ != "float"@);
    assert("keyword.control"@.len() == 15 && "keyword"@.len() == 7);
    assert("keyword.control"@ != "keyword"@);
}

proof fn lemma_capture_keyword_function()
    ensures
        capture_type("keyword.function"@) == Some(AnnotationType::Keyword),
{
    reveal_strlit("keyword.function");
    reveal_strlit("comment");
    reveal_strlit("string");
    reveal_strlit("string.fragment");
    reveal_strlit("constant.numeric");
    reveal_strlit("number");
    reveal_strlit("integer");
    reveal_strlit("float");
    reveal_strlit("keyword");
    reveal_strlit("keyword.control");
    assert("keyword.function"@.len() == 16 && "comment"@.len() == 7);
    assert("keyword.function"@ != "comment"@);
    assert("keyword.function"@.len() == 16 && "string"@.len() == 6);
    assert("keyword.function"@ != "string"@);
    assert("keyword.function"@.len() == 16 && "string.fragment"@.len() == 15);
    assert("keyword.function"@ != "string.fragment"@);
    assert("keyword.function"@[0] == 'k' && "constant.numeric"@[0] == 'c');
    assert("keyword.function"@ != "constant.numeric"@);
    assert("keyword.function"@.len() == 16 && "number"@.len() == 6);
    assert("keyword.function"@ != "number"@);
    assert("keyword.function"@.len() == 16 && "integer"@.len() == 7);
    assert("keyword.function"@ != "integer"@);
    assert("keyword.function"@.len() == 16 && "float"@.len() == 5);
    assert("keyword.function"@ != "float"@);
    assert("keyword.function"@.len() == 16 && "keyword"@.len() == 7);
    assert("keyword.function"@ != "keyword"@);
    assert("keyword.function"@.len() == 16 && "keyword.control"@.len() == 15);
    assert("keyword.function"@ != "keyword.control"@);
}

proof fn lemma_capture_keyword_operator()
    ensures
        capture_type("keyword.operator"@) == Some(AnnotationType::Keyword),
{
    reveal_strlit("keyword.operator");
    reveal_strlit("comment");
    reveal_strlit("string");
    reveal_strlit("string.fragment");
    reveal_strlit("constant.numeric");
    reveal_strlit("number");
    reveal_strlit("integer");
    reveal_strlit("float");
    reveal_strlit("keyword");
    reveal_strlit("keyword.control");
    reveal_strlit("keyword.function");
    assert("keyword.operator"@.len() == 16 && "comment"@.len() == 7);
    assert("keyword.operator"@ != "comment"@);
    assert("keyword.operator"@.len() == 16 && "string"@.len() == 6);
    assert("keyword.operator"@ != "string"@);
    assert("keyword.operator"@.len() == 16 && "string.fragment"@.len() == 15);
    assert("keyword.operator"@ != "string.fragment"@);
    assert("keyword.operator"@[0] == 'k' && "constant.numeric"@[0] == 'c');
    assert("keyword.operator"@ != "constant.numeric"@);
    assert("keyword.operator"@.len() == 16 && "number"@.len() == 6);
    assert("keyword.operator"@ != "number"@);
    assert("keyword.operator"@.len() == 16 && "integer"@.len() == 7);
    assert("keyword.operator"@ != "integer"@);
    assert("keyword.operator"@.len() == 16 && "float"@.len() == 5);
    assert("keyword.operator"@ != "float"@);
    assert("keyword.operator"@.len() == 16 && "keyword"@.len() == 7);
    assert("keyword.operator"@ != "keyword"@);
    assert("keyword.operator"@.len() == 16 && "keyword.control"@.len() == 15);
    assert("keyword.operator"@ != "keyword.control"@);
    assert("keyword.operator"@[8] == 'o' && "keyword.function"@[8] == 'f');
    assert("keyword.operator"@ != "keyword.function"@);
}

proof fn lemma_capture_keyword_return()
    ensures
        capture_type("keyword.return"@) == Some(AnnotationType::Keyword),
{
    reveal_strlit("keyword.return");
    reveal_strlit("comment");
    reveal_strlit("string");
    reveal_strlit("string.fragment");
    reveal_strlit("constant.numeric");
    reveal_strlit("number");
    reveal_strlit("integer");
    reveal_strlit("float");
    reveal_strlit("keyword");
    reveal_strlit("keyword.control");
    reveal_strlit("keyword.function");
    reveal_strlit("keyword.operator");
    assert("keyword.return"@.len() == 14 && "comment"@.len() == 7);
    assert("keyword.return"@ != "comment"@);
    assert("keyword.return"@.len() == 14 && "string"@.len() == 6);
    assert("keyword.return"@ != "string"@);
    assert("keyword.return"@.len() == 14 && "string.fragment"@.len() == 15);
    assert("keyword.return"@ != "string.fragment"@);
    assert("keyword.return"@.len() == 14 && "constant.numeric"@.len() == 16);
    assert("keyword.return"@ != "constant.numeric"@);
    assert("keyword.return"@.len() == 14 && "number"@.len() == 6);
    assert("keyword.return"@ != "number"@);
    assert("keyword.return"@.len() == 14 && "integer"@.len() == 7);
    assert("keyword.return"@ != "integer"@);
    assert("keyword.return"@.len() == 14 && "float"@.len() == 5);
    assert("keyword.return"@ != "float"@);
    assert("keyword.return"@.len() == 14 && "keyword"@.len() == 7);
    assert("keyword.return"@ != "keyword"@);
    assert("keyword.return"@.len() == 14 && "keyword.control"@.len() == 15);
    assert("keyword.return"@ != "keyword.control"@);
    assert("keyword.return"@.len() == 14 && "keyword.function"@.len() == 16);
    assert("keyword.return"@ != "keyword.function"@);
    assert("keyword.return"@.len() == 14 && "keyword.operator"@.len() == 16);
    assert("keyword.return"@ != "keyword.operator"@);
}

proof fn lemma_capture_keyword_storage()
    ensures
        capture_type("keyword.storage"@) == Some(AnnotationType::Keyword),
{
    reveal_strlit("keyword.storage");
    reveal_strlit("comment");
    reveal_strlit("string");
    reveal_strlit("string.fragment");
    reveal_strlit("constant.numeric");
    reveal_strlit("number");
    reveal_strlit("integer");
    reveal_strlit("float");
    reveal_strlit("keyword");
    reveal_strlit("keyword.control");
    reveal_strlit("keyword.function");
    reveal_strlit("keyword.operator");
    reveal_strlit("keyword.return");
    assert("keyword.storage"@.len() == 15 && "comment"@.len() == 7);
    assert("keyword.storage"@ != "comment"@);
    assert("keyword.storage"@.len() == 15 && "string"@.len() == 6);
    assert("keyword.storage"@ != "string"@);
    assert("keyword.storage"@[0] == 'k' && "string.fragment"@[0] == 's');
    assert("keyword.storage"@ != "string.fragment"@);
    assert("keyword.storage"@.len() == 15 && "constant.numeric"@.len() == 16);
    assert("keyword.storage"@ != "constant.numeric"@);
    assert("keyword.storage"@.len() == 15 && "number"@.len() == 6);
    assert("keyword.storage"@ != "number"@);
    assert("keyword.storage"@.len() == 15 && "integer"@.len() == 7);
    assert("keyword.storage"@ != "integer"@);
    assert("keyword.storage"@.len() == 15 && "float"@.len() == 5);
    assert("keyword.storage"@ != "float"@);
    assert("keyword.storage"@.len() == 15 && "keyword"@.len() == 7);
    assert("keyword.storage"@ != "keyword"@);
    assert("keyword.storage"@[8] == 's' && "keyword.control"@[8] == 'c');
    assert("keyword.storage"@ != "keyword.control"@);
    assert("keyword.storage"@.len() == 15 && "keyword.function"@.len() == 16);
    assert("keyword.storage"@ != "keyword.function"@);
    assert("keyword.storage"@.len() == 15 && "keyword.operator"@.len() == 16);
    assert("keyword.storage"@ != "keyword.operator"@);
    assert("keyword.storage"@.len() == 15 && "keyword.return"@.len() == 14);
    assert("keyword.storage"@ != "keyword.return"@);
}

proof fn lemma_capture_type()
    ensures
        capture_type("type"@) == Some(AnnotationType::Type),
{
    reveal_strlit("type");
    reveal_strlit("comment");
    reveal_strlit("string");
    reveal_strlit("string.fragment");
    reveal_strlit("constant.numeric");
    reveal_strlit("number");
    reveal_strlit("integer");
    reveal_strlit("float");
    reveal_strlit("keyword");
    reveal_strlit("keyword.control");
    reveal_strlit("keyword.function");
    reveal_strlit("keyword.operator");
    reveal_strlit("keyword.return");
    reveal_strlit("keyword.storage");
    assert("type"@.len() == 4 && "comment"@.len() == 7);
    assert("type"@ != "comment"@);
    assert("type"@.len() == 4 && "string"@.len() == 6);
    assert("type"@ != "string"@);
    assert("type"@.len() == 4 && "string.fragment"@.len() == 15);
    assert("type"@ != "string.fragment"@);
    assert("type"@.len() == 4 && "constant.numeric"@.len() == 16);
    assert("type"@ != "constant.numeric"@);
    assert("type"@.len() == 4 && "number"@.len() == 6);
    assert("type"@ != "number"@);
    assert("type"@.len() == 4 && "integer"@.len() == 7);
    assert("type"@ != "integer"@);
    assert("type"@.len() == 4 && "float"@.len() == 5);
    assert("type"@ != "float"@);
    assert("type"@.len() == 4 && "keyword"@.len() == 7);
    assert("type"@ != "keyword"@);
    assert("type"@.len() == 4 && "keyword.control"@.len() == 15);
    assert("type"@ != "keyword.control"@);
    assert("type"@.len() == 4 && "keyword.function"@.len() == 16);
    assert("type"@ != "keyword.function"@);
    assert("type"@.len() == 4 && "keyword.operator"@.len() == 16);
    assert("type"@ != "keyword.operator"@);
    assert("type"@.len() == 4 && "keyword.return"@.len() == 14);
    assert("type"@ != "keyword.return"@);
    assert("type"@.len() == 4 && "keyword.storage"@.len() == 15);
    assert("type"@ != "keyword.storage"@);
}

proof fn lemma_capture_type_builtin()
    ensures
        capture_type("type.builtin"@) == Some(AnnotationType::Type),
{
    reveal_strlit("type.builtin");
    reveal_strlit("comment");
    reveal_strlit("string");
    reveal_strlit("string.fragment");
    reveal_strlit("constant.numeric");
    reveal_strlit("number");
    reveal_strlit("integer");
    reveal_strlit("float");
    reveal_strlit("keyword");
    reveal_strlit("keyword.control");
    reveal_strlit("keyword.function");
    reveal_strlit("keyword.operator");
    reveal_strlit("keyword.return");
    reveal_strlit("keyword.storage");
    reveal_strlit("type");
    assert("type.builtin"@.len() == 12 && "comment"@.len() == 7);
    assert("type.builtin"@ != "comment"@);
    assert("type.builtin"@.len() == 12 && "string"@.len() == 6);
    assert("type.builtin"@ != "string"@);
    assert("type.builtin"@.len() == 12 && "string.fragment"@.len() == 15);
    assert("type.builtin"@ != "string.fragment"@);
    assert("type.builtin"@.len() == 12 && "constant.numeric"@.len() == 16);
    assert("type.builtin"@ != "constant.numeric"@);
    assert("type.builtin"@.len() == 12 && "number"@.len() == 6);
    assert("type.builtin"@ != "number"@);
    assert("type.builtin"@.len() == 12 && "integer"@.len() == 7);
    assert("type.builtin"@ != "integer"@);
    assert("type.builtin"@.len() == 12 && "float"@.len() == 5);
    assert("type.builtin"@ != "float"@);
    assert("type.builtin"@.len() == 12 && "keyword"@.len() == 7);
    assert("type.builtin"@ != "keyword"@);
    assert("type.builtin"@.len() == 12 && "keyword.control"@.len() == 15);
    assert("type.builtin"@ != "keyword.control"@);
    assert("type.builtin"@.len() == 12 && "keyword.function"@.len() == 16);
    assert("type.builtin"@ != "keyword.function"@);
    assert("type.builtin"@.len() == 12 && "keyword.operator"@.len() == 16);
    assert("type.builtin"@ != "keyword.operator"@);
    assert("type.builtin"@.len() == 12 && "keyword.return"@.len() == 14);
    assert("type.builtin"@ != "keyword.return"@);
    assert("type.builtin"@.len() == 12 && "keyword.storage"@.len() == 15);
    assert("type.builtin"@ != "keyword.storage"@);
    assert("type.builtin"@.len() == 12 && "type"@.len() == 4);
    assert("type.builtin"@ != "type"@);
}

proof fn lemma_capture_primitive()
    ensures
        capture_type("primitive"@) == Some(AnnotationType::Type),
{
    reveal_strlit("primitive");
    reveal_strlit("comment");
    reveal_strlit("string");
    reveal_strlit("string.fragment");
    reveal_strlit("constant.numeric");
    reveal_strlit("number");
    reveal_strlit("integer");
    reveal_strlit("float");
    reveal_strlit("keyword");
    reveal_strlit("keyword.control");
    reveal_strlit("keyword.function");
    reveal_strlit("keyword.operator");
    reveal_strlit("keyword.return");
    reveal_strlit("keyword.storage");
    reveal_strlit("type");
    reveal_strlit("type.builtin");
    assert("primitive"@.len() == 9 && "comment"@.len() == 7);
    assert("primitive"@ != "comment"@);
    assert("primitive"@.len() == 9 && "string"@.len() == 6);
    assert("primitive"@ != "string"@);
    assert("primitive"@.len() == 9 && "string.fragment"@.len() == 15);
    assert("primitive"@ != "string.fragment"@);
    assert("primitive"@.len() == 9 && "constant.numeric"@.len() == 16);
    assert("primitive"@ != "constant.numeric"@);
    assert("primitive"@.len() == 9 && "number"@.len() == 6);
    assert("primitive"@ != "number"@);
    assert("primitive"@.len() == 9 && "integer"@.len() == 7);
    assert("primitive"@ != "integer"@);
    assert("primitive"@.len() == 9 && "float"@.len() == 5);
    assert("primitive"@ != "float"@);
    assert("primitive"@.len() == 9 && "keyword"@.len() == 7);
    assert("primitive"@ != "keyword"@);
    assert("primitive"@.len() == 9 && "keyword.control"@.len() == 15);
    assert("primitive"@ != "keyword.control"@);
    assert("primitive"@.len() == 9 && "keyword.function"@.len() == 16);
    assert("primitive"@ != "keyword.function"@);
    assert("primitive"@.len() == 9 && "keyword.operator"@.len() == 16);
    assert("primitive"@ != "keyword.operator"@);
    assert("primitive"@.len() == 9 && "keyword.return"@.len() == 14);
    assert("primitive"@ != "keyword.return"@);
    assert("primitive"@.len() == 9 && "keyword.storage"@.len() == 15);
    assert("primitive"@ != "keyword.storage"@);
    assert("primitive"@.len() == 9 && "type"@.len() == 4);
    assert("primitive"@ != "type"@);
    assert("primitive"@.len() == 9 && "type.builtin"@.len() == 12);
    assert("primitive"@ != "type.builtin"@);
}

proof fn lemma_capture_constant()
    ensures
        capture_type("constant"@) == Some(AnnotationType::KnownValue),
{
    reveal_strlit("constant");
    reveal_strlit("comment");
    reveal_strlit("string");
    reveal_strlit("string.fragment");
    reveal_strlit("constant.numeric");
    reveal_strlit("number");
    reveal_strlit("integer");
    reveal_strlit("float");
    reveal_strlit("keyword");
    reveal_strlit("keyword.control");
    reveal_strlit("keyword.function");
    reveal_strlit("keyword.operator");
    reveal_strlit("keyword.return");
    reveal_strlit("keyword.storage");
    reveal_strlit("type");
    reveal_strlit("type.builtin");
    reveal_strlit("primitive");
    assert("constant"@.len() == 8 && "comment"@.len() == 7);
    assert("constant"@ != "comment"@);
    assert("constant"@.len() == 8 && "string"@.len() == 6);
    assert("constant"@ != "string"@);
    assert("constant"@.len() == 8 && "string.fragment"@.len() == 15);
    assert("constant"@ != "string.fragment"@);
    assert("constant"@.len() == 8 && "constant.numeric"@.len() == 16);
    assert("constant"@ != "constant.numeric"@);
    assert("constant"@.len() == 8 && "number"@.len() == 6);
    assert("constant"@ != "number"@);
    assert("constant"@.len() == 8 && "integer"@.len() == 7);
    assert("constant"@ != "integer"@);
    assert("constant"@.len() == 8 && "float"@.len() == 5);
    assert("constant"@ != "float"@);
    assert("constant"@.len() == 8 && "keyword"@.len() == 7);
    assert("constant"@ != "keyword"@);
    assert("constant"@.len() == 8 && "keyword.control"@.len() == 15);
    assert("constant"@ != "keyword.control"@);
    assert("constant"@.len() == 8 && "keyword.function"@.len() == 16);
    assert("constant"@ != "keyword.function"@);
    assert("constant"@.len() == 8 && "keyword.operator"@.len() == 16);
    assert("constant"@ != "keyword.operator"@);
    assert("constant"@.len() == 8 && "keyword.return"@.len() == 14);
    assert("constant"@ != "keyword.return"@);
    assert("constant"@.len() == 8 && "keyword.storage"@.len() == 15);
    assert("constant"@ != "keyword.storage"@);
    assert("constant"@.len() == 8 && "type"@.len() == 4);
    assert("constant"@ != "type"@);
    assert("constant"@.len() == 8 && "type.builtin"@.len() == 12);
    assert("constant"@ != "type.builtin"@);
    assert("constant"@.len() == 8 && "primitive"@.len() == 9);
    assert("constant"@ != "primitive"@);
}

proof fn lemma_capture_boolean()
    ensures
        capture_type("boolean"@) == Some(AnnotationType::KnownValue),
{
    reveal_strlit("boolean");
    reveal_strlit("comment");
    reveal_strlit("string");
    reveal_strlit("string.fragment");
    reveal_strlit("constant.numeric");
    reveal_strlit("number");
    reveal_strlit("integer");
    reveal_strlit("float");
    reveal_strlit("keyword");
    reveal_strlit("keyword.control");
    reveal_strlit("keyword.function");
    reveal_strlit("keyword.operator");
    reveal_strlit("keyword.return");
    reveal_strlit("keyword.storage");
    reveal_strlit("type");
    reveal_strlit("type.builtin");
    reveal_strlit("primitive");
    reveal_strlit("constant");
    assert("boolean"@[0] == 'b' && "comment"@[0] == 'c');
    assert("boolean"@ != "comment"@);
    assert("boolean"@.len() == 7 && "string"@.len() == 6);
    assert("boolean"@ != "string"@);
    assert("boolean"@.len() == 7 && "string.fragment"@.len() == 15);
    assert("boolean"@ != "string.fragment"@);
    assert("boolean"@.len() == 7 && "constant.numeric"@.len() == 16);
    assert("boolean"@ != "constant.numeric"@);
    assert("boolean"@.len() == 7 && "number"@.len() == 6);
    assert("boolean"@ != "number"@);
    assert("boolean"@[0] == 'b' && "integer"@[0] == 'i');
    assert("boolean"@ != "integer"@);
    assert("boolean"@.len() == 7 && "float"@.len() == 5);
    assert("boolean"@ != "float"@);
    assert("boolean"@[0] == 'b' && "keyword"@[0] == 'k');
    assert("boolean"@ != "keyword"@);
    assert("boolean"@.len() == 7 && "keyword.control"@.len() == 15);
    assert("boolean"@ != "keyword.control"@);
    assert("boolean"@.len() == 7 && "keyword.function"@.len() == 16);
    assert("boolean"@ != "keyword.function"@);
    assert("boolean"@.len() == 7 && "keyword.operator"@.len() == 16);
    assert("boolean"@ != "keyword.operator"@);
    assert("boolean"@.len() == 7 && "keyword.return"@.len() == 14);
    assert("boolean"@ != "keyword.return"@);
    assert("boolean"@.len() == 7 && "keyword.storage"@.len() == 15);
    assert("boolean"@ != "keyword.storage"@);
    assert("boolean"@.len() == 7 && "type"@.len() == 4);
    assert("boolean"@ != "type"@);
    assert("boolean"@.len() == 7 && "type.builtin"@.len() == 12);
    assert("boolean"@ != "type.builtin"@);
    assert("boolean"@.len() == 7 && "primitive"@.len() == 9);
    assert("boolean"@ != "primitive"@);
    assert("boolean"@.len() == 7 && "constant"@.len() == 8);
    assert("boolean"@ != "constant"@);
}

proof fn lemma_capture_variable_builtin()
    ensures
        capture_type("variable.builtin"@) == Some(AnnotationType::KnownValue),
{
    reveal_strlit("variable.builtin");
    reveal_strlit("comment");
    reveal_strlit("string");
    reveal_strlit("string.fragment");
    reveal_strlit("constant.numeric");
    reveal_strlit("number");
    reveal_strlit("integer");
    reveal_strlit("float");
    reveal_strlit("keyword");
    reveal_strlit("keyword.control");
    reveal_strlit("keyword.function");
    reveal_strlit("keyword.operator");
    reveal_strlit("keyword.return");
    reveal_strlit("keyword.storage");
    reveal_strlit("type");
    reveal_strlit("type.builtin");
    reveal_strlit("primitive");
    reveal_strlit("constant");
    reveal_strlit("boolean");
    assert("variable.builtin"@.len() == 16 && "comment"@.len() == 7);
    assert("variable.builtin"@ != "comment"@);
    assert("variable.builtin"@.len() == 16 && "string"@.len() == 6);
    assert("variable.builtin"@ != "string"@);
    assert("variable.builtin"@.len() == 16 && "string.fragment"@.len() == 15);
    assert("variable.builtin"@ != "string.fragment"@);
    assert("variable.builtin"@[0] == 'v' && "constant.numeric"@[0] == 'c');
    assert("variable.builtin"@ != "constant.numeric"@);
    assert("variable.builtin"@.len() == 16 && "number"@.len() == 6);
    assert("variable.builtin"@ != "number"@);
    assert("variable.builtin"@.len() == 16 && "integer"@.len() == 7);
    assert("variable.builtin"@ != "integer"@);
    assert("variable.builtin"@.len() == 16 && "float"@.len() == 5);
    assert("variable.builtin"@ != "float"@);
    assert("variable.builtin"@.len() == 16 && "keyword"@.len() == 7);
    assert("variable.builtin"@ != "keyword"@);
    assert("variable.builtin"@.len() == 16 && "keyword.control"@.len() == 15);
    assert("variable.builtin"@ != "keyword.control"@);
    assert("variable.builtin"@[0] == 'v' && "keyword.function"@[0] == 'k');
    assert("variable.builtin"@ != "keyword.function"@);
    assert("variable.builtin"@[0] == 'v' && "keyword.operator"@[0] == 'k');
    assert("variable.builtin"@ != "keyword.operator"@);
    assert("variable.builtin"@.len() == 16 && "keyword.return"@.len() == 14);
    assert("variable.builtin"@ != "keyword.return"@);
    assert("variable.builtin"@.len() == 16 && "keyword.storage"@.len() == 15);
    assert("variable.builtin"@ != "keyword.storage"@);
    assert("variable.builtin"@.len() == 16 && "type"@.len() == 4);
    assert("variable.builtin"@ != "type"@);
    assert("variable.builtin"@.len() == 16 && "type.builtin"@.len() == 12);
    assert("variable.builtin"@ != "type.builtin"@);
    assert("variable.builtin"@.len() == 16 && "primitive"@.len() == 9);
    assert("variable.builtin"@ != "primitive"@);
    assert("variable.builtin"@.len() == 16 && "constant"@.len() == 8);
    assert("variable.builtin"@ != "constant"@);
    assert("variable.builtin"@.len() == 16 && "boolean"@.len() == 7);
    assert("variable.builtin"@ != "boolean"@);
}

proof fn lemma_capture_constant_builtin()
    ensures
        capture_type("constant.builtin"@) == Some(AnnotationType::KnownValue),
{
    reveal_strlit("constant.builtin");
    reveal_strlit("comment");
    reveal_strlit("string");
    reveal_strlit("string.fragment");
    reveal_strlit("constant.numeric");
    reveal_strlit("number");
    reveal_strlit("integer");
    reveal_strlit("float");
    reveal_strlit("keyword");
    reveal_strlit("keyword.control");
    reveal_strlit("keyword.function");
    reveal_strlit("keyword.operator");
    reveal_strlit("keyword.return");
    reveal_strlit("keyword.storage");
    reveal_strlit("type");
    reveal_strlit("type.builtin");
    reveal_strlit("primitive");
    reveal_strlit("constant");
    reveal_strlit("boolean");
    reveal_strlit("variable.builtin");
    assert("constant.builtin"@.len() == 16 && "comment"@.len() == 7);
    assert("constant.builtin"@ != "comment"@);
    assert("constant.builtin"@.len() == 16 && "string"@.len() == 6);
    assert("constant.builtin"@ != "string"@);
    assert("constant.builtin"@.len() == 16 && "string.fragment"@.len() == 15);
    assert("constant.builtin"@ != "string.fragment"@);
    assert("constant.builtin"@[9] == 'b' && "constant.numeric"@[9] == 'n');
    assert("constant.builtin"@ != "constant.numeric"@);
    assert("constant.builtin"@.len() == 16 && "number"@.len() == 6);
    assert("constant.builtin"@ != "number"@);
    assert("constant.builtin"@.len() == 16 && "integer"@.len() == 7);
    assert("constant.builtin"@ != "integer"@);
    assert("constant.builtin"@.len() == 16 && "float"@.len() == 5);
    assert("constant.builtin"@ != "float"@);
    assert("constant.builtin"@.len() == 16 && "keyword"@.len() == 7);
    assert("constant.builtin"@ != "keyword"@);
    assert("constant.builtin"@.len() == 16 && "keyword.control"@.len() == 15);
    assert("constant.builtin"@ != "keyword.control"@);
    assert("constant.builtin"@[0] == 'c' && "keyword.function"@[0] == 'k');
    assert("constant.builtin"@ != "keyword.function"@);
    assert("constant.builtin"@[0] == 'c' && "keyword.operator"@[0] == 'k');
    assert("constant.builtin"@ != "keyword.operator"@);
    assert("constant.builtin"@.len() == 16 && "keyword.return"@.len() == 14);
    assert("constant.builtin"@ != "keyword.return"@);
    assert("constant.builtin"@.len() == 16 && "keyword.storage"@.len() == 15);
    assert("constant.builtin"@ != "keyword.storage"@);
    assert("constant.builtin"@.len() == 16 && "type"@.len() == 4);
    assert("constant.builtin"@ != "type"@);
    assert("constant.builtin"@.len() == 16 && "type.builtin"@.len() == 12);
    assert("constant.builtin"@ != "type.builtin"@);
    assert("constant.builtin"@.len() == 16 && "primitive"@.len() == 9);
    assert("constant.builtin"@ != "primitive"@);
    assert("constant.builtin"@.len() == 16 && "constant"@.len() == 8);
    assert("constant.builtin"@ != "constant"@);
    assert("constant.builtin"@.len() == 16 && "boolean"@.len() == 7);
    assert("constant.builtin"@ != "boolean"@);
    assert("constant.builtin"@[0] == 'c' && "variable.builtin"@[0] == 'v');
    assert("constant.builtin"@ != "variable.builtin"@);
}

proof fn lemma_capture_char()
    ensures
        capture_type("char"@) == Some(AnnotationType::Char),
{
    reveal_strlit("char");
    reveal_strlit("comment");
    reveal_strlit("string");
    reveal_strlit("string.fragment");
    reveal_strlit("constant.numeric");
    reveal_strlit("number");
    reveal_strlit("integer");
    reveal_strlit("float");
    reveal_strlit("keyword");
    reveal_strlit("keyword.control");
    reveal_strlit("keyword.function");
    reveal_strlit("keyword.operator");
    reveal_strlit("keyword.return");
    reveal_strlit("keyword.storage");
    reveal_strlit("type");
    reveal_strlit("type.builtin");
    reveal_strlit("primitive");
    reveal_strlit("constant");
    reveal_strlit("boolean");
    reveal_strlit("variable.builtin");
    reveal_strlit("constant.builtin");
    assert("char"@.len() == 4 && "comment"@.len() == 7);
    assert("char"@ != "comment"@);
    assert("char"@.len() == 4 && "string"@.len() == 6);
    assert("char"@ != "string"@);
    assert("char"@.len() == 4 && "string.fragment"@.len() == 15);
    assert("char"@ != "string.fragment"@);
    assert("char"@.len() == 4 && "constant.numeric"@.len() == 16);
    assert("char"@ != "constant.numeric"@);
    assert("char"@.len() == 4 && "number"@.len() == 6);
    assert("char"@ != "number"@);
    assert("char"@.len() == 4 && "integer"@.len() == 7);
    assert("char"@ != "integer"@);
    assert("char"@.len() == 4 && "float"@.len() == 5);
    assert("char"@ != "float"@);
    assert("char"@.len() == 4 && "keyword"@.len() == 7);
    assert("char"@ != "keyword"@);
    assert("char"@.len() == 4 && "keyword.control"@.len() == 15);
    assert("char"@ != "keyword.control"@);
    assert("char"@.len() == 4 && "keyword.function"@.len() == 16);
    assert("char"@ != "keyword.function"@);
    assert("char"@.len() == 4 && "keyword.operator"@.len() == 16);
    assert("char"@ != "keyword.operator"@);
    assert("char"@.len() == 4 && "keyword.return"@.len() == 14);
    assert("char"@ != "keyword.return"@);
    assert("char"@.len() == 4 && "keyword.storage"@.len() == 15);
    assert("char"@ != "keyword.storage"@);
    assert("char"@[0] == 'c' && "type"@[0] == 't');
    assert("char"@ != "type"@);
    assert("char"@.len() == 4 && "type.builtin"@.len() == 12);
    assert("char"@ != "type.builtin"@);
    assert("char"@.len() == 4 && "primitive"@.len() == 9);
    assert("char"@ != "primitive"@);
    assert("char"@.len() == 4 && "constant"@.len() == 8);
    assert("char"@ != "constant"@);
    assert("char"@.len() == 4 && "boolean"@.len() == 7);
    assert("char"@ != "boolean"@);
    assert("char"@.len() == 4 && "variable.builtin"@.len() == 16);
    assert("char"@ != "variable.builtin"@);
    assert("char"@.len() == 4 && "constant.builtin"@.len() == 16);
    assert("char"@ != "constant.builtin"@);
}

proof fn lemma_capture_character()
    ensures
        capture_type("character"@) == Some(AnnotationType::Char),
{
    reveal_strlit("character");
    reveal_strlit("comment");
    reveal_strlit("string");
    reveal_strlit("string.fragment");
    reveal_strlit("constant.numeric");
    reveal_strlit("number");
    reveal_strlit("integer");
    reveal_strlit("float");
    reveal_strlit("keyword");
    reveal_strlit("keyword.control");
    reveal_strlit("keyword.function");
    reveal_strlit("keyword.operator");
    reveal_strlit("keyword.return");
    reveal_strlit("keyword.storage");
    reveal_strlit("type");
    reveal_strlit("type.builtin");
    reveal_strlit("primitive");
    reveal_strlit("constant");
    reveal_strlit("boolean");
    reveal_strlit("variable.builtin");
    reveal_strlit("constant.builtin");
    reveal_strlit("char");
    assert("character"@.len() == 9 && "comment"@.len() == 7);
    assert("character"@ != "comment"@);
    assert("character"@.len() == 9 && "string"@.len() == 6);
    assert("character"@ != "string"@);
    assert("character"@.len() == 9 && "string.fragment"@.len() == 15);
    assert("character"@ != "string.fragment"@);
    assert("character"@.len() == 9 && "constant.numeric"@.len() == 16);
    assert("character"@ != "constant.numeric"@);
    assert("character"@.len() == 9 && "number"@.len() == 6);
    assert("character"@ != "number"@);
    assert("character"@.len() == 9 && "integer"@.len() == 7);
    assert("character"@ != "integer"@);
    assert("character"@.len() == 9 && "float"@.len() == 5);
    assert("character"@ != "float"@);
    assert("character"@.len() == 9 && "keyword"@.len() == 7);
    assert("character"@ != "keyword"@);
    assert("character"@.len() == 9 && "keyword.control"@.len() == 15);
    assert("character"@ != "keyword.control"@);
    assert("character"@.len() == 9 && "keyword.function"@.len() == 16);
    assert("character"@ != "keyword.function"@);
    assert("character"@.len() == 9 && "keyword.operator"@.len() == 16);
    assert("character"@ != "keyword.operator"@);
    assert("character"@.len() == 9 && "keyword.return"@.len() == 14);
    assert("character"@ != "keyword.return"@);
    assert("character"@.len() == 9 && "keyword.storage"@.len() == 15);
    assert("character"@ != "keyword.storage"@);
    assert("character"@.len() == 9 && "type"@.len() == 4);
    assert("character"@ != "type"@);
    assert("character"@.len() == 9 && "type.builtin"@.len() == 12);
    assert("character"@ != "type.builtin"@);
    assert("character"@[0] == 'c' && "primitive"@[0] == 'p');
    assert("character"@ != "primitive"@);
    assert("character"@.len() == 9 && "constant"@.len() == 8);
    assert("character"@ != "constant"@);
    assert("character"@.len() == 9 && "boolean"@.len() == 7);
    assert("character"@ != "boolean"@);
    assert("character"@.len() == 9 && "variable.builtin"@.len() == 16);
    assert("character"@ != "variable.builtin"@);
    assert("character"@.len() == 9 && "constant.builtin"@.len() == 16);
    assert("character"@ != "constant.builtin"@);
    assert("character"@.len() == 9 && "char"@.len() == 4);
    assert("character"@ != "char"@);
}

proof fn lemma_capture_attribute()
    ensures
        capture_type("attribute"@) == Some(AnnotationType::LifetimeSpecifier),
{
    reveal_strlit("attribute");
    reveal_strlit("comment");
    reveal_strlit("string");
    reveal_strlit("string.fragment");
    reveal_strlit("constant.numeric");
    reveal_strlit("number");
    reveal_strlit("integer");
    reveal_strlit("float");
    reveal_strlit("keyword");
    reveal_strlit("keyword.control");
    reveal_strlit("keyword.function");
    reveal_strlit("keyword.operator");
    reveal_strlit("keyword.return");
    reveal_strlit("keyword.storage");
    reveal_strlit("type");
    reveal_strlit("type.builtin");
    reveal_strlit("primitive");
    reveal_strlit("constant");
    reveal_strlit("boolean");
    reveal_strlit("variable.builtin");
    reveal_strlit("constant.builtin");
    reveal_strlit("char");
    reveal_strlit("character");
    assert("attribute"@.len() == 9 && "comment"@.len() == 7);
    assert("attribute"@ != "comment"@);
    assert("attribute"@.len() == 9 && "string"@.len() == 6);
    assert("attribute"@ != "string"@);
    assert("attribute"@.len() == 9 && "string.fragment"@.len() == 15);
    assert("attribute"@ != "string.fragment"@);
    assert("attribute"@.len() == 9 && "constant.numeric"@.len() == 16);
    assert("attribute"@ != "constant.numeric"@);
    assert("attribute"@.len() == 9 && "number"@.len() == 6);
    assert("attribute"@ != "number"@);
    assert("attribute"@.len() == 9 && "integer"@.len() == 7);
    assert("attribute"@ != "integer"@);
    assert("attribute"@.len() == 9 && "float"@.len() == 5);
    assert("attribute"@ != "float"@);
    assert("attribute"@.len() == 9 && "keyword"@.len() == 7);
    assert("attribute"@ != "keyword"@);
    assert("attribute"@.len() == 9 && "keyword.control"@.len() == 15);
    assert("attribute"@ != "keyword.control"@);
    assert("attribute"@.len() == 9 && "keyword.function"@.len() == 16);
    assert("attribute"@ != "keyword.function"@);
    assert("attribute"@.len() == 9 && "keyword.operator"@.len() == 16);
    assert("attribute"@ != "keyword.operator"@);
    assert("attribute"@.len() == 9 && "keyword.return"@.len() == 14);
    assert("attribute"@ != "keyword.return"@);
    assert("attribute"@.len() == 9 && "keyword.storage"@.len() == 15);
    assert("attribute"@ != "keyword.storage"@);
    assert("attribute"@.len() == 9 && "type"@.len() == 4);
    assert("attribute"@ != "type"@);
    assert("attribute"@.len() == 9 && "type.builtin"@.len() == 12);
    assert("attribute"@ != "type.builtin"@);
    assert("attribute"@[0] == 'a' && "primitive"@[0] == 'p');
    assert("attribute"@ != "primitive"@);
    assert("attribute"@.len() == 9 && "constant"@.len() == 8);
    assert("attribute"@ != "constant"@);
    assert("attribute"@.len() == 9 && "boolean"@.len() == 7);
    assert("attribute"@ != "boolean"@);
    assert("attribute"@.len() == 9 && "variable.builtin"@.len() == 16);
    assert("attribute"@ != "variable.builtin"@);
    assert("attribute"@.len() == 9 && "constant.builtin"@.len() == 16);
    assert("attribute"@ != "constant.builtin"@);
    assert("attribute"@.len() == 9 && "char"@.len() == 4);
    assert("attribute"@ != "char"@);
    assert("attribute"@[0] == 'a' && "character"@[0] == 'c');
    assert("attribute"@ != "character"@);
}

proof fn lemma_capture_lifetime()
    ensures
        capture_type("lifetime"@) == Some(AnnotationType::LifetimeSpecifier),
{
    reveal_strlit("lifetime");
    reveal_strlit("comment");
    reveal_strlit("string");
    reveal_strlit("string.fragment");
    reveal_strlit("constant.numeric");
    reveal_strlit("number");
    reveal_strlit("integer");
    reveal_strlit("float");
    reveal_strlit("keyword");
    reveal_strlit("keyword.control");
    reveal_strlit("keyword.function");
    reveal_strlit("keyword.operator");
    reveal_strlit("keyword.return");
    reveal_strlit("keyword.storage");
    reveal_strlit("type");
    reveal_strlit("type.builtin");
    reveal_strlit("primitive");
    reveal_strlit("constant");
    reveal_strlit("boolean");
    reveal_strlit("variable.builtin");
    reveal_strlit("constant.builtin");
    reveal_strlit("char");
    reveal_strlit("character");
    reveal_strlit("attribute");
    assert("lifetime"@.len() == 8 && "comment"@.len() == 7);
    assert("lifetime"@ != "comment"@);
    assert("lifetime"@.len() == 8 && "string"@.len() == 6);
    assert("lifetime"@ != "string"@);
    assert("lifetime"@.len() == 8 && "string.fragment"@.len() == 15);
    assert("lifetime"@ != "string.fragment"@);
    assert("lifetime"@.len() == 8 && "constant.numeric"@.len() == 16);
    assert("lifetime"@ != "constant.numeric"@);
    assert("lifetime"@.len() == 8 && "number"@.len() == 6);
    assert("lifetime"@ != "number"@);
    assert("lifetime"@.len() == 8 && "integer"@.len() == 7);
    assert("lifetime"@ != "integer"@);
    assert("lifetime"@.len() == 8 && "float"@.len() == 5);
    assert("lifetime"@ != "float"@);
    assert("lifetime"@.len() == 8 && "keyword"@.len() == 7);
    assert("lifetime"@ != "keyword"@);
    assert("lifetime"@.len() == 8 && "keyword.control"@.len() == 15);
    assert("lifetime"@ != "keyword.control"@);
    assert("lifetime"@.len() == 8 && "keyword.function"@.len() == 16);
    assert("lifetime"@ != "keyword.function"@);
    assert("lifetime"@.len() == 8 && "keyword.operator"@.len() == 16);
    assert("lifetime"@ != "keyword.operator"@);
    assert("lifetime"@.len() == 8 && "keyword.return"@.len() == 14);
    assert("lifetime"@ != "keyword.return"@);
    assert("lifetime"@.len() == 8 && "keyword.storage"@.len() == 15);
    assert("lifetime"@ != "keyword.storage"@);
    assert("lifetime"@.len() == 8 && "type"@.len() == 4);
    assert("lifetime"@ != "type"@);
    assert("lifetime"@.len() == 8 && "type.builtin"@.len() == 12);
    assert("lifetime"@ != "type.builtin"@);
    assert("lifetime"@.len() == 8 && "primitive"@.len() == 9);
    assert("lifetime"@ != "primitive"@);
    assert("lifetime"@[0] == 'l' && "constant"@[0] == 'c');
    assert("lifetime"@ != "constant"@);
    assert("lifetime"@.len() == 8 && "boolean"@.len() == 7);
    assert("lifetime"@ != "boolean"@);
    assert("lifetime"@.len() == 8 && "variable.builtin"@.len() == 16);
    assert("lifetime"@ != "variable.builtin"@);
    assert("lifetime"@.len() == 8 && "constant.builtin"@.len() == 16);
    assert("lifetime"@ != "constant.builtin"@);
    assert("lifetime"@.len() == 8 && "char"@.len() == 4);
    assert("lifetime"@ != "char"@);
    assert("lifetime"@.len() == 8 && "character"@.len() == 9);
    assert("lifetime"@ != "character"@);
    assert("lifetime"@.len() == 8 && "attribute"@.len() == 9);
    assert("lifetime"@ != "attribute"@);
}

proof fn lemma_capture_label()
    ensures
        capture_type("label"@) == Some(AnnotationType::LifetimeSpecifier),
{
    reveal_strlit("label");
    reveal_strlit("comment");
    reveal_strlit("string");
    reveal_strlit("string.fragment");
    reveal_strlit("constant.numeric");
    reveal_strlit("number");
    reveal_strlit("integer");
    reveal_strlit("float");
    reveal_strlit("keyword");
    reveal_strlit("keyword.control");
    reveal_strlit("keyword.function");
    reveal_strlit("keyword.operator");
    reveal_strlit("keyword.return");
    reveal_strlit("keyword.storage");
    reveal_strlit("type");
    reveal_strlit("type.builtin");
    reveal_strlit("primitive");
    reveal_strlit("constant");
    reveal_strlit("boolean");
    reveal_strlit("variable.builtin");
    reveal_strlit("constant.builtin");
    reveal_strlit("char");
    reveal_strlit("character");
    reveal_strlit("attribute");
    reveal_strlit("lifetime");
    assert("label"@.len() == 5 && "comment"@.len() == 7);
    assert("label"@ != "comment"@);
    assert("label"@.len() == 5 && "string"@.len() == 6);
    assert("label"@ != "string"@);
    assert("label"@.len() == 5 && "string.fragment"@.len() == 15);
    assert("label"@ != "string.fragment"@);
    assert("label"@.len() == 5 && "constant.numeric"@.len() == 16);
    assert("label"@ != "constant.numeric"@);
    assert("label"@.len() == 5 && "number"@.len() == 6);
    assert("label"@ != "number"@);
    assert("label"@.len() == 5 && "integer"@.len() == 7);
    assert("label"@ != "integer"@);
    assert("label"@[0] == 'l' && "float"@[0] == 'f');
    assert("label"@ != "float"@);
    assert("label"@.len() == 5 && "keyword"@.len() == 7);
    assert("label"@ != "keyword"@);
    assert("label"@.len() == 5 && "keyword.control"@.len() == 15);
    assert("label"@ != "keyword.control"@);
    assert("label"@.len() == 5 && "keyword.function"@.len() == 16);
    assert("label"@ != "keyword.function"@);
    assert("label"@.len() == 5 && "keyword.operator"@.len() == 16);
    assert("label"@ != "keyword.operator"@);
    assert("label"@.len() == 5 && "keyword.return"@.len() == 14);
    assert("label"@ != "keyword.return"@);
    assert("label"@.len() == 5 && "keyword.storage"@.len() == 15);
    assert("label"@ != "keyword.storage"@);
    assert("label"@.len() == 5 && "type"@.len() == 4);
    assert("label"@ != "type"@);
    assert("label"@.len() == 5 && "type.builtin"@.len() == 12);
    assert("label"@ != "type.builtin"@);
    assert("label"@.len() == 5 && "primitive"@.len() == 9);
    assert("label"@ != "primitive"@);
    assert("label"@.len() == 5 && "constant"@.len() == 8);
    assert("label"@ != "constant"@);
    assert("label"@.len() == 5 && "boolean"@.len() == 7);
    assert("label"@ != "boolean"@);
    assert("label"@.len() == 5 && "variable.builtin"@.len() == 16);
    assert("label"@ != "variable.builtin"@);
    assert("label"@.len() == 5 && "constant.builtin"@.len() == 16);
    assert("label"@ != "constant.builtin"@);
    assert("label"@.len() == 5 && "char"@.len() == 4);
    assert("label"@ != "char"@);
    assert("label"@.len() == 5 && "character"@.len() == 9);
    assert("label"@ != "character"@);
    assert("label"@.len() == 5 && "attribute"@.len() == 9);
    assert("label"@ != "attribute"@);
    assert("label"@.len() == 5 && "lifetime"@.len() == 8);
    assert("label"@ != "lifetime"@);
}

proof fn lemma_capture_function()
    ensures
        capture_type("function"@) is None,
{
    reveal_strlit("function");
    reveal_strlit("comment");
    reveal_strlit("string");
    reveal_strlit("string.fragment");
    reveal_strlit("constant.numeric");
    reveal_strlit("number");
    reveal_strlit("integer");
    reveal_strlit("float");
    reveal_strlit("keyword");
    reveal_strlit("keyword.control");
    reveal_strlit("keyword.function");
    reveal_strlit("keyword.operator");
    reveal_strlit("keyword.return");
    reveal_strlit("keyword.storage");
    reveal_strlit("type");
    reveal_strlit("type.builtin");
    reveal_strlit("primitive");
    reveal_strlit("constant");
    reveal_strlit("boolean");
    reveal_strlit("variable.builtin");
    reveal_strlit("constant.builtin");
    reveal_strlit("char");
    reveal_strlit("character");
    reveal_strlit("attribute");
    reveal_strlit("lifetime");
    reveal_strlit("label");
    assert("function"@.len() == 8 && "comment"@.len() == 7);
    assert("function"@ != "comment"@);
    assert("function"@.len() == 8 && "string"@.len() == 6);
    assert("function"@ != "string"@);
    assert("function"@.len() == 8 && "string.fragment"@.len() == 15);
    assert("function"@ != "string.fragment"@);
    assert("function"@.len() == 8 && "constant.numeric"@.len() == 16);
    assert("function"@ != "constant.numeric"@);
    assert("function"@.len() == 8 && "number"@.len() == 6);
    assert("function"@ != "number"@);
    assert("function"@.len() == 8 && "integer"@.len() == 7);
    assert("function"@ != "integer"@);
    assert("function"@.len() == 8 && "float"@.len() == 5);
    assert("function"@ != "float"@);
    assert("function"@.len() == 8 && "keyword"@.len() == 7);
    assert("function"@ != "keyword"@);
    assert("function"@.len() == 8 && "keyword.control"@.len() == 15);
    assert("function"@ != "keyword.control"@);
    assert("function"@.len() == 8 && "keyword.function"@.len() == 16);
    assert("function"@ != "keyword.function"@);
    assert("function"@.len() == 8 && "keyword.operator"@.len() == 16);
    assert("function"@ != "keyword.operator"@);
    assert("function"@.len() == 8 && "keyword.return"@.len() == 14);
    assert("function"@ != "keyword.return"@);
    assert("function"@.len() == 8 && "keyword.storage"@.len() == 15);
    assert("function"@ != "keyword.storage"@);
    assert("function"@.len() == 8 && "type"@.len() == 4);
    assert("function"@ != "type"@);
    assert("function"@.len() == 8 && "type.builtin"@.len() == 12);
    assert("function"@ != "type.builtin"@);
    assert("function"@.len() == 8 && "primitive"@.len() == 9);
    assert("function"@ != "primitive"@);
    assert("function"@[0] == 'f' && "constant"@[0] == 'c');
    assert("function"@ != "constant"@);
    assert("function"@.len() == 8 && "boolean"@.len() == 7);
    assert("function"@ != "boolean"@);
    assert("function"@.len() == 8 && "variable.builtin"@.len() == 16);
    assert("function"@ != "variable.builtin"@);
    assert("function"@.len() == 8 && "constant.builtin"@.len() == 16);
    assert("function"@ != "constant.builtin"@);
    assert("function"@.len() == 8 && "char"@.len() == 4);
    assert("function"@ != "char"@);
    assert("function"@.len() == 8 && "character"@.len() == 9);
    assert("function"@ != "character"@);
    assert("function"@.len() == 8 && "attribute"@.len() == 9);
    assert("function"@ != "attribute"@);
    assert("function"@[0] == 'f' && "lifetime"@[0] == 'l');
    assert("function"@ != "lifetime"@);
    assert("function"@.len() == 8 && "label"@.len() == 5);
    assert("function"@ != "label"@);
}

proof fn lemma_capture_variable()
    ensures
        capture_type("variable"@) is None,
{
    reveal_strlit("variable");
    reveal_strlit("comment");
    reveal_strlit("string");
    reveal_strlit("string.fragment");
    reveal_strlit("constant.numeric");
    reveal_strlit("number");
    reveal_strlit("integer");
    reveal_strlit("float");
    reveal_strlit("keyword");
    reveal_strlit("keyword.control");
    reveal_strlit("keyword.function");
    reveal_strlit("keyword.operator");
    reveal_strlit("keyword.return");
    reveal_strlit("keyword.storage");
    reveal_strlit("type");
    reveal_strlit("type.builtin");
    reveal_strlit("primitive");
    reveal_strlit("constant");
    reveal_strlit("boolean");
    reveal_strlit("variable.builtin");
    reveal_strlit("constant.builtin");
    reveal_strlit("char");
    reveal_strlit("character");
    reveal_strlit("attribute");
    reveal_strlit("lifetime");
    reveal_strlit("label");
    assert("variable"@.len() == 8 && "comment"@.len() == 7);
    assert("variable"@ != "comment"@);
    assert("variable"@.len() == 8 && "string"@.len() == 6);
    assert("variable"@ != "string"@);
    assert("variable"@.len() == 8 && "string.fragment"@.len() == 15);
    assert("variable"@ != "string.fragment"@);
    assert("variable"@.len() == 8 && "constant.numeric"@.len() == 16);
    assert("variable"@ != "constant.numeric"@);
    assert("variable"@.len() == 8 && "number"@.len() == 6);
    assert("variable"@ != "number"@);
    assert("variable"@.len() == 8 && "integer"@.len() == 7);
    assert("variable"@ != "integer"@);
    assert("variable"@.len() == 8 && "float"@.len() == 5);
    assert("variable"@ != "float"@);
    assert("variable"@.len() == 8 && "keyword"@.len() == 7);
    assert("variable"@ != "keyword"@);
    assert("variable"@.len() == 8 && "keyword.control"@.len() == 15);
    assert("variable"@ != "keyword.control"@);
    assert("variable"@.len() == 8 && "keyword.function"@.len() == 16);
    assert("variable"@ != "keyword.function"@);
    assert("variable"@.len() == 8 && "keyword.operator"@.len() == 16);
    assert("variable"@ != "keyword.operator"@);
    assert("variable"@.len() == 8 && "keyword.return"@.len() == 14);
    assert("variable"@ != "keyword.return"@);
    assert("variable"@.len() == 8 && "keyword.storage"@.len() == 15);
    assert("variable"@ != "keyword.storage"@);
    assert("variable"@.len() == 8 && "type"@.len() == 4);
    assert("variable"@ != "type"@);
    assert("variable"@.len() == 8 && "type.builtin"@.len() == 12);
    assert("variable"@ != "type.builtin"@);
    assert("variable"@.len() == 8 && "primitive"@.len() == 9);
    assert("variable"@ != "primitive"@);
    assert("variable"@[0] == 'v' && "constant"@[0] == 'c');
    assert("variable"@ != "constant"@);
    assert("variable"@.len() == 8 && "boolean"@.len() == 7);
    assert("variable"@ != "boolean"@);
    assert("variable"@.len() == 8 && "variable.builtin"@.len() == 16);
    assert("variable"@ != "variable.builtin"@);
    assert("variable"@.len() == 8 && "constant.builtin"@.len() == 16);
    assert("variable"@ != "constant.builtin"@);
    assert("variable"@.len() == 8 && "char"@.len() == 4);
    assert("variable"@ != "char"@);
    assert("variable"@.len() == 8 && "character"@.len() == 9);
    assert("variable"@ != "character"@);
    assert("variable"@.len() == 8 && "attribute"@.len() == 9);
    assert("variable"@ != "attribute"@);
    assert("variable"@[0] == 'v' && "lifetime"@[0] == 'l');
    assert("variable"@ != "lifetime"@);
    assert("variable"@.len() == 8 && "label"@.len() == 5);
    assert("variable"@ != "label"@);
}

proof fn lemma_capture_punctuation()
    ensures
        capture_type("punctuation"@) is None,
{
    reveal_strlit("punctuation");
    reveal_strlit("comment");
    reveal_strlit("string");
    reveal_strlit("string.fragment");
    reveal_strlit("constant.numeric");
    reveal_strlit("number");
    reveal_strlit("integer");
    reveal_strlit("float");
    reveal_strlit("keyword");
    reveal_strlit("keyword.control");
    reveal_strlit("keyword.function");
    reveal_strlit("keyword.operator");
    reveal_strlit("keyword.return");
    reveal_strlit("keyword.storage");
    reveal_strlit("type");
    reveal_strlit("type.builtin");
    reveal_strlit("primitive");
    reveal_strlit("constant");
    reveal_strlit("boolean");
    reveal_strlit("variable.builtin");
    reveal_strlit("constant.builtin");
    reveal_strlit("char");
    reveal_strlit("character");
    reveal_strlit("attribute");
    reveal_strlit("lifetime");
    reveal_strlit("label");
    assert("punctuation"@.len() == 11 && "comment"@.len() == 7);
    assert("punctuation"@ != "comment"@);
    assert("punctuation"@.len() == 11 && "string"@.len() == 6);
    assert("punctuation"@ != "string"@);
    assert("punctuation"@.len() == 11 && "string.fragment"@.len() == 15);
    assert("punctuation"@ != "string.fragment"@);
    assert("punctuation"@.len() == 11 && "constant.numeric"@.len() == 16);
    assert("punctuation"@ != "constant.numeric"@);
    assert("punctuation"@.len() == 11 && "number"@.len() == 6);
    assert("punctuation"@ != "number"@);
    assert("punctuation"@.len() == 11 && "integer"@.len() == 7);
    assert("punctuation"@ != "integer"@);
    assert("punctuation"@.len() == 11 && "float"@.len() == 5);
    assert("punctuation"@ != "float"@);
    assert("punctuation"@.len() == 11 && "keyword"@.len() == 7);
    assert("punctuation"@ != "keyword"@);
    assert("punctuation"@.len() == 11 && "keyword.control"@.len() == 15);
    assert("punctuation"@ != "keyword.control"@);
    assert("punctuation"@.len() == 11 && "keyword.function"@.len() == 16);
    assert("punctuation"@ != "keyword.function"@);
    assert("punctuation"@.len() == 11 && "keyword.operator"@.len() == 16);
    assert("punctuation"@ != "keyword.operator"@);
    assert("punctuation"@.len() == 11 && "keyword.return"@.len() == 14);
    assert("punctuation"@ != "keyword.return"@);
    assert("punctuation"@.len() == 11 && "keyword.storage"@.len() == 15);
    assert("punctuation"@ != "keyword.storage"@);
    assert("punctuation"@.len() == 11 && "type"@.len() == 4);
    assert("punctuation"@ != "type"@);
    assert("punctuation"@.len() == 11 && "type.builtin"@.len() == 12);
    assert("punctuation"@ != "type.builtin"@);
    assert("punctuation"@.len() == 11 && "primitive"@.len() == 9);
    assert("punctuation"@ != "primitive"@);
    assert("punctuation"@.len() == 11 && "constant"@.len() == 8);
    assert("punctuation"@ != "constant"@);
    assert("punctuation"@.len() == 11 && "boolean"@.len() == 7);
    assert("punctuation"@ != "boolean"@);
    assert("punctuation"@.len() == 11 && "variable.builtin"@.len() == 16);
    assert("punctuation"@ != "variable.builtin"@);
    assert("punctuation"@.len() == 11 && "constant.builtin"@.len() == 16);
    assert("punctuation"@ != "constant.builtin"@);
    assert("punctuation"@.len() == 11 && "char"@.len() == 4);
    assert("punctuation"@ != "char"@);
    assert("punctuation"@.len() == 11 && "character"@.len() == 9);
    assert("punctuation"@ != "character"@);
    assert("punctuation"@.len() == 11 && "attribute"@.len() == 9);
    assert("punctuation"@ != "attribute"@);
    assert("punctuation"@.len() == 11 && "lifetime"@.len() == 8);
    assert("punctuation"@ != "lifetime"@);
    assert("punctuation"@.len() == 11 && "label"@.len() == 5);
    assert("punctuation"@ != "label"@);
}

proof fn lemma_capture_operator()
    ensures
        capture_type("operator"@) is None,
{
    reveal_strlit("operator");
    reveal_strlit("comment");
    reveal_strlit("string");
    reveal_strlit("string.fragment");
    reveal_strlit("constant.numeric");
    reveal_strlit("number");
    reveal_strlit("integer");
    reveal_strlit("float");
    reveal_strlit("keyword");
    reveal_strlit("keyword.control");
    reveal_strlit("keyword.function");
    reveal_strlit("keyword.operator");
    reveal_strlit("keyword.return");
    reveal_strlit("keyword.storage");
    reveal_strlit("type");
    reveal_strlit("type.builtin");
    reveal_strlit("primitive");
    reveal_strlit("constant");
    reveal_strlit("boolean");
    reveal_strlit("variable.builtin");
    reveal_strlit("constant.builtin");
    reveal_strlit("char");
    reveal_strlit("character");
    reveal_strlit("attribute");
    reveal_strlit("lifetime");
    reveal_strlit("label");
    assert("operator"@.len() == 8 && "comment"@.len() == 7);
    assert("operator"@ != "comment"@);
    assert("operator"@.len() == 8 && "string"@.len() == 6);
    assert("operator"@ != "string"@);
    assert("operator"@.len() == 8 && "string.fragment"@.len() == 15);
    assert("operator"@ != "string.fragment"@);
    assert("operator"@.len() == 8 && "constant.numeric"@.len() == 16);
    assert("operator"@ != "constant.numeric"@);
    assert("operator"@.len() == 8 && "number"@.len() == 6);
    assert("operator"@ != "number"@);
    assert("operator"@.len() == 8 && "integer"@.len() == 7);
    assert("operator"@ != "integer"@);
    assert("operator"@.len() == 8 && "float"@.len() == 5);
    assert("operator"@ != "float"@);
    assert("operator"@.len() == 8 && "keyword"@.len() == 7);
    assert("operator"@ != "keyword"@);
    assert("operator"@.len() == 8 && "keyword.control"@.len() == 15);
    assert("operator"@ != "keyword.control"@);
    assert("operator"@.len() == 8 && "keyword.function"@.len() == 16);
    assert("operator"@ != "keyword.function"@);
    assert("operator"@.len() == 8 && "keyword.operator"@.len() == 16);
    assert("operator"@ != "keyword.operator"@);
    assert("operator"@.len() == 8 && "keyword.return"@.len() == 14);
    assert("operator"@ != "keyword.return"@);
    assert("operator"@.len() == 8 && "keyword.storage"@.len() == 15);
    assert("operator"@ != "keyword.storage"@);
    assert("operator"@.len() == 8 && "type"@.len() == 4);
    assert("operator"@ != "type"@);
    assert("operator"@.len() == 8 && "type.builtin"@.len() == 12);
    assert("operator"@ != "type.builtin"@);
    assert("operator"@.len() == 8 && "primitive"@.len() == 9);
    assert("operator"@ != "primitive"@);
    assert("operator"@[0] == 'o' && "constant"@[0] == 'c');
    assert("operator"@ != "constant"@);
    assert("operator"@.len() == 8 && "boolean"@.len() == 7);
    assert("operator"@ != "boolean"@);
    assert("operator"@.len() == 8 && "variable.builtin"@.len() == 16);
    assert("operator"@ != "variable.builtin"@);
    assert("operator"@.len() == 8 && "constant.builtin"@.len() == 16);
    assert("operator"@ != "constant.builtin"@);
    assert("operator"@.len() == 8 && "char"@.len() == 4);
    assert("operator"@ != "char"@);
    assert("operator"@.len() == 8 && "character"@.len() == 9);
    assert("operator"@ != "character"@);
    assert("operator"@.len() == 8 && "attribute"@.len() == 9);
    assert("operator"@ != "attribute"@);
    assert("operator"@[0] == 'o' && "lifetime"@[0] == 'l');
    assert("operator"@ != "lifetime"@);
    assert("operator"@.len() == 8 && "label"@.len() == 5);
    assert("operator"@ != "label"@);
}

proof fn lemma_capture_property()
    ensures
        capture_type("property"@) is None,
{
    reveal_strlit("property");
    reveal_strlit("comment");
    reveal_strlit("string");
    reveal_strlit("string.fragment");
    reveal_strlit("constant.numeric");
    reveal_strlit("number");
    reveal_strlit("integer");
    reveal_strlit("float");
    reveal_strlit("keyword");
    reveal_strlit("keyword.control");
    reveal_strlit("keyword.function");
    reveal_strlit("keyword.operator");
    reveal_strlit("keyword.return");
    reveal_strlit("keyword.storage");
    reveal_strlit("type");
    reveal_strlit("type.builtin");
    reveal_strlit("primitive");
    reveal_strlit("constant");
    reveal_strlit("boolean");
    reveal_strlit("variable.builtin");
    reveal_strlit("constant.builtin");
    reveal_strlit("char");
    reveal_strlit("character");
    reveal_strlit("attribute");
    reveal_strlit("lifetime");
    reveal_strlit("label");
    assert("property"@.len() == 8 && "comment"@.len() == 7);
    assert("property"@ != "comment"@);
    assert("property"@.len() == 8 && "string"@.len() == 6);
    assert("property"@ != "string"@);
    assert("property"@.len() == 8 && "string.fragment"@.len() == 15);
    assert("property"@ != "string.fragment"@);
    assert("property"@.len() == 8 && "constant.numeric"@.len() == 16);
    assert("property"@ != "constant.numeric"@);
    assert("property"@.len() == 8 && "number"@.len() == 6);
    assert("property"@ != "number"@);
    assert("property"@.len() == 8 && "integer"@.len() == 7);
    assert("property"@ != "integer"@);
    assert("property"@.len() == 8 && "float"@.len() == 5);
    assert("property"@ != "float"@);
    assert("property"@.len() == 8 && "keyword"@.len() == 7);
    assert("property"@ != "keyword"@);
    assert("property"@.len() == 8 && "keyword.control"@.len() == 15);
    assert("property"@ != "keyword.control"@);
    assert("property"@.len() == 8 && "keyword.function"@.len() == 16);
    assert("property"@ != "keyword.function"@);
    assert("property"@.len() == 8 && "keyword.operator"@.len() == 16);
    assert("property"@ != "keyword.operator"@);
    assert("property"@.len() == 8 && "keyword.return"@.len() == 14);
    assert("property"@ != "keyword.return"@);
    assert("property"@.len() == 8 && "keyword.storage"@.len() == 15);
    assert("property"@ != "keyword.storage"@);
    assert("property"@.len() == 8 && "type"@.len() == 4);
    assert("property"@ != "type"@);
    assert("property"@.len() == 8 && "type.builtin"@.len() == 12);
    assert("property"@ != "type.builtin"@);
    assert("property"@.len() == 8 && "primitive"@.len() == 9);
    assert("property"@ != "primitive"@);
    assert("property"@[0] == 'p' && "constant"@[0] == 'c');
    assert("property"@ != "constant"@);
    assert("property"@.len() == 8 && "boolean"@.len() == 7);
    assert("property"@ != "boolean"@);
    assert("property"@.len() == 8 && "variable.builtin"@.len() == 16);
    assert("property"@ != "variable.builtin"@);
    assert("property"@.len() == 8 && "constant.builtin"@.len() == 16);
    assert("property"@ != "constant.builtin"@);
    assert("property"@.len() == 8 && "char"@.len() == 4);
    assert("property"@ != "char"@);
    assert("property"@.len() == 8 && "character"@.len() == 9);
    assert("property"@ != "character"@);
    assert("property"@.len() == 8 && "attribute"@.len() == 9);
    assert("property"@ != "attribute"@);
    assert("property"@[0] == 'p' && "lifetime"@[0] == 'l');
    assert("property"@ != "lifetime"@);
    assert("property"@.len() == 8 && "label"@.len() == 5);
    assert("property"@ != "label"@);
}

/// Which capture names of the highlight query are coloured, and how:
/// comments as comments, strings as strings, numbers as numbers, keywords as
/// keywords, types as types, constants and booleans as known values,
/// characters as characters, attributes, lifetimes and labels alike;
/// functions, variables, punctuation, operators and properties are not.
pub proof fn lemma_capture_kinds()
    ensures
        capture_type("comment"@) == Some(AnnotationType::Comment),
        capture_type("string"@) == Some(AnnotationType::String),
        capture_type("string.fragment"@) == Some(AnnotationType::String),
        capture_type("constant.numeric"@) == Some(AnnotationType::Number),
        capture_type("number"@) == Some(AnnotationType::Number),
        capture_type("integer"@) == Some(AnnotationType::Number),
        capture_type("float"@) == Some(AnnotationType::Number),
        capture_type("keyword"@) == Some(AnnotationType::Keyword),
        capture_type("keyword.control"@) == Some(AnnotationType::Keyword),
        capture_type("keyword.function"@) == Some(AnnotationType::Keyword),
        capture_type("keyword.operator"@) == Some(AnnotationType::Keyword),
        capture_type("keyword.return"@) == Some(AnnotationType::Keyword),
        capture_type("keyword.storage"@) == Some(AnnotationType::Keyword),
        capture_type("type"@) == Some(AnnotationType::Type),
        capture_type("type.builtin"@) == Some(AnnotationType::Type),
        capture_type("primitive"@) == Some(AnnotationType::Type),
        capture_type("constant"@) == Some(AnnotationType::KnownValue),
        capture_type("boolean"@) == Some(AnnotationType::KnownValue),
        capture_type("variable.builtin"@) == Some(AnnotationType::KnownValue),
        capture_type("constant.builtin"@) == Some(AnnotationType::KnownValue),
        capture_type("char"@) == Some(AnnotationType::Char),
        capture_type("character"@) == Some(AnnotationType::Char),
        capture_type("attribute"@) == Some(AnnotationType::LifetimeSpecifier),
        capture_type("lifetime"@) == Some(AnnotationType::LifetimeSpecifier),
        capture_type("label"@) == Some(AnnotationType::LifetimeSpecifier),
        capture_type("function"@) is None,
        capture_type("variable"@) is None,
        capture_type("punctuation"@) is None,
        capture_type("operator"@) is None,
        capture_type("property"@) is None,
{
    lemma_capture_comment();
    lemma_capture_string();
    lemma_capture_string_fragment();
    lemma_capture_constant_numeric();
    lemma_capture_number();
    lemma_capture_integer();
    lemma_capture_float();
    lemma_capture_keyword();
    lemma_capture_keyword_control();
    lemma_capture_keyword_function();
    lemma_capture_keyword_operator();
    lemma_capture_keyword_return();
    lemma_capture_keyword_storage();
    lemma_capture_type();
    lemma_capture_type_builtin();
    lemma_capture_primitive();
    lemma_capture_constant();
    lemma_capture_boolean();
    lemma_capture_variable_builtin();
    lemma_capture_constant_builtin();
    lemma_capture_char();
    lemma_capture_character();
    lemma_capture_attribute();
    lemma_capture_lifetime();
    lemma_capture_label();
    lemma_capture_function();
    lemma_capture_variable();
    lemma_capture_punctuation();
    lemma_capture_operator();
    lemma_capture_property();
}

/// The kind of annotation for a capture name, if it is highlighted.
pub fn map_capture_to_annotation_type(capture: &str) -> (r: Option<AnnotationType>)
    ensures
        r == capture_type(capture@),
{
    if str_eq(capture, "comment") {
        Some(AnnotationType::Comment)
    } else if str_eq(capture, "string") || str_eq(capture, "string.fragment") {
        Some(AnnotationType::String)
    } else if str_eq(capture, "constant.numeric") || str_eq(capture, "number") || str_eq(capture, "integer")
        || str_eq(capture, "float") {
        Some(AnnotationType::Number)
    } else if str_eq(capture, "keyword") || str_eq(capture, "keyword.control") || str_eq(
        capture,
        "keyword.function",
    ) || str_eq(capture, "keyword.operator") || str_eq(capture, "keyword.return") || str_eq(
        capture,
        "keyword.storage",
    ) {
        Some(AnnotationType::Keyword)
    } else if str_eq(capture, "type") || str_eq(capture, "type.builtin") || str_eq(capture, "primitive") {
        Some(AnnotationType::Type)
    } else if str_eq(capture, "constant") || str_eq(capture, "boolean") || str_eq(capture, "variable.builtin")
        || str_eq(capture, "constant.builtin") {
        Some(AnnotationType::KnownValue)
    } else if str_eq(capture, "char") || str_eq(capture, "character") {
        Some(AnnotationType::Char)
    } else if str_eq(capture, "attribute") || str_eq(capture, "lifetime") || str_eq(capture, "label") {
        Some(AnnotationType::LifetimeSpecifier)
    } else {
        None
    }
}

/// Byte offsets at which the lines of `s` start, from character `k` on:
/// after each line break that is not the last character.
pub open spec fn line_starts_from(s: Seq<char>, k: nat) -> Seq<nat>
    decreases s.len() - k,
{
    if k >= s.len() {
        Seq::empty()
    } else if s[k as int] == '\n' && k + 1 < s.len() {
        seq![utf8_len(s.take(k + 1 as int))] + line_starts_from(s, k + 1)
    } else {
        line_starts_from(s, k + 1)
    }
}

/// Byte offsets at which the lines of `s` start (the pieces of
/// `str::split_inclusive('\n')`: none for an empty text).
pub open spec fn line_starts(s: Seq<char>) -> Seq<nat> {
    if s.len() == 0 {
        Seq::empty()
    } else {
        seq![0nat] + line_starts_from(s, 0)
    }
}

pub open spec fn sat_sub(a: nat, b: nat) -> nat {
    if a >= b {
        (a - b) as nat
    } else {
        0
    }
}

/// The part of row `row` that capture `c` covers, with byte offsets within
/// the row, if the capture's name is highlighted and the part is not empty.
pub open spec fn capture_piece(c: Capture, names: Seq<Seq<char>>, row: nat, starts: Seq<nat>, total: nat) -> Option<
    Annotation,
> {
    if c.index >= names.len() || row < c.start_row || row > c.end_row || row >= starts.len() {
        None
    } else {
        match capture_type(names[c.index as int]) {
            None => None,
            Some(t) => {
                let ls = starts[row as int];
                let le = if row + 1 < starts.len() { starts[row + 1 as int] } else { total };
                let start = if row == c.start_row { sat_sub(c.start_byte as nat, ls) } else { 0 };
                let end = if row == c.end_row { sat_sub(c.end_byte as nat, ls) } else { sat_sub(le, ls) };
                if start < end {
                    Some(Annotation { annotation_type: t, start: start as usize, end: end as usize })
                } else {
                    None
                }
            },
        }
    }
}

/// The annotations of row `row`, one per capture that covers part of it, in
/// the order of the captures.
pub open spec fn row_annotations(caps: Seq<Capture>, names: Seq<Seq<char>>, row: nat, starts: Seq<nat>, total: nat) -> Seq<
    Annotation,
>
    decreases caps.len(),
{
    if caps.len() == 0 {
        Seq::empty()
    } else {
        let rest = row_annotations(caps.drop_last(), names, row, starts, total);
        match capture_piece(caps.last(), names, row, starts, total) {
            Some(a) => rest.push(a),
            None => rest,
        }
    }
}

/// The annotations of each line of `source` for the captures `caps`.
pub open spec fn syntax_annotations(source: Seq<char>, names: Seq<Seq<char>>, caps: Seq<Capture>) -> Seq<
    Seq<Annotation>,
> {
    let starts = line_starts(source);
    Seq::new(starts.len(), |r: int| row_annotations(caps, names, r as nat, starts, utf8_len(source)))
}

pub open spec fn nats(v: Seq<usize>) -> Seq<nat> {
    v.map_values(|x: usize| x as nat)
}

/// The byte offsets at which the lines of `source` start.
fn line_start_offsets(source: &str) -> (r: Vec<usize>)
    requires
        source@.len() <= usize::MAX / 4,
    ensures
        nats(r@) == line_starts(source@),
        forall|i: int| 0 <= i < r@.len() ==> r@[i] <= utf8_len(source@),
{
    let cs = chars_of(source);
    let ghost s = source@;
    let mut starts: Vec<usize> = Vec::new();
    if cs.len() == 0 {
        assert(nats(starts@) =~= line_starts(s));
        return starts;
    }
    starts.push(0);
    let mut pos: usize = 0;
    let mut i: usize = 0;
    assert(s.take(0) =~= Seq::<char>::empty());
    while i < cs.len()
        invariant
            cs@ == s,
            s.len() <= usize::MAX / 4,
            i <= s.len(),
            pos == utf8_len(s.take(i as int)),
            line_starts(s) == nats(starts@) + line_starts_from(s, i as nat),
            forall|j: int| 0 <= j < starts@.len() ==> starts@[j] <= utf8_len(s),
        decreases s.len() - i,
    {
        let c = cs[i];
        let w = char_len_utf8(c);
        proof {
            assert(s.take(i + 1) =~= s.take(i as int) + seq![c]);
            crate::text::lemma_utf8_len_concat(s.take(i as int), seq![c]);
            crate::text::lemma_utf8_len_take_mono(s, i + 1, s.len() as int);
            assert(s.take(s.len() as int) =~= s);
            crate::text::lemma_utf8_len_upper(s);
        }
        pos = pos + w;
        if c == '\n' && i + 1 < cs.len() {
            let ghost before = starts@;
            starts.push(pos);
            assert(nats(starts@) =~= nats(before) + seq![pos as nat]);
        }
        i = i + 1;
    }
    starts
}

/// The syntax annotations of each line of `source`, for the captures `caps`
/// of a query whose capture names are `names`.
pub fn annotations_from_captures(source: &str, names: &Vec<String>, caps: &Vec<Capture>) -> (r: Vec<
    Vec<Annotation>,
>)
    requires
        source@.len() <= usize::MAX / 4,
    ensures
        r@.len() == line_starts(source@).len(),
        forall|i: int|
            0 <= i < r@.len() ==> (#[trigger] r@[i])@ == syntax_annotations(source@, strings_view(names@), caps@)[i],
{
    let ghost s = source@;
    let ghost nv = strings_view(names@);
    let starts = line_start_offsets(source);
    let ghost sv = nats(starts@);
    proof {
        crate::text::lemma_utf8_len_upper(s);
    }
    let total = source.len();
    let n = starts.len();
    let mut per_line: Vec<Vec<Annotation>> = Vec::new();
    while per_line.len() < n
        invariant
            per_line@.len() <= n,
            forall|r: int| 0 <= r < per_line@.len() ==> (#[trigger] per_line@[r])@ == Seq::<Annotation>::empty(),
        decreases n - per_line@.len(),
    {
        per_line.push(Vec::new());
    }
    let mut i: usize = 0;
    while i < caps.len()
        invariant
            i <= caps@.len(),
            per_line@.len() == n,
            n == sv.len(),
            sv == nats(starts@),
            sv == line_starts(s),
            total == utf8_len(s),
            nv == strings_view(names@),
            forall|j: int| 0 <= j < starts@.len() ==> starts@[j] <= utf8_len(s),
            forall|r: int|
                0 <= r < n ==> (#[trigger] per_line@[r])@ == row_annotations(caps@.take(i as int), nv, r as nat, sv, total as nat),
        decreases caps@.len() - i,
    {
        let c = caps[i];
        assert(caps@.take(i + 1).drop_last() =~= caps@.take(i as int));
        assert(caps@.take(i + 1).last() == c);
        let mut t: Option<AnnotationType> = None;
        if c.index < names.len() {
            t = map_capture_to_annotation_type(names[c.index].as_str());
        }
        match t {
            None => {
                assert forall|r: int| 0 <= r < n implies (#[trigger] per_line@[r])@ == row_annotations(
                    caps@.take(i + 1),
                    nv,
                    r as nat,
                    sv,
                    total as nat,
                ) by {
                    assert(capture_piece(c, nv, r as nat, sv, total as nat) is None);
                }
            },
            Some(annotation_type) => {
                let mut row = c.start_row;
                while row <= c.end_row && row < n
                    invariant
                        c == caps@[i as int],
                        i < caps@.len(),
                        caps@.take(i + 1).drop_last() == caps@.take(i as int),
                        caps@.take(i + 1).last() == c,
                        c.index < nv.len(),
                        capture_type(nv[c.index as int]) == Some(annotation_type),
                        c.start_row <= row,
                        per_line@.len() == n,
                        n == sv.len(),
                        sv == nats(starts@),
                        total == utf8_len(s),
                        forall|j: int| 0 <= j < starts@.len() ==> starts@[j] <= utf8_len(s),
                        forall|r: int|
                            0 <= r < n ==> (#[trigger] per_line@[r])@ == if c.start_row <= r < row {
                                row_annotations(caps@.take(i + 1), nv, r as nat, sv, total as nat)
                            } else {
                                row_annotations(caps@.take(i as int), nv, r as nat, sv, total as nat)
                            },
                    decreases n - row,
                {
                    let line_start = starts[row];
                    let line_end = if row + 1 < n { starts[row + 1] } else { total };
                    let start = if row == c.start_row { c.start_byte.saturating_sub(line_start) } else { 0 };
                    let end = if row == c.end_row {
                        c.end_byte.saturating_sub(line_start)
                    } else {
                        line_end.saturating_sub(line_start)
                    };
                    let ghost old_pl = per_line@;
                    if start < end {
                        let a = Annotation { annotation_type, start, end };
                        assert(capture_piece(c, nv, row as nat, sv, total as nat) == Some(a));
                        per_line[row].push(a);
                        assert(per_line@[row as int]@ == old_pl[row as int]@.push(a));
                        assert(row_annotations(caps@.take(i + 1), nv, row as nat, sv, total as nat)
                            == row_annotations(caps@.take(i as int), nv, row as nat, sv, total as nat).push(a));
                    } else {
                        assert(capture_piece(c, nv, row as nat, sv, total as nat) is None);
                        assert(row_annotations(caps@.take(i + 1), nv, row as nat, sv, total as nat)
                            == row_annotations(caps@.take(i as int), nv, row as nat, sv, total as nat));
                    }
                    assert forall|r: int| 0 <= r < n && r != row implies per_line@[r] == old_pl[r] by {}
                    row = row + 1;
                }
                assert forall|r: int| 0 <= r < n implies (#[trigger] per_line@[r])@ == row_annotations(
                    caps@.take(i + 1),
                    nv,
                    r as nat,
                    sv,
                    total as nat,
                ) by {
                    if !(c.start_row <= r < row) {
                        assert(capture_piece(c, nv, r as nat, sv, total as nat) is None);
                    }
                }
            },
        }
        i = i + 1;
    }
    assert(caps@.take(caps@.len() as int) =~= caps@);
    per_line
}

/// Syntax annotations per line, from the Rust highlight query.
pub struct TreeSitterHighlighter {
    grammar: Option<RustGrammar>,
    annotations: Vec<Vec<Annotation>>,
}

/// The capture names and captures that a highlighter annotates `source`
/// with: those of the Rust highlight query when it has the grammar and the
/// parse gives a tree, none otherwise.
pub open spec fn highlights_for(has_grammar: bool, source: Seq<char>) -> (Seq<Seq<char>>, Seq<Capture>) {
    match rust_highlights(source) {
        Some(p) => if has_grammar {
            p
        } else {
            (Seq::empty(), Seq::empty())
        },
        None => (Seq::empty(), Seq::empty()),
    }
}

impl TreeSitterHighlighter {
    /// The annotations of line `idx`, if the line is known.
    pub closed spec fn annotations_at(&self, idx: usize) -> Option<Seq<Annotation>> {
        if idx < self.annotations@.len() {
            Some(self.annotations@[idx as int]@)
        } else {
            None
        }
    }

    /// Each line of `source` has the annotations that the captures `caps`
    /// with capture names `names` give it.
    pub open spec fn annotated_by(&self, source: Seq<char>, names: Seq<Seq<char>>, caps: Seq<Capture>) -> bool {
        forall|i: int|
            0 <= i < line_starts(source).len() ==> #[trigger] self.annotations_at(i as usize) == Some(
                syntax_annotations(source, names, caps)[i],
            )
    }

    /// Whether the highlighter holds the Rust grammar and its highlight query.
    pub closed spec fn has_grammar(&self) -> bool {
        self.grammar is Some
    }

    /// Each line of `source` has the syntax annotations that the highlight
    /// query gives it.
    pub open spec fn highlights(&self, source: Seq<char>) -> bool {
        self.annotated_by(
            source,
            highlights_for(self.has_grammar(), source).0,
            highlights_for(self.has_grammar(), source).1,
        )
    }

    /// The number of lines annotated.
    pub closed spec fn line_count(&self) -> nat {
        self.annotations@.len()
    }

    /// A highlighter with the Rust grammar and its highlight query, without
    /// annotations yet.
    pub fn new() -> (r: Self)
        ensures
            r.has_grammar(),
            r.line_count() == 0,
    {
        TreeSitterHighlighter { grammar: rust_grammar(), annotations: Vec::new() }
    }

    /// Parses `source` and annotates each of its lines with the captures of
    /// the highlight query; without the grammar or a tree, the lines get no
    /// annotations.
    pub fn update_tree(&mut self, source: &str)
        requires
            source@.len() <= usize::MAX / 4,
        ensures
            final(self).has_grammar() == old(self).has_grammar(),
            final(self).line_count() == line_starts(source@).len(),
            final(self).highlights(source@),
    {
        let mut names: Vec<String> = Vec::new();
        let mut caps: Vec<Capture> = Vec::new();
        if let Some(grammar) = &mut self.grammar {
            if let Some((n, c)) = highlight_source(grammar, source) {
                names = n;
                caps = c;
            }
        }
        assert(strings_view(names@) =~= highlights_for(self.has_grammar(), source@).0);
        assert(caps@ =~= highlights_for(self.has_grammar(), source@).1);
        self.annotations = annotations_from_captures(source, &names, &caps);
        assert(self.annotations@.len() == self.annotations.len());
        assert forall|i: int| 0 <= i < line_starts(source@).len() implies #[trigger] self.annotations_at(i as usize)
            == Some(syntax_annotations(source@, strings_view(names@), caps@)[i]) by {}
    }

    /// The annotations of line `idx`, if the line is known.
    pub fn get_annotations(&self, idx: usize) -> (r: Option<&Vec<Annotation>>)
        ensures
            match r {
                Some(v) => self.annotations_at(idx) == Some(v@),
                None => self.annotations_at(idx) is None,
            },
    {
        if idx < self.annotations.len() {
            Some(&self.annotations[idx])
        } else {
            None
        }
    }
}

/// Whether files of a type get syntax highlighting.
pub open spec fn has_syntax(t: FileType) -> bool {
    t != FileType::Text
}

/// A syntax highlighter for the file type, if it has one.
pub fn create_syntax_highlighter(file_type: FileType) -> (r: Option<TreeSitterHighlighter>)
    ensures
        r is Some <==> has_syntax(file_type),
        r matches Some(h) ==> h.has_grammar() && h.line_count() == 0,
{
    match file_type {
        FileType::Rust | FileType::JavaScript | FileType::Zig | FileType::Nix => Some(TreeSitterHighlighter::new()),
        FileType::Text => None,
    }
}

} // verus!
