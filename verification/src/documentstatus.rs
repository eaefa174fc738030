//! What the status bar shows about a document.
use vstd::prelude::*;

use crate::filetype::{file_type_name, FileType};
use crate::text::{copy_str, decimal, push_char, usize_to_string};

verus! {

/// The state of the document shown in the status bar.
#[derive(Default, Eq, PartialEq, Debug)]
pub struct DocumentStatus {
    pub total_lines: usize,
    pub current_line_idx: usize,
    pub current_col_idx: usize,
    pub is_modified: bool,
    pub file_name: String,
    pub file_type: FileType,
    pub mode: String,
}

/// `n + 1`, saturating at `usize::MAX`.
pub open spec fn one_based(n: usize) -> nat {
    if n < usize::MAX {
        (n + 1) as nat
    } else {
        usize::MAX as nat
    }
}

impl DocumentStatus {
    /// " [+]" for a modified document, nothing otherwise.
    pub fn modified_indicator_to_string(&self) -> (s: String)
        ensures
            s@ == (if self.is_modified {
                seq![' ', '[', '+', ']']
            } else {
                Seq::<char>::empty()
            }),
    {
        let mut s = String::new();
        if self.is_modified {
            push_char(&mut s, ' ');
            push_char(&mut s, '[');
            push_char(&mut s, '+');
            push_char(&mut s, ']');
            assert(s@ =~= seq![' ', '[', '+', ']']);
        }
        s
    }

    /// "line:column", both counted from one.
    pub fn position_indicator_to_string(&self) -> (s: String)
        ensures
            s@ == decimal(one_based(self.current_line_idx)) + seq![':'] + decimal(
                one_based(self.current_col_idx),
            ),
    {
        let mut s = usize_to_string(self.current_line_idx.saturating_add(1));
        push_char(&mut s, ':');
        let col = usize_to_string(self.current_col_idx.saturating_add(1));
        s.append(col.as_str());
        s
    }

    /// The name of the document's file type.
    pub fn file_type_to_string(&self) -> (s: String)
        ensures
            s@ == file_type_name(self.file_type),
    {
        copy_str(self.file_type.name())
    }
}

} // verus!
