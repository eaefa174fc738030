use vstd::prelude::*;

pub mod annotatedstring;
pub mod annotation;
pub mod attribute;
pub mod buffer;
pub mod command;
pub mod commandbar;
pub mod contextmenu;
pub mod editor;
pub mod documentstatus;
pub mod fileinfo;
pub mod filetype;
pub mod highlighter;
pub mod infopopup;
pub mod jumplist;
pub mod keymap;
pub mod line;
pub mod lsp;
pub mod messagebar;
pub mod prelude;
pub mod text;
pub mod treesitter;
pub mod uri;
pub mod view;
pub mod vimcommand;

verus! {
} // verus!
