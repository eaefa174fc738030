//! Commands typed after `:`, and their completion with the tab key.
use vstd::prelude::*;

use crate::text::{
    byte_len_sat, char_len_utf8, chars_of, copy_str, push_char, sat_usize, split_whitespace, str_eq, string_from_chars,
    strings_view, utf8_len, words,
};

verus! {

/// The commands the command prompt knows.
#[derive(Copy, Clone, Eq, PartialEq, Structural, Debug)]
pub enum CommandKind {
    Quit,
    ForceQuit,
    Write,
    Syntax,
    Format,
    WriteQuit,
    Prev,
    Next,
    Open,
    Help,
    Unknown,
}

/// The command a name stands for.
pub open spec fn command_kind(name: Seq<char>) -> CommandKind {
    if name == "q"@ || name == "quit"@ {
        CommandKind::Quit
    } else if name == "q!"@ || name == "quit!"@ {
        CommandKind::ForceQuit
    } else if name == "w"@ || name == "write"@ {
        CommandKind::Write
    } else if name == "syntax"@ {
        CommandKind::Syntax
    } else if name == "fmt"@ || name == "format"@ {
        CommandKind::Format
    } else if name == "wq"@ || name == "x"@ {
        CommandKind::WriteQuit
    } else if name == "p"@ || name == "prev"@ {
        CommandKind::Prev
    } else if name == "n"@ || name == "next"@ {
        CommandKind::Next
    } else if name == "o"@ || name == "open"@ || name == "e"@ || name == "edit"@ {
        CommandKind::Open
    } else if name == "h"@ || name == "help"@ {
        CommandKind::Help
    } else {
        CommandKind::Unknown
    }
}

proof fn lemma_command_q()
    ensures
        command_kind("q"@) == CommandKind::Quit,
{
    reveal_strlit("q");
}

proof fn lemma_command_quit()
    ensures
        command_kind("quit"@) == CommandKind::Quit,
{
    reveal_strlit("quit");
    reveal_strlit("q");
    assert("quit"@.len() == 4 && "q"@.len() == 1);
    assert("quit"@ != "q"@);
}

proof fn lemma_command_q_bang()
    ensures
        command_kind("q!"@) == CommandKind::ForceQuit,
{
    reveal_strlit("q!");
    reveal_strlit("q");
    reveal_strlit("quit");
    assert("q!"@.len() == 2 && "q"@.len() == 1);
    assert("q!"@ != "q"@);
    assert("q!"@.len() == 2 && "quit"@.len() == 4);
    assert("q!"@ != "quit"@);
}

proof fn lemma_command_quit_bang()
    ensures
        command_kind("quit!"@) == CommandKind::ForceQuit,
{
    reveal_strlit("quit!");
    reveal_strlit("q");
    reveal_strlit("quit");
    reveal_strlit("q!");
    assert("quit!"@.len() == 5 && "q"@.len() == 1);
    assert("quit!"@ != "q"@);
    assert("quit!"@.len() == 5 && "quit"@.len() == 4);
    assert("quit!"@ != "quit"@);
    assert("quit!"@.len() == 5 && "q!"@.len() == 2);
    assert("quit!"@ != "q!"@);
}

proof fn lemma_command_w()
    ensures
        command_kind("w"@) == CommandKind::Write,
{
    reveal_strlit("w");
    reveal_strlit("q");
    reveal_strlit("quit");
    reveal_strlit("q!");
    reveal_strlit("quit!");
    assert("w"@[0] == 'w' && "q"@[0] == 'q');
    assert("w"@ != "q"@);
    assert("w"@.len() == 1 && "quit"@.len() == 4);
    assert("w"@ != "quit"@);
    assert("w"@.len() == 1 && "q!"@.len() == 2);
    assert("w"@ != "q!"@);
    assert("w"@.len() == 1 && "quit!"@.len() == 5);
    assert("w"@ != "quit!"@);
}

proof fn lemma_command_write()
    ensures
        command_kind("write"@) == CommandKind::Write,
{
    reveal_strlit("write");
    reveal_strlit("q");
    reveal_strlit("quit");
    reveal_strlit("q!");
    reveal_strlit("quit!");
    reveal_strlit("w");
    assert("write"@.len() == 5 && "q"@.len() == 1);
    assert("write"@ != "q"@);
    assert("write"@.len() == 5 && "quit"@.len() == 4);
    assert("write"@ != "quit"@);
    assert("write"@.len() == 5 && "q!"@.len() == 2);
    assert("write"@ != "q!"@);
    assert("write"@[0] == 'w' && "quit!"@[0] == 'q');
    assert("write"@ != "quit!"@);
    assert("write"@.len() == 5 && "w"@.len() == 1);
    assert("write"@ != "w"@);
}

proof fn lemma_command_syntax()
    ensures
        command_kind("syntax"@) == CommandKind::Syntax,
{
    reveal_strlit("syntax");
    reveal_strlit("q");
    reveal_strlit("quit");
    reveal_strlit("q!");
    reveal_strlit("quit!");
    reveal_strlit("w");
    reveal_strlit("write");
    assert("syntax"@.len() == 6 && "q"@.len() == 1);
    assert("syntax"@ != "q"@);
    assert("syntax"@.len() == 6 && "quit"@.len() == 4);
    assert("syntax"@ != "quit"@);
    assert("syntax"@.len() == 6 && "q!"@.len() == 2);
    assert("syntax"@ != "q!"@);
    assert("syntax"@.len() == 6 && "quit!"@.len() == 5);
    assert("syntax"@ != "quit!"@);
    assert("syntax"@.len() == 6 && "w"@.len() == 1);
    assert("syntax"@ != "w"@);
    assert("syntax"@.len() == 6 && "write"@.len() == 5);
    assert("syntax"@ != "write"@);
}

proof fn lemma_command_fmt()
    ensures
        command_kind("fmt"@) == CommandKind::Format,
{
    reveal_strlit("fmt");
    reveal_strlit("q");
    reveal_strlit("quit");
    reveal_strlit("q!");
    reveal_strlit("quit!");
    reveal_strlit("w");
    reveal_strlit("write");
    reveal_strlit("syntax");
    assert("fmt"@.len() == 3 && "q"@.len() == 1);
    assert("fmt"@ != "q"@);
    assert("fmt"@.len() == 3 && "quit"@.len() == 4);
    assert("fmt"@ != "quit"@);
    assert("fmt"@.len() == 3 && "q!"@.len() == 2);
    assert("fmt"@ != "q!"@);
    assert("fmt"@.len() == 3 && "quit!"@.len() == 5);
    assert("fmt"@ != "quit!"@);
    assert("fmt"@.len() == 3 && "w"@.len() == 1);
    assert("fmt"@ != "w"@);
    assert("fmt"@.len() == 3 && "write"@.len() == 5);
    assert("fmt"@ != "write"@);
    assert("fmt"@.len() == 3 && "syntax"@.len() == 6);
    assert("fmt"@ != "syntax"@);
}

proof fn lemma_command_format()
    ensures
        command_kind("format"@) == CommandKind::Format,
{
    reveal_strlit("format");
    reveal_strlit("q");
    reveal_strlit("quit");
    reveal_strlit("q!");
    reveal_strlit("quit!");
    reveal_strlit("w");
    reveal_strlit("write");
    reveal_strlit("syntax");
    reveal_strlit("fmt");
    assert("format"@.len() == 6 && "q"@.len() == 1);
    assert("format"@ != "q"@);
    assert("format"@.len() == 6 && "quit"@.len() == 4);
    assert("format"@ != "quit"@);
    assert("format"@.len() == 6 && "q!"@.len() == 2);
    assert("format"@ != "q!"@);
    assert("format"@.len() == 6 && "quit!"@.len() == 5);
    assert("format"@ != "quit!"@);
    assert("format"@.len() == 6 && "w"@.len() == 1);
    assert("format"@ != "w"@);
    assert("format"@.len() == 6 && "write"@.len() == 5);
    assert("format"@ != "write"@);
    assert("format"@[0] == 'f' && "syntax"@[0] == 's');
    assert("format"@ != "syntax"@);
    assert("format"@.len() == 6 && "fmt"@.len() == 3);
    assert("format"@ != "fmt"@);
}

proof fn lemma_command_wq()
    ensures
        command_kind("wq"@) == CommandKind::WriteQuit,
{
    reveal_strlit("wq");
    reveal_strlit("q");
    reveal_strlit("quit");
    reveal_strlit("q!");
    reveal_strlit("quit!");
    reveal_strlit("w");
    reveal_strlit("write");
    reveal_strlit("syntax");
    reveal_strlit("fmt");
    reveal_strlit("format");
    assert("wq"@.len() == 2 && "q"@.len() == 1);
    assert("wq"@ != "q"@);
    assert("wq"@.len() == 2 && "quit"@.len() == 4);
    assert("wq"@ != "quit"@);
    assert("wq"@[0] == 'w' && "q!"@[0] == 'q');
    assert("wq"@ != "q!"@);
    assert("wq"@.len() == 2 && "quit!"@.len() == 5);
    assert("wq"@ != "quit!"@);
    assert("wq"@.len() == 2 && "w"@.len() == 1);
    assert("wq"@ != "w"@);
    assert("wq"@.len() == 2 && "write"@.len() == 5);
    assert("wq"@ != "write"@);
    assert("wq"@.len() == 2 && "syntax"@.len() == 6);
    assert("wq"@ != "syntax"@);
    assert("wq"@.len() == 2 && "fmt"@.len() == 3);
    assert("wq"@ != "fmt"@);
    assert("wq"@.len() == 2 && "format"@.len() == 6);
    assert("wq"@ != "format"@);
}

proof fn lemma_command_x()
    ensures
        command_kind("x"@) == CommandKind::WriteQuit,
{
    reveal_strlit("x");
    reveal_strlit("q");
    reveal_strlit("quit");
    reveal_strlit("q!");
    reveal_strlit("quit!");
    reveal_strlit("w");
    reveal_strlit("write");
    reveal_strlit("syntax");
    reveal_strlit("fmt");
    reveal_strlit("format");
    reveal_strlit("wq");
    assert("x"@[0] == 'x' && "q"@[0] == 'q');
    assert("x"@ != "q"@);
    assert("x"@.len() == 1 && "quit"@.len() == 4);
    assert("x"@ != "quit"@);
    assert("x"@.len() == 1 && "q!"@.len() == 2);
    assert("x"@ != "q!"@);
    assert("x"@.len() == 1 && "quit!"@.len() == 5);
    assert("x"@ != "quit!"@);
    assert("x"@[0] == 'x' && "w"@[0] == 'w');
    assert("x"@ != "w"@);
    assert("x"@.len() == 1 && "write"@.len() == 5);
    assert("x"@ != "write"@);
    assert("x"@.len() == 1 && "syntax"@.len() == 6);
    assert("x"@ != "syntax"@);
    assert("x"@.len() == 1 && "fmt"@.len() == 3);
    assert("x"@ != "fmt"@);
    assert("x"@.len() == 1 && "format"@.len() == 6);
    assert("x"@ != "format"@);
    assert("x"@.len() == 1 && "wq"@.len() == 2);
    assert("x"@ != "wq"@);
}

proof fn lemma_command_p()
    ensures
        command_kind("p"@) == CommandKind::Prev,
{
    reveal_strlit("p");
    reveal_strlit("q");
    reveal_strlit("quit");
    reveal_strlit("q!");
    reveal_strlit("quit!");
    reveal_strlit("w");
    reveal_strlit("write");
    reveal_strlit("syntax");
    reveal_strlit("fmt");
    reveal_strlit("format");
    reveal_strlit("wq");
    reveal_strlit("x");
    assert("p"@[0] == 'p' && "q"@[0] == 'q');
    assert("p"@ != "q"@);
    assert("p"@.len() == 1 && "quit"@.len() == 4);
    assert("p"@ != "quit"@);
    assert("p"@.len() == 1 && "q!"@.len() == 2);
    assert("p"@ != "q!"@);
    assert("p"@.len() == 1 && "quit!"@.len() == 5);
    assert("p"@ != "quit!"@);
    assert("p"@[0] == 'p' && "w"@[0] == 'w');
    assert("p"@ != "w"@);
    assert("p"@.len() == 1 && "write"@.len() == 5);
    assert("p"@ != "write"@);
    assert("p"@.len() == 1 && "syntax"@.len() == 6);
    assert("p"@ != "syntax"@);
    assert("p"@.len() == 1 && "fmt"@.len() == 3);
    assert("p"@ != "fmt"@);
    assert("p"@.len() == 1 && "format"@.len() == 6);
    assert("p"@ != "format"@);
    assert("p"@.len() == 1 && "wq"@.len() == 2);
    assert("p"@ != "wq"@);
    assert("p"@[0] == 'p' && "x"@[0] == 'x');
    assert("p"@ != "x"@);
}

proof fn lemma_command_prev()
    ensures
        command_kind("prev"@) == CommandKind::Prev,
{
    reveal_strlit("prev");
    reveal_strlit("q");
    reveal_strlit("quit");
    reveal_strlit("q!");
    reveal_strlit("quit!");
    reveal_strlit("w");
    reveal_strlit("write");
    reveal_strlit("syntax");
    reveal_strlit("fmt");
    reveal_strlit("format");
    reveal_strlit("wq");
    reveal_strlit("x");
    reveal_strlit("p");
    assert("prev"@.len() == 4 && "q"@.len() == 1);
    assert("prev"@ != "q"@);
    assert("prev"@[0] == 'p' && "quit"@[0] == 'q');
    assert("prev"@ != "quit"@);
    assert("prev"@.len() == 4 && "q!"@.len() == 2);
    assert("prev"@ != "q!"@);
    assert("prev"@.len() == 4 && "quit!"@.len() == 5);
    assert("prev"@ != "quit!"@);
    assert("prev"@.len() == 4 && "w"@.len() == 1);
    assert("prev"@ != "w"@);
    assert("prev"@.len() == 4 && "write"@.len() == 5);
    assert("prev"@ != "write"@);
    assert("prev"@.len() == 4 && "syntax"@.len() == 6);
    assert("prev"@ != "syntax"@);
    assert("prev"@.len() == 4 && "fmt"@.len() == 3);
    assert("prev"@ != "fmt"@);
    assert("prev"@.len() == 4 && "format"@.len() == 6);
    assert("prev"@ != "format"@);
    assert("prev"@.len() == 4 && "wq"@.len() == 2);
    assert("prev"@ != "wq"@);
    assert("prev"@.len() == 4 && "x"@.len() == 1);
    assert("prev"@ != "x"@);
    assert("prev"@.len() == 4 && "p"@.len() == 1);
    assert("prev"@ != "p"@);
}

proof fn lemma_command_n()
    ensures
        command_kind("n"@) == CommandKind::Next,
{
    reveal_strlit("n");
    reveal_strlit("q");
    reveal_strlit("quit");
    reveal_strlit("q!");
    reveal_strlit("quit!");
    reveal_strlit("w");
    reveal_strlit("write");
    reveal_strlit("syntax");
    reveal_strlit("fmt");
    reveal_strlit("format");
    reveal_strlit("wq");
    reveal_strlit("x");
    reveal_strlit("p");
    reveal_strlit("prev");
    assert("n"@[0] == 'n' && "q"@[0] == 'q');
    assert("n"@ != "q"@);
    assert("n"@.len() == 1 && "quit"@.len() == 4);
    assert("n"@ != "quit"@);
    assert("n"@.len() == 1 && "q!"@.len() == 2);
    assert("n"@ != "q!"@);
    assert("n"@.len() == 1 && "quit!"@.len() == 5);
    assert("n"@ != "quit!"@);
    assert("n"@[0] == 'n' && "w"@[0] == 'w');
    assert("n"@ != "w"@);
    assert("n"@.len() == 1 && "write"@.len() == 5);
    assert("n"@ != "write"@);
    assert("n"@.len() == 1 && "syntax"@.len() == 6);
    assert("n"@ != "syntax"@);
    assert("n"@.len() == 1 && "fmt"@.len() == 3);
    assert("n"@ != "fmt"@);
    assert("n"@.len() == 1 && "format"@.len() == 6);
    assert("n"@ != "format"@);
    assert("n"@.len() == 1 && "wq"@.len() == 2);
    assert("n"@ != "wq"@);
    assert("n"@[0] == 'n' && "x"@[0] == 'x');
    assert("n"@ != "x"@);
    assert("n"@[0] == 'n' && "p"@[0] == 'p');
    assert("n"@ != "p"@);
    assert("n"@.len() == 1 && "prev"@.len() == 4);
    assert("n"@ != "prev"@);
}

proof fn lemma_command_next()
    ensures
        command_kind("next"@) == CommandKind::Next,
{
    reveal_strlit("next");
    reveal_strlit("q");
    reveal_strlit("quit");
    reveal_strlit("q!");
    reveal_strlit("quit!");
    reveal_strlit("w");
    reveal_strlit("write");
    reveal_strlit("syntax");
    reveal_strlit("fmt");
    reveal_strlit("format");
    reveal_strlit("wq");
    reveal_strlit("x");
    reveal_strlit("p");
    reveal_strlit("prev");
    reveal_strlit("n");
    assert("next"@.len() == 4 && "q"@.len() == 1);
    assert("next"@ != "q"@);
    assert("next"@[0] == 'n' && "quit"@[0] == 'q');
    assert("next"@ != "quit"@);
    assert("next"@.len() == 4 && "q!"@.len() == 2);
    assert("next"@ != "q!"@);
    assert("next"@.len() == 4 && "quit!"@.len() == 5);
    assert("next"@ != "quit!"@);
    assert("next"@.len() == 4 && "w"@.len() == 1);
    assert("next"@ != "w"@);
    assert("next"@.len() == 4 && "write"@.len() == 5);
    assert("next"@ != "write"@);
    assert("next"@.len() == 4 && "syntax"@.len() == 6);
    assert("next"@ != "syntax"@);
    assert("next"@.len() == 4 && "fmt"@.len() == 3);
    assert("next"@ != "fmt"@);
    assert("next"@.len() == 4 && "format"@.len() == 6);
    assert("next"@ != "format"@);
    assert("next"@.len() == 4 && "wq"@.len() == 2);
    assert("next"@ != "wq"@);
    assert("next"@.len() == 4 && "x"@.len() == 1);
    assert("next"@ != "x"@);
    assert("next"@.len() == 4 && "p"@.len() == 1);
    assert("next"@ != "p"@);
    assert("next"@[0] == 'n' && "prev"@[0] == 'p');
    assert("next"@ != "prev"@);
    assert("next"@.len() == 4 && "n"@.len() == 1);
    assert("next"@ != "n"@);
}

proof fn lemma_command_o()
    ensures
        command_kind("o"@) == CommandKind::Open,
{
    reveal_strlit("o");
    reveal_strlit("q");
    reveal_strlit("quit");
    reveal_strlit("q!");
    reveal_strlit("quit!");
    reveal_strlit("w");
    reveal_strlit("write");
    reveal_strlit("syntax");
    reveal_strlit("fmt");
    reveal_strlit("format");
    reveal_strlit("wq");
    reveal_strlit("x");
    reveal_strlit("p");
    reveal_strlit("prev");
    reveal_strlit("n");
    reveal_strlit("next");
    assert("o"@[0] == 'o' && "q"@[0] == 'q');
    assert("o"@ != "q"@);
    assert("o"@.len() == 1 && "quit"@.len() == 4);
    assert("o"@ != "quit"@);
    assert("o"@.len() == 1 && "q!"@.len() == 2);
    assert("o"@ != "q!"@);
    assert("o"@.len() == 1 && "quit!"@.len() == 5);
    assert("o"@ != "quit!"@);
    assert("o"@[0] == 'o' && "w"@[0] == 'w');
    assert("o"@ != "w"@);
    assert("o"@.len() == 1 && "write"@.len() == 5);
    assert("o"@ != "write"@);
    assert("o"@.len() == 1 && "syntax"@.len() == 6);
    assert("o"@ != "syntax"@);
    assert("o"@.len() == 1 && "fmt"@.len() == 3);
    assert("o"@ != "fmt"@);
    assert("o"@.len() == 1 && "format"@.len() == 6);
    assert("o"@ != "format"@);
    assert("o"@.len() == 1 && "wq"@.len() == 2);
    assert("o"@ != "wq"@);
    assert("o"@[0] == 'o' && "x"@[0] == 'x');
    assert("o"@ != "x"@);
    assert("o"@[0] == 'o' && "p"@[0] == 'p');
    assert("o"@ != "p"@);
    assert("o"@.len() == 1 && "prev"@.len() == 4);
    assert("o"@ != "prev"@);
    assert("o"@[0] == 'o' && "n"@[0] == 'n');
    assert("o"@ != "n"@);
    assert("o"@.len() == 1 && "next"@.len() == 4);
    assert("o"@ != "next"@);
}

proof fn lemma_command_open()
    ensures
        command_kind("open"@) == CommandKind::Open,
{
    reveal_strlit("open");
    reveal_strlit("q");
    reveal_strlit("quit");
    reveal_strlit("q!");
    reveal_strlit("quit!");
    reveal_strlit("w");
    reveal_strlit("write");
    reveal_strlit("syntax");
    reveal_strlit("fmt");
    reveal_strlit("format");
    reveal_strlit("wq");
    reveal_strlit("x");
    reveal_strlit("p");
    reveal_strlit("prev");
    reveal_strlit("n");
    reveal_strlit("next");
    reveal_strlit("o");
    assert("open"@.len() == 4 && "q"@.len() == 1);
    assert("open"@ != "q"@);
    assert("open"@[0] == 'o' && "quit"@[0] == 'q');
    assert("open"@ != "quit"@);
    assert("open"@.len() == 4 && "q!"@.len() == 2);
    assert("open"@ != "q!"@);
    assert("open"@.len() == 4 && "quit!"@.len() == 5);
    assert("open"@ != "quit!"@);
    assert("open"@.len() == 4 && "w"@.len() == 1);
    assert("open"@ != "w"@);
    assert("open"@.len() == 4 && "write"@.len() == 5);
    assert("open"@ != "write"@);
    assert("open"@.len() == 4 && "syntax"@.len() == 6);
    assert("open"@ != "syntax"@);
    assert("open"@.len() == 4 && "fmt"@.len() == 3);
    assert("open"@ != "fmt"@);
    assert("open"@.len() == 4 && "format"@.len() == 6);
    assert("open"@ != "format"@);
    assert("open"@.len() == 4 && "wq"@.len() == 2);
    assert("open"@ != "wq"@);
    assert("open"@.len() == 4 && "x"@.len() == 1);
    assert("open"@ != "x"@);
    assert("open"@.len() == 4 && "p"@.len() == 1);
    assert("open"@ != "p"@);
    assert("open"@[0] == 'o' && "prev"@[0] == 'p');
    assert("open"@ != "prev"@);
    assert("open"@.len() == 4 && "n"@.len() == 1);
    assert("open"@ != "n"@);
    assert("open"@[0] == 'o' && "next"@[0] == 'n');
    assert("open"@ != "next"@);
    assert("open"@.len() == 4 && "o"@.len() == 1);
    assert("open"@ != "o"@);
}

proof fn lemma_command_e()
    ensures
        command_kind("e"@) == CommandKind::Open,
{
    reveal_strlit("e");
    reveal_strlit("q");
    reveal_strlit("quit");
    reveal_strlit("q!");
    reveal_strlit("quit!");
    reveal_strlit("w");
    reveal_strlit("write");
    reveal_strlit("syntax");
    reveal_strlit("fmt");
    reveal_strlit("format");
    reveal_strlit("wq");
    reveal_strlit("x");
    reveal_strlit("p");
    reveal_strlit("prev");
    reveal_strlit("n");
    reveal_strlit("next");
    reveal_strlit("o");
    reveal_strlit("open");
    assert("e"@[0] == 'e' && "q"@[0] == 'q');
    assert("e"@ != "q"@);
    assert("e"@.len() == 1 && "quit"@.len() == 4);
    assert("e"@ != "quit"@);
    assert("e"@.len() == 1 && "q!"@.len() == 2);
    assert("e"@ != "q!"@);
    assert("e"@.len() == 1 && "quit!"@.len() == 5);
    assert("e"@ != "quit!"@);
    assert("e"@[0] == 'e' && "w"@[0] == 'w');
    assert("e"@ != "w"@);
    assert("e"@.len() == 1 && "write"@.len() == 5);
    assert("e"@ != "write"@);
    assert("e"@.len() == 1 && "syntax"@.len() == 6);
    assert("e"@ != "syntax"@);
    assert("e"@.len() == 1 && "fmt"@.len() == 3);
    assert("e"@ != "fmt"@);
    assert("e"@.len() == 1 && "format"@.len() == 6);
    assert("e"@ != "format"@);
    assert("e"@.len() == 1 && "wq"@.len() == 2);
    assert("e"@ != "wq"@);
    assert("e"@[0] == 'e' && "x"@[0] == 'x');
    assert("e"@ != "x"@);
    assert("e"@[0] == 'e' && "p"@[0] == 'p');
    assert("e"@ != "p"@);
    assert("e"@.len() == 1 && "prev"@.len() == 4);
    assert("e"@ != "prev"@);
    assert("e"@[0] == 'e' && "n"@[0] == 'n');
    assert("e"@ != "n"@);
    assert("e"@.len() == 1 && "next"@.len() == 4);
    assert("e"@ != "next"@);
    assert("e"@[0] == 'e' && "o"@[0] == 'o');
    assert("e"@ != "o"@);
    assert("e"@.len() == 1 && "open"@.len() == 4);
    assert("e"@ != "open"@);
}

proof fn lemma_command_edit()
    ensures
        command_kind("edit"@) == CommandKind::Open,
{
    reveal_strlit("edit");
    reveal_strlit("q");
    reveal_strlit("quit");
    reveal_strlit("q!");
    reveal_strlit("quit!");
    reveal_strlit("w");
    reveal_strlit("write");
    reveal_strlit("syntax");
    reveal_strlit("fmt");
    reveal_strlit("format");
    reveal_strlit("wq");
    reveal_strlit("x");
    reveal_strlit("p");
    reveal_strlit("prev");
    reveal_strlit("n");
    reveal_strlit("next");
    reveal_strlit("o");
    reveal_strlit("open");
    reveal_strlit("e");
    assert("edit"@.len() == 4 && "q"@.len() == 1);
    assert("edit"@ != "q"@);
    assert("edit"@[0] == 'e' && "quit"@[0] == 'q');
    assert("edit"@ != "quit"@);
    assert("edit"@.len() == 4 && "q!"@.len() == 2);
    assert("edit"@ != "q!"@);
    assert("edit"@.len() == 4 && "quit!"@.len() == 5);
    assert("edit"@ != "quit!"@);
    assert("edit"@.len() == 4 && "w"@.len() == 1);
    assert("edit"@ != "w"@);
    assert("edit"@.len() == 4 && "write"@.len() == 5);
    assert("edit"@ != "write"@);
    assert("edit"@.len() == 4 && "syntax"@.len() == 6);
    assert("edit"@ != "syntax"@);
    assert("edit"@.len() == 4 && "fmt"@.len() == 3);
    assert("edit"@ != "fmt"@);
    assert("edit"@.len() == 4 && "format"@.len() == 6);
    assert("edit"@ != "format"@);
    assert("edit"@.len() == 4 && "wq"@.len() == 2);
    assert("edit"@ != "wq"@);
    assert("edit"@.len() == 4 && "x"@.len() == 1);
    assert("edit"@ != "x"@);
    assert("edit"@.len() == 4 && "p"@.len() == 1);
    assert("edit"@ != "p"@);
    assert("edit"@[0] == 'e' && "prev"@[0] == 'p');
    assert("edit"@ != "prev"@);
    assert("edit"@.len() == 4 && "n"@.len() == 1);
    assert("edit"@ != "n"@);
    assert("edit"@[0] == 'e' && "next"@[0] == 'n');
    assert("edit"@ != "next"@);
    assert("edit"@.len() == 4 && "o"@.len() == 1);
    assert("edit"@ != "o"@);
    assert("edit"@[0] == 'e' && "open"@[0] == 'o');
    assert("edit"@ != "open"@);
    assert("edit"@.len() == 4 && "e"@.len() == 1);
    assert("edit"@ != "e"@);
}

proof fn lemma_command_h()
    ensures
        command_kind("h"@) == CommandKind::Help,
{
    reveal_strlit("h");
    reveal_strlit("q");
    reveal_strlit("quit");
    reveal_strlit("q!");
    reveal_strlit("quit!");
    reveal_strlit("w");
    reveal_strlit("write");
    reveal_strlit("syntax");
    reveal_strlit("fmt");
    reveal_strlit("format");
    reveal_strlit("wq");
    reveal_strlit("x");
    reveal_strlit("p");
    reveal_strlit("prev");
    reveal_strlit("n");
    reveal_strlit("next");
    reveal_strlit("o");
    reveal_strlit("open");
    reveal_strlit("e");
    reveal_strlit("edit");
    assert("h"@[0] == 'h' && "q"@[0] == 'q');
    assert("h"@ != "q"@);
    assert("h"@.len() == 1 && "quit"@.len() == 4);
    assert("h"@ != "quit"@);
    assert("h"@.len() == 1 && "q!"@.len() == 2);
    assert("h"@ != "q!"@);
    assert("h"@.len() == 1 && "quit!"@.len() == 5);
    assert("h"@ != "quit!"@);
    assert("h"@[0] == 'h' && "w"@[0] == 'w');
    assert("h"@ != "w"@);
    assert("h"@.len() == 1 && "write"@.len() == 5);
    assert("h"@ != "write"@);
    assert("h"@.len() == 1 && "syntax"@.len() == 6);
    assert("h"@ != "syntax"@);
    assert("h"@.len() == 1 && "fmt"@.len() == 3);
    assert("h"@ != "fmt"@);
    assert("h"@.len() == 1 && "format"@.len() == 6);
    assert("h"@ != "format"@);
    assert("h"@.len() == 1 && "wq"@.len() == 2);
    assert("h"@ != "wq"@);
    assert("h"@[0] == 'h' && "x"@[0] == 'x');
    assert("h"@ != "x"@);
    assert("h"@[0] == 'h' && "p"@[0] == 'p');
    assert("h"@ != "p"@);
    assert("h"@.len() == 1 && "prev"@.len() == 4);
    assert("h"@ != "prev"@);
    assert("h"@[0] == 'h' && "n"@[0] == 'n');
    assert("h"@ != "n"@);
    assert("h"@.len() == 1 && "next"@.len() == 4);
    assert("h"@ != "next"@);
    assert("h"@[0] == 'h' && "o"@[0] == 'o');
    assert("h"@ != "o"@);
    assert("h"@.len() == 1 && "open"@.len() == 4);
    assert("h"@ != "open"@);
    assert("h"@[0] == 'h' && "e"@[0] == 'e');
    assert("h"@ != "e"@);
    assert("h"@.len() == 1 && "edit"@.len() == 4);
    assert("h"@ != "edit"@);
}

proof fn lemma_command_help()
    ensures
        command_kind("help"@) == CommandKind::Help,
{
    reveal_strlit("help");
    reveal_strlit("q");
    reveal_strlit("quit");
    reveal_strlit("q!");
    reveal_strlit("quit!");
    reveal_strlit("w");
    reveal_strlit("write");
    reveal_strlit("syntax");
    reveal_strlit("fmt");
    reveal_strlit("format");
    reveal_strlit("wq");
    reveal_strlit("x");
    reveal_strlit("p");
    reveal_strlit("prev");
    reveal_strlit("n");
    reveal_strlit("next");
    reveal_strlit("o");
    reveal_strlit("open");
    reveal_strlit("e");
    reveal_strlit("edit");
    reveal_strlit("h");
    assert("help"@.len() == 4 && "q"@.len() == 1);
    assert("help"@ != "q"@);
    assert("help"@[0] == 'h' && "quit"@[0] == 'q');
    assert("help"@ != "quit"@);
    assert("help"@.len() == 4 && "q!"@.len() == 2);
    assert("help"@ != "q!"@);
    assert("help"@.len() == 4 && "quit!"@.len() == 5);
    assert("help"@ != "quit!"@);
    assert("help"@.len() == 4 && "w"@.len() == 1);
    assert("help"@ != "w"@);
    assert("help"@.len() == 4 && "write"@.len() == 5);
    assert("help"@ != "write"@);
    assert("help"@.len() == 4 && "syntax"@.len() == 6);
    assert("help"@ != "syntax"@);
    assert("help"@.len() == 4 && "fmt"@.len() == 3);
    assert("help"@ != "fmt"@);
    assert("help"@.len() == 4 && "format"@.len() == 6);
    assert("help"@ != "format"@);
    assert("help"@.len() == 4 && "wq"@.len() == 2);
    assert("help"@ != "wq"@);
    assert("help"@.len() == 4 && "x"@.len() == 1);
    assert("help"@ != "x"@);
    assert("help"@.len() == 4 && "p"@.len() == 1);
    assert("help"@ != "p"@);
    assert("help"@[0] == 'h' && "prev"@[0] == 'p');
    assert("help"@ != "prev"@);
    assert("help"@.len() == 4 && "n"@.len() == 1);
    assert("help"@ != "n"@);
    assert("help"@[0] == 'h' && "next"@[0] == 'n');
    assert("help"@ != "next"@);
    assert("help"@.len() == 4 && "o"@.len() == 1);
    assert("help"@ != "o"@);
    assert("help"@[0] == 'h' && "open"@[0] == 'o');
    assert("help"@ != "open"@);
    assert("help"@.len() == 4 && "e"@.len() == 1);
    assert("help"@ != "e"@);
    assert("help"@[0] == 'h' && "edit"@[0] == 'e');
    assert("help"@ != "edit"@);
    assert("help"@.len() == 4 && "h"@.len() == 1);
    assert("help"@ != "h"@);
}

proof fn lemma_command_wx()
    ensures
        command_kind("wx"@) == CommandKind::Unknown,
{
    reveal_strlit("wx");
    reveal_strlit("q");
    reveal_strlit("quit");
    reveal_strlit("q!");
    reveal_strlit("quit!");
    reveal_strlit("w");
    reveal_strlit("write");
    reveal_strlit("syntax");
    reveal_strlit("fmt");
    reveal_strlit("format");
    reveal_strlit("wq");
    reveal_strlit("x");
    reveal_strlit("p");
    reveal_strlit("prev");
    reveal_strlit("n");
    reveal_strlit("next");
    reveal_strlit("o");
    reveal_strlit("open");
    reveal_strlit("e");
    reveal_strlit("edit");
    reveal_strlit("h");
    reveal_strlit("help");
    assert("wx"@.len() == 2 && "q"@.len() == 1);
    assert("wx"@ != "q"@);
    assert("wx"@.len() == 2 && "quit"@.len() == 4);
    assert("wx"@ != "quit"@);
    assert("wx"@[0] == 'w' && "q!"@[0] == 'q');
    assert("wx"@ != "q!"@);
    assert("wx"@.len() == 2 && "quit!"@.len() == 5);
    assert("wx"@ != "quit!"@);
    assert("wx"@.len() == 2 && "w"@.len() == 1);
    assert("wx"@ != "w"@);
    assert("wx"@.len() == 2 && "write"@.len() == 5);
    assert("wx"@ != "write"@);
    assert("wx"@.len() == 2 && "syntax"@.len() == 6);
    assert("wx"@ != "syntax"@);
    assert("wx"@.len() == 2 && "fmt"@.len() == 3);
    assert("wx"@ != "fmt"@);
    assert("wx"@.len() == 2 && "format"@.len() == 6);
    assert("wx"@ != "format"@);
    assert("wx"@[1] == 'x' && "wq"@[1] == 'q');
    assert("wx"@ != "wq"@);
    assert("wx"@.len() == 2 && "x"@.len() == 1);
    assert("wx"@ != "x"@);
    assert("wx"@.len() == 2 && "p"@.len() == 1);
    assert("wx"@ != "p"@);
    assert("wx"@.len() == 2 && "prev"@.len() == 4);
    assert("wx"@ != "prev"@);
    assert("wx"@.len() == 2 && "n"@.len() == 1);
    assert("wx"@ != "n"@);
    assert("wx"@.len() == 2 && "next"@.len() == 4);
    assert("wx"@ != "next"@);
    assert("wx"@.len() == 2 && "o"@.len() == 1);
    assert("wx"@ != "o"@);
    assert("wx"@.len() == 2 && "open"@.len() == 4);
    assert("wx"@ != "open"@);
    assert("wx"@.len() == 2 && "e"@.len() == 1);
    assert("wx"@ != "e"@);
    assert("wx"@.len() == 2 && "edit"@.len() == 4);
    assert("wx"@ != "edit"@);
    assert("wx"@.len() == 2 && "h"@.len() == 1);
    assert("wx"@ != "h"@);
    assert("wx"@.len() == 2 && "help"@.len() == 4);
    assert("wx"@ != "help"@);
}

proof fn lemma_command_save()
    ensures
        command_kind("save"@) == CommandKind::Unknown,
{
    reveal_strlit("save");
    reveal_strlit("q");
    reveal_strlit("quit");
    reveal_strlit("q!");
    reveal_strlit("quit!");
    reveal_strlit("w");
    reveal_strlit("write");
    reveal_strlit("syntax");
    reveal_strlit("fmt");
    reveal_strlit("format");
    reveal_strlit("wq");
    reveal_strlit("x");
    reveal_strlit("p");
    reveal_strlit("prev");
    reveal_strlit("n");
    reveal_strlit("next");
    reveal_strlit("o");
    reveal_strlit("open");
    reveal_strlit("e");
    reveal_strlit("edit");
    reveal_strlit("h");
    reveal_strlit("help");
    assert("save"@.len() == 4 && "q"@.len() == 1);
    assert("save"@ != "q"@);
    assert("save"@[0] == 's' && "quit"@[0] == 'q');
    assert("save"@ != "quit"@);
    assert("save"@.len() == 4 && "q!"@.len() == 2);
    assert("save"@ != "q!"@);
    assert("save"@.len() == 4 && "quit!"@.len() == 5);
    assert("save"@ != "quit!"@);
    assert("save"@.len() == 4 && "w"@.len() == 1);
    assert("save"@ != "w"@);
    assert("save"@.len() == 4 && "write"@.len() == 5);
    assert("save"@ != "write"@);
    assert("save"@.len() == 4 && "syntax"@.len() == 6);
    assert("save"@ != "syntax"@);
    assert("save"@.len() == 4 && "fmt"@.len() == 3);
    assert("save"@ != "fmt"@);
    assert("save"@.len() == 4 && "format"@.len() == 6);
    assert("save"@ != "format"@);
    assert("save"@.len() == 4 && "wq"@.len() == 2);
    assert("save"@ != "wq"@);
    assert("save"@.len() == 4 && "x"@.len() == 1);
    assert("save"@ != "x"@);
    assert("save"@.len() == 4 && "p"@.len() == 1);
    assert("save"@ != "p"@);
    assert("save"@[0] == 's' && "prev"@[0] == 'p');
    assert("save"@ != "prev"@);
    assert("save"@.len() == 4 && "n"@.len() == 1);
    assert("save"@ != "n"@);
    assert("save"@[0] == 's' && "next"@[0] == 'n');
    assert("save"@ != "next"@);
    assert("save"@.len() == 4 && "o"@.len() == 1);
    assert("save"@ != "o"@);
    assert("save"@[0] == 's' && "open"@[0] == 'o');
    assert("save"@ != "open"@);
    assert("save"@.len() == 4 && "e"@.len() == 1);
    assert("save"@ != "e"@);
    assert("save"@[0] == 's' && "edit"@[0] == 'e');
    assert("save"@ != "edit"@);
    assert("save"@.len() == 4 && "h"@.len() == 1);
    assert("save"@ != "h"@);
    assert("save"@[0] == 's' && "help"@[0] == 'h');
    assert("save"@ != "help"@);
}

proof fn lemma_command_exit()
    ensures
        command_kind("exit"@) == CommandKind::Unknown,
{
    reveal_strlit("exit");
    reveal_strlit("q");
    reveal_strlit("quit");
    reveal_strlit("q!");
    reveal_strlit("quit!");
    reveal_strlit("w");
    reveal_strlit("write");
    reveal_strlit("syntax");
    reveal_strlit("fmt");
    reveal_strlit("format");
    reveal_strlit("wq");
    reveal_strlit("x");
    reveal_strlit("p");
    reveal_strlit("prev");
    reveal_strlit("n");
    reveal_strlit("next");
    reveal_strlit("o");
    reveal_strlit("open");
    reveal_strlit("e");
    reveal_strlit("edit");
    reveal_strlit("h");
    reveal_strlit("help");
    assert("exit"@.len() == 4 && "q"@.len() == 1);
    assert("exit"@ != "q"@);
    assert("exit"@[0] == 'e' && "quit"@[0] == 'q');
    assert("exit"@ != "quit"@);
    assert("exit"@.len() == 4 && "q!"@.len() == 2);
    assert("exit"@ != "q!"@);
    assert("exit"@.len() == 4 && "quit!"@.len() == 5);
    assert("exit"@ != "quit!"@);
    assert("exit"@.len() == 4 && "w"@.len() == 1);
    assert("exit"@ != "w"@);
    assert("exit"@.len() == 4 && "write"@.len() == 5);
    assert("exit"@ != "write"@);
    assert("exit"@.len() == 4 && "syntax"@.len() == 6);
    assert("exit"@ != "syntax"@);
    assert("exit"@.len() == 4 && "fmt"@.len() == 3);
    assert("exit"@ != "fmt"@);
    assert("exit"@.len() == 4 && "format"@.len() == 6);
    assert("exit"@ != "format"@);
    assert("exit"@.len() == 4 && "wq"@.len() == 2);
    assert("exit"@ != "wq"@);
    assert("exit"@.len() == 4 && "x"@.len() == 1);
    assert("exit"@ != "x"@);
    assert("exit"@.len() == 4 && "p"@.len() == 1);
    assert("exit"@ != "p"@);
    assert("exit"@[0] == 'e' && "prev"@[0] == 'p');
    assert("exit"@ != "prev"@);
    assert("exit"@.len() == 4 && "n"@.len() == 1);
    assert("exit"@ != "n"@);
    assert("exit"@[0] == 'e' && "next"@[0] == 'n');
    assert("exit"@ != "next"@);
    assert("exit"@.len() == 4 && "o"@.len() == 1);
    assert("exit"@ != "o"@);
    assert("exit"@[0] == 'e' && "open"@[0] == 'o');
    assert("exit"@ != "open"@);
    assert("exit"@.len() == 4 && "e"@.len() == 1);
    assert("exit"@ != "e"@);
    assert("exit"@[1] == 'x' && "edit"@[1] == 'd');
    assert("exit"@ != "edit"@);
    assert("exit"@.len() == 4 && "h"@.len() == 1);
    assert("exit"@ != "h"@);
    assert("exit"@[0] == 'e' && "help"@[0] == 'h');
    assert("exit"@ != "help"@);
}

proof fn lemma_command_xq()
    ensures
        command_kind("xq"@) == CommandKind::Unknown,
{
    reveal_strlit("xq");
    reveal_strlit("q");
    reveal_strlit("quit");
    reveal_strlit("q!");
    reveal_strlit("quit!");
    reveal_strlit("w");
    reveal_strlit("write");
    reveal_strlit("syntax");
    reveal_strlit("fmt");
    reveal_strlit("format");
    reveal_strlit("wq");
    reveal_strlit("x");
    reveal_strlit("p");
    reveal_strlit("prev");
    reveal_strlit("n");
    reveal_strlit("next");
    reveal_strlit("o");
    reveal_strlit("open");
    reveal_strlit("e");
    reveal_strlit("edit");
    reveal_strlit("h");
    reveal_strlit("help");
    assert("xq"@.len() == 2 && "q"@.len() == 1);
    assert("xq"@ != "q"@);
    assert("xq"@.len() == 2 && "quit"@.len() == 4);
    assert("xq"@ != "quit"@);
    assert("xq"@[0] == 'x' && "q!"@[0] == 'q');
    assert("xq"@ != "q!"@);
    assert("xq"@.len() == 2 && "quit!"@.len() == 5);
    assert("xq"@ != "quit!"@);
    assert("xq"@.len() == 2 && "w"@.len() == 1);
    assert("xq"@ != "w"@);
    assert("xq"@.len() == 2 && "write"@.len() == 5);
    assert("xq"@ != "write"@);
    assert("xq"@.len() == 2 && "syntax"@.len() == 6);
    assert("xq"@ != "syntax"@);
    assert("xq"@.len() == 2 && "fmt"@.len() == 3);
    assert("xq"@ != "fmt"@);
    assert("xq"@.len() == 2 && "format"@.len() == 6);
    assert("xq"@ != "format"@);
    assert("xq"@[0] == 'x' && "wq"@[0] == 'w');
    assert("xq"@ != "wq"@);
    assert("xq"@.len() == 2 && "x"@.len() == 1);
    assert("xq"@ != "x"@);
    assert("xq"@.len() == 2 && "p"@.len() == 1);
    assert("xq"@ != "p"@);
    assert("xq"@.len() == 2 && "prev"@.len() == 4);
    assert("xq"@ != "prev"@);
    assert("xq"@.len() == 2 && "n"@.len() == 1);
    assert("xq"@ != "n"@);
    assert("xq"@.len() == 2 && "next"@.len() == 4);
    assert("xq"@ != "next"@);
    assert("xq"@.len() == 2 && "o"@.len() == 1);
    assert("xq"@ != "o"@);
    assert("xq"@.len() == 2 && "open"@.len() == 4);
    assert("xq"@ != "open"@);
    assert("xq"@.len() == 2 && "e"@.len() == 1);
    assert("xq"@ != "e"@);
    assert("xq"@.len() == 2 && "edit"@.len() == 4);
    assert("xq"@ != "edit"@);
    assert("xq"@.len() == 2 && "h"@.len() == 1);
    assert("xq"@ != "h"@);
    assert("xq"@.len() == 2 && "help"@.len() == 4);
    assert("xq"@ != "help"@);
}

/// What each `:` command name does: `q`/`quit` quit, `q!`/`quit!` quit
/// without asking, `w`/`write` save, `wq` and `x` save and quit, `syntax`
/// toggles highlighting, `fmt`/`format` format, `p`/`prev` and `n`/`next`
/// switch views, `o`/`open`/`e`/`edit` open a file, `h`/`help` show help;
/// other names are unknown.
pub proof fn lemma_command_table()
    ensures
        command_kind("q"@) == CommandKind::Quit,
        command_kind("quit"@) == CommandKind::Quit,
        command_kind("q!"@) == CommandKind::ForceQuit,
        command_kind("quit!"@) == CommandKind::ForceQuit,
        command_kind("w"@) == CommandKind::Write,
        command_kind("write"@) == CommandKind::Write,
        command_kind("syntax"@) == CommandKind::Syntax,
        command_kind("fmt"@) == CommandKind::Format,
        command_kind("format"@) == CommandKind::Format,
        command_kind("wq"@) == CommandKind::WriteQuit,
        command_kind("x"@) == CommandKind::WriteQuit,
        command_kind("p"@) == CommandKind::Prev,
        command_kind("prev"@) == CommandKind::Prev,
        command_kind("n"@) == CommandKind::Next,
        command_kind("next"@) == CommandKind::Next,
        command_kind("o"@) == CommandKind::Open,
        command_kind("open"@) == CommandKind::Open,
        command_kind("e"@) == CommandKind::Open,
        command_kind("edit"@) == CommandKind::Open,
        command_kind("h"@) == CommandKind::Help,
        command_kind("help"@) == CommandKind::Help,
        command_kind("wx"@) == CommandKind::Unknown,
        command_kind("save"@) == CommandKind::Unknown,
        command_kind("exit"@) == CommandKind::Unknown,
        command_kind("xq"@) == CommandKind::Unknown,
{
    lemma_command_q();
    lemma_command_quit();
    lemma_command_q_bang();
    lemma_command_quit_bang();
    lemma_command_w();
    lemma_command_write();
    lemma_command_syntax();
    lemma_command_fmt();
    lemma_command_format();
    lemma_command_wq();
    lemma_command_x();
    lemma_command_p();
    lemma_command_prev();
    lemma_command_n();
    lemma_command_next();
    lemma_command_o();
    lemma_command_open();
    lemma_command_e();
    lemma_command_edit();
    lemma_command_h();
    lemma_command_help();
    lemma_command_wx();
    lemma_command_save();
    lemma_command_exit();
    lemma_command_xq();
}

/// A command line split into the command and its first argument.
pub struct ParsedCommand {
    pub kind: CommandKind,
    pub name: String,
    pub arg: Option<String>,
}

/// The command word of a command line (empty if there is none).
pub open spec fn command_word(s: Seq<char>) -> Seq<char> {
    if words(s).len() > 0 {
        words(s)[0]
    } else {
        Seq::empty()
    }
}

/// The first argument of a command line, if there is one.
pub open spec fn command_arg(s: Seq<char>) -> Option<Seq<char>> {
    if words(s).len() > 1 {
        Some(words(s)[1])
    } else {
        None
    }
}

/// The kind of command a name stands for.
pub fn kind_of(name: &str) -> (k: CommandKind)
    ensures
        k == command_kind(name@),
{
    if str_eq(name, "q") || str_eq(name, "quit") {
        CommandKind::Quit
    } else if str_eq(name, "q!") || str_eq(name, "quit!") {
        CommandKind::ForceQuit
    } else if str_eq(name, "w") || str_eq(name, "write") {
        CommandKind::Write
    } else if str_eq(name, "syntax") {
        CommandKind::Syntax
    } else if str_eq(name, "fmt") || str_eq(name, "format") {
        CommandKind::Format
    } else if str_eq(name, "wq") || str_eq(name, "x") {
        CommandKind::WriteQuit
    } else if str_eq(name, "p") || str_eq(name, "prev") {
        CommandKind::Prev
    } else if str_eq(name, "n") || str_eq(name, "next") {
        CommandKind::Next
    } else if str_eq(name, "o") || str_eq(name, "open") || str_eq(name, "e") || str_eq(name, "edit") {
        CommandKind::Open
    } else if str_eq(name, "h") || str_eq(name, "help") {
        CommandKind::Help
    } else {
        CommandKind::Unknown
    }
}

/// Splits a command line into its command and first argument.
pub fn parse_command(command: &str) -> (p: ParsedCommand)
    ensures
        p.name@ == command_word(command@),
        p.kind == command_kind(command_word(command@)),
        match command_arg(command@) {
            Some(a) => p.arg matches Some(s) && s@ == a,
            None => p.arg is None,
        },
{
    let parts = split_whitespace(command);
    let name = if parts.len() > 0 {
        copy_str(parts[0].as_str())
    } else {
        String::new()
    };
    let arg = if parts.len() > 1 {
        Some(copy_str(parts[1].as_str()))
    } else {
        None
    };
    let kind = kind_of(name.as_str());
    ParsedCommand { kind, name, arg }
}

// ---------------------------------------------------------------------------
// Completion
// ---------------------------------------------------------------------------

/// The command names offered for completion, in this order.
pub open spec fn command_names() -> Seq<Seq<char>> {
    seq![
        "q"@, "quit"@, "q!"@, "quit!"@, "w"@, "write"@, "syntax"@, "format"@, "wq"@, "x"@, "p"@,
        "prev"@, "n"@, "next"@, "o"@, "open"@, "h"@, "help"@,
    ]
}

fn command_name_list() -> (v: Vec<String>)
    ensures
        strings_view(v@) == command_names(),
{
    let mut v: Vec<String> = Vec::new();
    v.push(copy_str("q"));
    v.push(copy_str("quit"));
    v.push(copy_str("q!"));
    v.push(copy_str("quit!"));
    v.push(copy_str("w"));
    v.push(copy_str("write"));
    v.push(copy_str("syntax"));
    v.push(copy_str("format"));
    v.push(copy_str("wq"));
    v.push(copy_str("x"));
    v.push(copy_str("p"));
    v.push(copy_str("prev"));
    v.push(copy_str("n"));
    v.push(copy_str("next"));
    v.push(copy_str("o"));
    v.push(copy_str("open"));
    v.push(copy_str("h"));
    v.push(copy_str("help"));
    assert(strings_view(v@) =~= command_names());
    v
}

/// Whether `s` starts with `p`.
pub fn starts_with(s: &str, p: &str) -> (r: bool)
    ensures
        r == p@.is_prefix_of(s@),
{
    let a = chars_of(s);
    let b = chars_of(p);
    if b.len() > a.len() {
        return false;
    }
    let mut i: usize = 0;
    while i < b.len()
        invariant
            a@ == s@,
            b@ == p@,
            b@.len() <= a@.len(),
            i <= b@.len(),
            forall|j: int| 0 <= j < i ==> #[trigger] b@[j] == a@[j],
        decreases b@.len() - i,
    {
        if a[i] != b[i] {
            return false;
        }
        i = i + 1;
    }
    true
}

/// The strings of `v` that start with `prefix`, in order.
pub open spec fn with_prefix(v: Seq<Seq<char>>, prefix: Seq<char>) -> Seq<Seq<char>> {
    v.filter(|s: Seq<char>| prefix.is_prefix_of(s))
}

/// The command names that start with `prefix`.
pub fn command_matches(prefix: &str) -> (r: Vec<String>)
    ensures
        strings_view(r@) == with_prefix(command_names(), prefix@),
{
    let names = command_name_list();
    let ghost nv = command_names();
    let mut r: Vec<String> = Vec::new();
    let mut i: usize = 0;
    while i < names.len()
        invariant
            i <= names@.len(),
            strings_view(names@) == nv,
            strings_view(r@) == with_prefix(nv.take(i as int), prefix@),
        decreases names@.len() - i,
    {
        proof {
            assert(nv.take(i + 1) =~= nv.take(i as int).push(nv[i as int]));
            nv.take(i as int).lemma_filter_push(nv[i as int], |s: Seq<char>| prefix@.is_prefix_of(s));
        }
        if starts_with(names[i].as_str(), prefix) {
            let ghost before = r@;
            r.push(copy_str(names[i].as_str()));
            assert(strings_view(r@) =~= strings_view(before).push(nv[i as int]));
        }
        i = i + 1;
    }
    assert(nv.take(names@.len() as int) =~= nv);
    r
}

/// Whether character `i` agrees among all of `ss` (all have one there).
pub open spec fn agrees_at(ss: Seq<Seq<char>>, i: nat) -> bool {
    forall|k: int| 0 <= k < ss.len() ==> i < (#[trigger] ss[k]).len() && ss[k][i as int] == ss[0][i as int]
}

/// The length of the common prefix of `ss`, counted from `i`.
pub open spec fn common_prefix_len(ss: Seq<Seq<char>>, i: nat) -> nat
    decreases (if ss.len() > 0 && i <= ss[0].len() { ss[0].len() - i } else { 0 }),
{
    if ss.len() > 0 && i < ss[0].len() && agrees_at(ss, i) {
        common_prefix_len(ss, i + 1)
    } else {
        i
    }
}

/// The common prefix that completion takes from `ss` (empty for no
/// strings): with `n` the number of leading characters all of `ss` share,
/// the first string whole when all of it is shared, else the first string
/// cut at byte `n`. For single-byte characters that is exactly the shared
/// prefix; wider characters make it shorter. Where byte `n` falls inside a
/// character, it is the `n` shared characters.
pub open spec fn lcp(ss: Seq<Seq<char>>) -> Seq<char> {
    if ss.len() == 0 {
        Seq::empty()
    } else {
        let n = common_prefix_len(ss, 0);
        if n == ss[0].len() {
            ss[0]
        } else {
            match crate::line::char_at_byte_from(ss[0], n, 0) {
                Some(j) => ss[0].take(j as int),
                None => ss[0].take(n as int),
            }
        }
    }
}

/// Scanning from `k` for byte `b` in a text whose characters up to `b` are
/// single bytes finds character `b`.
proof fn lemma_char_at_single_bytes(s: Seq<char>, b: nat, k: nat)
    requires
        k <= b <= s.len(),
        crate::text::utf8_len(s.take(b as int)) == b,
    ensures
        crate::line::char_at_byte_from(s, b, k) == Some(b),
    decreases b - k,
{
    if k < b {
        crate::text::lemma_utf8_len_take_mono(s, k as int, b as int);
        crate::text::lemma_utf8_len_take_mono(s, 0, k as int);
        lemma_char_at_single_bytes(s, b, k + 1);
    }
}

/// The common prefix that completion takes is a prefix of every string; when
/// the shared characters are single bytes it is the longest one: it is not
/// followed by a character that all the strings share.
pub proof fn lemma_lcp_is_longest_common_prefix(ss: Seq<Seq<char>>)
    requires
        ss.len() > 0,
    ensures
        forall|k: int| 0 <= k < ss.len() ==> lcp(ss).is_prefix_of(#[trigger] ss[k]),
        crate::text::utf8_len(ss[0].take(common_prefix_len(ss, 0) as int)) == common_prefix_len(ss, 0) ==> (
        lcp(ss).len() < ss[0].len() ==> !agrees_at(ss, lcp(ss).len())),
{
    lemma_common_prefix_from(ss, 0);
    let n = common_prefix_len(ss, 0);
    crate::line::lemma_char_at_byte_from(ss[0], n, 0);
    let m: nat = if n == ss[0].len() {
        n
    } else {
        match crate::line::char_at_byte_from(ss[0], n, 0) {
            Some(j) => {
                crate::text::lemma_utf8_len_take_mono(ss[0], 0, j as int);
                assert(ss[0].take(j as int).take(0) =~= ss[0].take(0));
                assert(ss[0].take(0) =~= Seq::<char>::empty());
                crate::text::lemma_utf8_len_lower(ss[0].take(j as int));
                j
            },
            None => n,
        }
    };
    assert(m <= n);
    assert(lcp(ss) =~= ss[0].take(m as int));
    assert forall|k: int| 0 <= k < ss.len() implies lcp(ss).is_prefix_of(#[trigger] ss[k]) by {
        if n > 0 {
            assert(agrees_at(ss, (n - 1) as nat));
        }
        assert forall|j: int| 0 <= j < m implies ss[0].take(m as int)[j] == ss[k].subrange(0, m as int)[j] by {
            assert(agrees_at(ss, j as nat));
        }
        assert(ss[0].take(m as int) =~= ss[k].subrange(0, m as int));
    }
    if crate::text::utf8_len(ss[0].take(n as int)) == n && n < ss[0].len() {
        lemma_char_at_single_bytes(ss[0], n, 0);
    }
}

proof fn lemma_common_prefix_from(ss: Seq<Seq<char>>, i: nat)
    requires
        ss.len() > 0,
        i <= ss[0].len(),
        forall|j: nat| j < i ==> agrees_at(ss, j),
    ensures
        i <= common_prefix_len(ss, i) <= ss[0].len(),
        forall|j: nat| j < common_prefix_len(ss, i) ==> agrees_at(ss, j),
        common_prefix_len(ss, i) < ss[0].len() ==> !agrees_at(ss, common_prefix_len(ss, i)),
    decreases ss[0].len() - i,
{
    if i < ss[0].len() && agrees_at(ss, i) {
        assert forall|j: nat| j < i + 1 implies agrees_at(ss, j) by {
            if j < i {
            }
        }
        lemma_common_prefix_from(ss, i + 1);
    }
}

/// The longest common prefix of `strings`.
pub fn longest_common_prefix(strings: &Vec<String>) -> (r: String)
    ensures
        r@ == lcp(strings_view(strings@)),
{
    let ghost ss = strings_view(strings@);
    if strings.len() == 0 {
        return String::new();
    }
    let first = chars_of(strings[0].as_str());
    let mut all: Vec<Vec<char>> = Vec::new();
    let mut k: usize = 0;
    while k < strings.len()
        invariant
            k <= strings@.len(),
            ss == strings_view(strings@),
            all@.len() == k,
            forall|j: int| 0 <= j < k ==> (#[trigger] all@[j])@ == ss[j],
        decreases strings@.len() - k,
    {
        all.push(chars_of(strings[k].as_str()));
        k = k + 1;
    }
    let mut i: usize = 0;
    loop
        invariant
            ss == strings_view(strings@),
            ss.len() > 0,
            first@ == ss[0],
            all@.len() == ss.len(),
            forall|j: int| 0 <= j < ss.len() ==> (#[trigger] all@[j])@ == ss[j],
            i <= first@.len(),
            common_prefix_len(ss, 0) == common_prefix_len(ss, i as nat),
        ensures
            i <= first@.len(),
            common_prefix_len(ss, 0) == i,
        decreases first@.len() - i,
    {
        if i >= first.len() {
            break;
        }
        let c = first[i];
        let mut ok = true;
        let mut k: usize = 0;
        while k < all.len()
            invariant
                all@.len() == ss.len(),
                forall|j: int| 0 <= j < ss.len() ==> (#[trigger] all@[j])@ == ss[j],
                first@ == ss[0],
                i < first@.len(),
                c == ss[0][i as int],
                k <= all@.len(),
                ok == forall|j: int| 0 <= j < k ==> i < (#[trigger] ss[j]).len() && ss[j][i as int] == c,
            decreases all@.len() - k,
        {
            let s = &all[k];
            let agree = i < s.len() && s[i] == c;
            if !agree {
                ok = false;
            }
            k = k + 1;
        }
        assert(ok == agrees_at(ss, i as nat));
        if !ok {
            break;
        }
        i = i + 1;
    }
    let ghost f = ss[0];
    if i >= first.len() {
        assert(first@.subrange(0, i as int) =~= f);
        return string_from_chars(first.as_slice(), 0, i);
    }
    // Find the character at which byte `i` starts, if one does.
    let mut j: usize = 0;
    let mut pos: usize = 0;
    assert(f.take(0) =~= Seq::<char>::empty());
    while j < first.len() && pos < i
        invariant
            first@ == f,
            ss == strings_view(strings@),
            ss.len() > 0,
            f == ss[0],
            common_prefix_len(ss, 0) == i,
            i < f.len(),
            j <= f.len(),
            pos == crate::text::utf8_len(f.take(j as int)),
            crate::line::char_at_byte_from(f, i as nat, 0) == crate::line::char_at_byte_from(f, i as nat, j as nat),
        decreases f.len() - j,
    {
        let w = char_len_utf8(first[j]);
        proof {
            assert(f.take(j + 1) =~= f.take(j as int) + seq![f[j as int]]);
            crate::text::lemma_utf8_len_concat(f.take(j as int), seq![f[j as int]]);
            crate::text::lemma_utf8_len_take_mono(f, j + 1, f.len() as int);
            assert(f.take(f.len() as int) =~= f);
            crate::text::lemma_utf8_len_upper(f);
        }
        match pos.checked_add(w) {
            Some(next) => {
                pos = next;
            },
            None => {
                proof {
                    assert(crate::text::utf8_len(f.take(j + 1)) == pos + w);
                    lemma_char_at_past(f, i as nat, (j + 1) as nat);
                    assert(crate::line::char_at_byte_from(f, i as nat, j as nat) == crate::line::char_at_byte_from(
                        f,
                        i as nat,
                        (j + 1) as nat,
                    ));
                    assert(crate::line::char_at_byte_from(f, i as nat, 0) is None);
                }
                assert(first@.subrange(0, i as int) =~= f.take(i as int));
                return string_from_chars(first.as_slice(), 0, i);
            },
        }
        j = j + 1;
    }
    proof {
        crate::text::lemma_utf8_len_take_mono(f, j as int, f.len() as int);
        assert(f.take(f.len() as int) =~= f);
    }
    if pos == i {
        assert(crate::line::char_at_byte_from(f, i as nat, j as nat) == Some(j as nat));
        assert(first@.subrange(0, j as int) =~= f.take(j as int));
        string_from_chars(first.as_slice(), 0, j)
    } else {
        proof {
            lemma_char_at_past(f, i as nat, j as nat);
        }
        assert(first@.subrange(0, i as int) =~= f.take(i as int));
        string_from_chars(first.as_slice(), 0, i)
    }
}

/// Once the characters scanned reach past byte `b`, no later character
/// starts there.
proof fn lemma_char_at_past(s: Seq<char>, b: nat, k: nat)
    requires
        k <= s.len(),
        crate::text::utf8_len(s.take(k as int)) > b,
    ensures
        crate::line::char_at_byte_from(s, b, k) is None,
    decreases s.len() + 1 - k,
{
    if k < s.len() {
        crate::text::lemma_utf8_len_take_mono(s, k as int, (k + 1) as int);
        lemma_char_at_past(s, b, k + 1);
    } else {
        assert(crate::line::char_at_byte_from(s, b, k + 1) is None);
    }
}

/// Where a path to complete splits into its directory (up to and with the
/// last `/`; "." without one) and the start of the file name.
pub open spec fn split_path(p: Seq<char>) -> (Seq<char>, Seq<char>) {
    if exists|i: int| 0 <= i < p.len() && p[i] == '/' {
        let i = choose|i: int| 0 <= i < p.len() && p[i] == '/' && forall|j: int| i < j < p.len() ==> p[j] != '/';
        (p.take(i + 1), p.skip(i + 1))
    } else {
        (seq!['.'], p)
    }
}

/// The index after the last `/` of `p`, if there is one.
fn after_last_slash(p: &Vec<char>) -> (r: Option<usize>)
    ensures
        match r {
            Some(k) => 0 < k <= p@.len() && p@[k - 1] == '/' && forall|j: int| k <= j < p@.len() ==> p@[j] != '/',
            None => forall|j: int| 0 <= j < p@.len() ==> p@[j] != '/',
        },
{
    let mut i = p.len();
    while i > 0
        invariant
            i <= p@.len(),
            forall|j: int| i <= j < p@.len() ==> p@[j] != '/',
        decreases i,
    {
        if p[i - 1] == '/' {
            return Some(i);
        }
        i = i - 1;
    }
    None
}

/// The directory and file-name start of a path to complete.
pub fn split_path_exec(path: &str) -> (r: (String, String))
    ensures
        (r.0@, r.1@) == split_path(path@),
{
    let cs = chars_of(path);
    match after_last_slash(&cs) {
        Some(k) => {
            proof {
                let i = (k - 1) as int;
                assert(0 <= i < path@.len() && path@[i] == '/');
                let c = choose|i: int| 0 <= i < path@.len() && path@[i] == '/' && forall|j: int| i < j < path@.len() ==> path@[j] != '/';
                assert(c == i) by {
                    if c < i {
                        assert(path@[i] != '/');
                    }
                    if c > i {
                        assert(path@[c] != '/');
                    }
                }
                assert(cs@.subrange(0, k as int) =~= path@.take(k as int));
                assert(cs@.subrange(k as int, cs@.len() as int) =~= path@.skip(k as int));
            }
            (string_from_chars(cs.as_slice(), 0, k), string_from_chars(cs.as_slice(), k, cs.len()))
        },
        None => {
            let mut dot = String::new();
            push_char(&mut dot, '.');
            assert(dot@ =~= seq!['.']);
            assert(cs@.subrange(0, cs@.len() as int) =~= path@);
            (dot, string_from_chars(cs.as_slice(), 0, cs.len()))
        },
    }
}

/// The completion of a directory entry: its name (after the directory
/// unless that is "."), with a `/` for a directory.
pub open spec fn entry_completion(dir: Seq<char>, name: Seq<char>, is_dir: bool) -> Seq<char> {
    let full = if dir == seq!['.'] { name } else { dir + name };
    if is_dir {
        full.push('/')
    } else {
        full
    }
}

/// The completions offered by the entries of a directory whose names start
/// with `prefix`, in the order of the entries.
pub open spec fn entry_completions(dir: Seq<char>, prefix: Seq<char>, entries: Seq<(Seq<char>, bool)>) -> Seq<
    Seq<char>,
>
    decreases entries.len(),
{
    if entries.len() == 0 {
        Seq::empty()
    } else {
        let rest = entry_completions(dir, prefix, entries.drop_last());
        let (name, is_dir) = entries.last();
        if prefix.is_prefix_of(name) {
            rest.push(entry_completion(dir, name, is_dir))
        } else {
            rest
        }
    }
}

pub open spec fn entries_view(v: Seq<(String, bool)>) -> Seq<(Seq<char>, bool)> {
    v.map_values(|e: (String, bool)| (e.0@, e.1))
}

/// The completions for a path: the entries of `dir` (name and whether it is
/// a directory, as listed) that start with `prefix`.
pub fn path_completions(dir: &str, prefix: &str, entries: &Vec<(String, bool)>) -> (r: Vec<String>)
    ensures
        strings_view(r@) == entry_completions(dir@, prefix@, entries_view(entries@)),
{
    let ghost ev = entries_view(entries@);
    let is_dot = str_eq(dir, ".");
    proof {
        reveal_strlit(".");
        assert("."@ =~= seq!['.']);
    }
    let mut r: Vec<String> = Vec::new();
    let mut i: usize = 0;
    while i < entries.len()
        invariant
            i <= entries@.len(),
            ev == entries_view(entries@),
            is_dot == (dir@ == seq!['.']),
            strings_view(r@) == entry_completions(dir@, prefix@, ev.take(i as int)),
        decreases entries@.len() - i,
    {
        assert(ev.take(i + 1).drop_last() =~= ev.take(i as int));
        assert(ev.take(i + 1).last() == (entries@[i as int].0@, entries@[i as int].1));
        let (name, is_dir) = &entries[i];
        if starts_with(name.as_str(), prefix) {
            let mut full = if is_dot {
                copy_str(name.as_str())
            } else {
                let mut f = copy_str(dir);
                f.append(name.as_str());
                f
            };
            if *is_dir {
                push_char(&mut full, '/');
            }
            let ghost before = r@;
            let ghost fv = full@;
            r.push(full);
            assert(strings_view(r@) =~= strings_view(before).push(fv));
        }
        i = i + 1;
    }
    assert(ev.take(entries@.len() as int) =~= ev);
    r
}

/// What the first tab press completes from: the command name, or the path
/// argument of a command that takes a file.
#[derive(Debug)]
pub enum CompletionStart {
    /// Nothing to complete.
    Nothing,
    /// The command names starting with the name typed, and that name.
    Commands { matches: Vec<String>, original: String },
    /// The entries of `dir` that start with `prefix`; `original` is the
    /// whole input.
    Paths { dir: String, prefix: String, original: String },
}

/// Whether a command takes a file name to complete.
pub open spec fn takes_path(cmd: Seq<char>) -> bool {
    cmd == "w"@ || cmd == "write"@ || cmd == "o"@ || cmd == "open"@ || cmd == "wq"@ || cmd == "x"@
}

pub open spec fn ends_with_space(s: Seq<char>) -> bool {
    s.len() > 0 && s.last() == ' '
}

/// What the first tab press on `value` completes.
pub open spec fn completion_start_ok(value: Seq<char>, r: CompletionStart) -> bool {
    let ws = words(value);
    if ws.len() == 0 {
        r is Nothing
    } else if ws.len() == 1 && !ends_with_space(value) {
        r matches CompletionStart::Commands { matches, original } && strings_view(matches@) == with_prefix(
            command_names(),
            ws[0],
        ) && original@ == ws[0]
    } else if ws.len() <= 2 && takes_path(ws[0]) {
        let p = if ws.len() == 2 { ws[1] } else { Seq::<char>::empty() };
        r matches CompletionStart::Paths { dir, prefix, original } && (dir@, prefix@) == split_path(p)
            && original@ == value
    } else {
        r is Nothing
    }
}

/// What the first tab press on `value` completes.
pub fn completion_start(value: &str) -> (r: CompletionStart)
    ensures
        completion_start_ok(value@, r),
{
    let parts = split_whitespace(value);
    let cs = chars_of(value);
    let ends_space = cs.len() > 0 && cs[cs.len() - 1] == ' ';
    if parts.len() == 0 {
        return CompletionStart::Nothing;
    }
    if parts.len() == 1 && !ends_space {
        let matches = command_matches(parts[0].as_str());
        return CompletionStart::Commands { matches, original: copy_str(parts[0].as_str()) };
    }
    if parts.len() <= 2 {
        let cmd = parts[0].as_str();
        let is_path_cmd = str_eq(cmd, "w") || str_eq(cmd, "write") || str_eq(cmd, "o") || str_eq(cmd, "open")
            || str_eq(cmd, "wq") || str_eq(cmd, "x");
        if is_path_cmd {
            let (dir, prefix) = if parts.len() == 2 {
                split_path_exec(parts[1].as_str())
            } else {
                split_path_exec("")
            };
            proof {
                reveal_strlit("");
                assert(""@ =~= Seq::<char>::empty());
                assert(cs@ == value@);
            }
            return CompletionStart::Paths { dir, prefix, original: copy_str(value) };
        }
    }
    CompletionStart::Nothing
}

/// The index marking that the common prefix was completed and cycling
/// through the matches starts with the next tab.
pub const AFTER_PREFIX: usize = usize::MAX;

/// `a`, a space, `b`.
pub open spec fn joined(a: Seq<char>, b: Seq<char>) -> Seq<char> {
    a.push(' ') + b
}

/// The bytes of the file-name part of a path (after its last `/`).
pub open spec fn file_part_len(p: Seq<char>) -> usize {
    sat_usize(utf8_len(split_path(p).1))
}

/// One tab press with completion candidates `matches` (not empty) for the
/// input `value`: the new input, if it changes, and the new index. The
/// first press completes a single match, or the longest common prefix when
/// it is longer than what is typed; later presses cycle through the matches.
pub open spec fn completion_step(
    value: Seq<char>,
    matches: Seq<Seq<char>>,
    index: Option<usize>,
    original: Option<Seq<char>>,
) -> (Option<Seq<char>>, Option<usize>) {
    let ws = words(value);
    let single = ws.len() <= 1 && !ends_with_space(value);
    let cmd = if ws.len() > 0 { ws[0] } else { Seq::<char>::empty() };
    match index {
        None => if matches.len() == 1 {
            (Some(if single { matches[0] } else { joined(cmd, matches[0]) }), Some(0usize))
        } else {
            let l = lcp(matches);
            let prefix_len: usize = if single {
                match original {
                    Some(o) => sat_usize(utf8_len(o)),
                    None => 0,
                }
            } else {
                file_part_len(if ws.len() > 1 { ws[1] } else { Seq::<char>::empty() })
            };
            if sat_usize(utf8_len(l)) > prefix_len {
                (Some(if single { l } else { joined(cmd, l) }), Some(AFTER_PREFIX))
            } else {
                (None, Some(AFTER_PREFIX))
            }
        },
        Some(i) => {
            let k: int = if i == AFTER_PREFIX { 0 } else { (i + 1) % (matches.len() as int) };
            let o = match original {
                Some(o) => o,
                None => Seq::<char>::empty(),
            };
            let v = if original is Some && !o.contains(' ') {
                matches[k]
            } else {
                let ow = words(o);
                joined(if ow.len() > 0 { ow[0] } else { Seq::<char>::empty() }, matches[k])
            };
            (Some(v), Some(k as usize))
        },
    }
}

fn join_space(a: &str, b: &str) -> (r: String)
    ensures
        r@ == joined(a@, b@),
{
    let mut r = copy_str(a);
    push_char(&mut r, ' ');
    r.append(b);
    r
}

fn contains_space(s: &str) -> (r: bool)
    ensures
        r == s@.contains(' '),
{
    let cs = chars_of(s);
    let mut i: usize = 0;
    while i < cs.len()
        invariant
            cs@ == s@,
            i <= cs@.len(),
            forall|j: int| 0 <= j < i ==> cs@[j] != ' ',
        decreases cs@.len() - i,
    {
        if cs[i] == ' ' {
            return true;
        }
        i = i + 1;
    }
    false
}

/// One tab press, as `completion_step` describes.
pub fn complete_step(value: &str, matches: &Vec<String>, index: Option<usize>, original: Option<&str>) -> (r: (
    Option<String>,
    Option<usize>,
))
    requires
        matches@.len() > 0,
    ensures
        ({
            let (v, i) = completion_step(
                value@,
                strings_view(matches@),
                index,
                match original {
                    Some(o) => Some(o@),
                    None => None,
                },
            );
            &&& i == r.1
            &&& match v {
                Some(t) => r.0 matches Some(s) && s@ == t,
                None => r.0 is None,
            }
        }),
{
    let ghost mv = strings_view(matches@);
    let ws = split_whitespace(value);
    let cs = chars_of(value);
    let ends_space = cs.len() > 0 && cs[cs.len() - 1] == ' ';
    let single = ws.len() <= 1 && !ends_space;
    let cmd = if ws.len() > 0 { copy_str(ws[0].as_str()) } else { String::new() };
    match index {
        None => {
            if matches.len() == 1 {
                let v = if single {
                    copy_str(matches[0].as_str())
                } else {
                    join_space(cmd.as_str(), matches[0].as_str())
                };
                (Some(v), Some(0))
            } else {
                let l = longest_common_prefix(matches);
                let prefix_len = if single {
                    match original {
                        Some(o) => byte_len_sat(o),
                        None => 0,
                    }
                } else {
                    let full = if ws.len() > 1 { copy_str(ws[1].as_str()) } else { String::new() };
                    let (_dir, file) = split_path_exec(full.as_str());
                    byte_len_sat(file.as_str())
                };
                if byte_len_sat(l.as_str()) > prefix_len {
                    let v = if single {
                        l
                    } else {
                        join_space(cmd.as_str(), l.as_str())
                    };
                    (Some(v), Some(AFTER_PREFIX))
                } else {
                    (None, Some(AFTER_PREFIX))
                }
            }
        },
        Some(i) => {
            let k = if i == AFTER_PREFIX { 0 } else { (i + 1) % matches.len() };
            let (has_original, o) = match original {
                Some(o) => (true, copy_str(o)),
                None => (false, String::new()),
            };
            let v = if has_original && !contains_space(o.as_str()) {
                copy_str(matches[k].as_str())
            } else {
                let ow = split_whitespace(o.as_str());
                let first = if ow.len() > 0 { copy_str(ow[0].as_str()) } else { String::new() };
                join_space(first.as_str(), matches[k].as_str())
            };
            (Some(v), Some(k))
        },
    }
}

} // verus!
