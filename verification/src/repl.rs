//! The interactive shell, as far as it decides: what a line of input asks
//! for, and what is run for a line of code.

use vstd::prelude::*;
use crate::ast::{stmts_view, Stmt};
use crate::errors::SyntaxError;
use crate::interpreter::{parse_source, spec_parse_source};
use crate::machine::{Interpreter, InterpreterView};
use crate::text::{chars_of, text_of};

verus! {

/// What a line of input asks of the shell.
#[derive(Debug, Clone, Copy, PartialEq, Eq, Structural)]
pub enum Command {
    /// Nothing: the line is empty.
    Empty,
    /// Leave the shell.
    Exit,
    /// Show the commands.
    Help,
    /// Clear the screen.
    Clear,
    /// Show the lines of code entered so far.
    History,
    /// Show the global variables.
    Variables,
    /// Run the line as code.
    Code,
}

/// The command that a line stands for, once blanks around it are removed.
pub open spec fn spec_command(input: Seq<char>) -> Command {
    if input.len() == 0 {
        Command::Empty
    } else if input == "sair"@ || input == "exit"@ || input == "quit"@ {
        Command::Exit
    } else if input == "ajuda"@ || input == "help"@ {
        Command::Help
    } else if input == "limpar"@ || input == "clear"@ {
        Command::Clear
    } else if input == "historico"@ || input == "history"@ {
        Command::History
    } else if input == "variaveis"@ || input == "vars"@ {
        Command::Variables
    } else {
        Command::Code
    }
}

/// Whether a line of code is run as it stands: it ends with a semicolon,
/// or begins with the letters of a keyword that begins a statement.
pub open spec fn is_statement(code: Seq<char>) -> bool {
    ||| (code.len() > 0 && code.last() == ';')
    ||| "variavel"@.is_prefix_of(code)
    ||| "funcao"@.is_prefix_of(code)
    ||| "se"@.is_prefix_of(code)
    ||| "enquanto"@.is_prefix_of(code)
    ||| "para"@.is_prefix_of(code)
}

/// The code that is run for a line: the line itself where it is a
/// statement, else the statement that prints the line's value.
pub open spec fn spec_prepare(code: Seq<char>) -> Seq<char> {
    if is_statement(code) {
        code
    } else {
        "imprimir("@ + code + ");"@
    }
}

/// Whether a text begins with another.
pub fn starts_with(text: &Vec<char>, prefix: &str) -> (r: bool)
    ensures
        r == prefix@.is_prefix_of(text@),
{
    let p = chars_of(prefix);
    if p.len() > text.len() {
        return false;
    }
    let mut i: usize = 0;
    while i < p.len()
        invariant
            i <= p.len(),
            p.len() <= text.len(),
            p@ == prefix@,
            forall|j: int| 0 <= j < i ==> p[j] == text[j],
        decreases p.len() - i,
    {
        if p[i] != text[i] {
            assert(prefix@[i as int] != text@.subrange(0, prefix@.len() as int)[i as int]);
            return false;
        }
        i += 1;
    }
    assert(prefix@ =~= text@.subrange(0, prefix@.len() as int));
    true
}

/// The shell: an interpreter that lasts from line to line, and the lines
/// of code entered so far.
#[derive(Debug)]
pub struct Repl {
    pub interpreter: Interpreter,
    pub history: Vec<String>,
}

impl Repl {
    /// A shell with a fresh interpreter and no history.
    pub fn new() -> (r: Repl)
        ensures
            r.interpreter@ == InterpreterView::new(),
            r.history.deep_view() == Seq::<Seq<char>>::empty(),
    {
        let r = Repl { interpreter: Interpreter::new(), history: Vec::new() };
        assert(r.history.deep_view() =~= Seq::<Seq<char>>::empty());
        r
    }

    /// The command that a line stands for, once blanks around it are removed.
    pub fn command(input: &str) -> (r: Command)
        ensures
            r == spec_command(input@),
    {
        let line = text_of(input);
        if input.is_empty() {
            Command::Empty
        } else if line == text_of("sair") || line == text_of("exit") || line == text_of("quit") {
            Command::Exit
        } else if line == text_of("ajuda") || line == text_of("help") {
            Command::Help
        } else if line == text_of("limpar") || line == text_of("clear") {
            Command::Clear
        } else if line == text_of("historico") || line == text_of("history") {
            Command::History
        } else if line == text_of("variaveis") || line == text_of("vars") {
            Command::Variables
        } else {
            Command::Code
        }
    }

    /// The code that is run for a line.
    pub fn prepare(code: &str) -> (r: String)
        ensures
            r@ == spec_prepare(code@),
    {
        let cs = chars_of(code);
        let ends = cs.len() > 0 && cs[cs.len() - 1] == ';';
        if ends || starts_with(&cs, "variavel") || starts_with(&cs, "funcao") || starts_with(
            &cs,
            "se",
        ) || starts_with(&cs, "enquanto") || starts_with(&cs, "para") {
            text_of(code)
        } else {
            let mut s = text_of("imprimir(");
            s.append(code);
            s.append(");");
            s
        }
    }

    /// Takes a line of code in: the line joins the history, and the
    /// statements of the code that is run for it come back, each to be
    /// executed by the interpreter whether or not the one before it failed.
    /// Where the code cannot be parsed the error comes back in their place.
    pub fn execute(&mut self, code: &str) -> (r: Result<Vec<Stmt>, SyntaxError>)
        ensures
            final(self).interpreter == old(self).interpreter,
            final(self).history.deep_view() == old(self).history.deep_view().push(code@),
            match spec_parse_source(spec_prepare(code@)) {
                Ok(stmts) => r is Ok && stmts_view(r->Ok_0@) == stmts,
                Err(e) => r is Err && r->Err_0@ == e,
            },
    {
        let ghost before = self.history.deep_view();
        self.history.push(text_of(code));
        assert(self.history.deep_view() =~= before.push(code@));
        let prepared = Repl::prepare(code);
        parse_source(prepared.as_str())
    }
}

} // verus!
