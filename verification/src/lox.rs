//! Diagnostics and exit codes of the driver.
use vstd::prelude::*;
use crate::string::{decimal, decimal_digits};
use crate::token::Token;
use crate::token_type::TokenType;

verus! {

/// Exit code of a run without errors.
pub const EXIT_OK: u8 = 0;

/// Exit code after a wrong command line.
pub const EXIT_USAGE: u8 = 64;

/// Exit code after a scan, parse or resolution error.
pub const EXIT_COMPILE_ERROR: u8 = 65;

/// Exit code after a runtime error.
pub const EXIT_RUNTIME_ERROR: u8 = 70;

/// The diagnostic line `[line N] Error<location>: <message>`.
pub open spec fn report_text(line: nat, location: Seq<char>, message: Seq<char>) -> Seq<char> {
    "[line "@ + decimal_digits(line) + "] Error"@ + location + ": "@ + message
}

/// Where a token's diagnostic points: the end of input, or the token's text.
pub open spec fn token_location(token: Token) -> Seq<char> {
    if token.token_type is EOF {
        " at end"@
    } else {
        " at '"@ + token.lexeme@ + "'"@
    }
}

/// Formats one diagnostic line.
pub fn report(line: usize, location: &str, message: &str) -> (r: String)
    ensures
        r@ == report_text(line as nat, location@, message@),
{
    let mut s = String::from_str("[line ");
    let digits = decimal(line);
    s.append(digits.as_str());
    s.append("] Error");
    s.append(location);
    s.append(": ");
    s.append(message);
    s
}

/// The diagnostic for an error that is known only by its line.
pub fn error(line: usize, message: &str) -> (r: String)
    ensures
        r@ == report_text(line as nat, Seq::<char>::empty(), message@),
{
    let r = report(line, "", message);
    proof {
        reveal_strlit("");
        assert(""@ =~= Seq::<char>::empty());
    }
    r
}

/// The diagnostic for an error at a token.
pub fn token_error(token: &Token, message: &str) -> (r: String)
    ensures
        r@ == report_text(token.line as nat, token_location(*token), message@),
{
    match token.token_type {
        TokenType::EOF => report(token.line, " at end", message),
        _ => {
            let mut location = String::from_str(" at '");
            location.append(token.lexeme.as_str());
            location.append("'");
            report(token.line, location.as_str(), message)
        },
    }
}

/// The exit code of a script run: compile errors come before runtime errors.
pub fn exit_code(had_error: bool, had_runtime_error: bool) -> (code: u8)
    ensures
        code == if had_error {
            EXIT_COMPILE_ERROR
        } else if had_runtime_error {
            EXIT_RUNTIME_ERROR
        } else {
            EXIT_OK
        },
{
    if had_error {
        EXIT_COMPILE_ERROR
    } else if had_runtime_error {
        EXIT_RUNTIME_ERROR
    } else {
        EXIT_OK
    }
}

/// What the command line asks for.
#[derive(Debug, Clone, Copy, PartialEq, Eq, Structural)]
pub enum Mode {
    /// No argument: read statements at a prompt.
    Prompt,
    /// One argument: run the script of that name.
    Script,
    /// More arguments: print the usage and exit with [`EXIT_USAGE`].
    Usage,
}

/// What the command line asks for, given the number of its arguments.
pub fn run_lox(arguments: usize) -> (r: Mode)
    ensures
        r == if arguments == 0 {
            Mode::Prompt
        } else if arguments == 1 {
            Mode::Script
        } else {
            Mode::Usage
        },
{
    if arguments > 1 {
        Mode::Usage
    } else if arguments == 1 {
        Mode::Script
    } else {
        Mode::Prompt
    }
}

/// What a run has gone through so far: whether a diagnostic was reported,
/// and whether a runtime error ended statements.
pub struct Lox {
    pub had_error: bool,
    pub had_runtime_error: bool,
}

impl Lox {
    /// A run in which nothing has gone wrong.
    pub fn new() -> (r: Self)
        ensures
            !r.had_error,
            !r.had_runtime_error,
    {
        Lox { had_error: false, had_runtime_error: false }
    }

    /// Whether a diagnostic was reported.
    pub fn had_error(&self) -> (r: bool)
        ensures
            r == self.had_error,
    {
        self.had_error
    }

    /// Whether a runtime error ended statements.
    pub fn had_runtime_error(&self) -> (r: bool)
        ensures
            r == self.had_runtime_error,
    {
        self.had_runtime_error
    }

    /// Takes note of the diagnostics of a scanner, a parser or a resolver:
    /// any of them is an error.
    pub fn reported(&mut self, diagnostics: &Vec<String>)
        ensures
            final(self).had_error == (old(self).had_error || diagnostics@.len() > 0),
            final(self).had_runtime_error == old(self).had_runtime_error,
    {
        if diagnostics.len() > 0 {
            self.had_error = true;
        }
    }

    /// Takes note of a runtime error.
    pub fn runtime_error(&mut self)
        ensures
            final(self).had_runtime_error,
            final(self).had_error == old(self).had_error,
    {
        self.had_runtime_error = true;
    }

    /// Forgets the diagnostics before the next input at the prompt; a
    /// runtime error is not forgotten.
    pub fn next_input(&mut self)
        ensures
            !final(self).had_error,
            final(self).had_runtime_error == old(self).had_runtime_error,
    {
        self.had_error = false;
    }

    /// The exit code of the run so far.
    pub fn exit_code(&self) -> (code: u8)
        ensures
            code == if self.had_error {
                EXIT_COMPILE_ERROR
            } else if self.had_runtime_error {
                EXIT_RUNTIME_ERROR
            } else {
                EXIT_OK
            },
    {
        exit_code(self.had_error, self.had_runtime_error)
    }
}

} // verus!
