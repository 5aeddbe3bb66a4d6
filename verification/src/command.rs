//! The user command stream.
//!
//! The interactive front end tokenizes each input line on whitespace and
//! hands the tokens here; unrecognized input yields no command and the user
//! is re-prompted without any state change.  The grammar: `run [args...]`,
//! `continue`, `backtrace`, `break <loc>`, `quit`.

use vstd::prelude::*;

verus! {

/// One parsed user command.
#[derive(Debug)]
pub enum Command {
    /// Start (or restart) the target with these arguments.
    Run { args: Vec<String> },
    /// Resume the stopped target.
    Continue,
    /// Report the stopped target's call stack.
    Backtrace,
    /// Register a breakpoint at this location token.
    Break { loc: String },
    /// Terminate any live target and leave.
    Quit,
}

/// Parses one whitespace-tokenized input line.  `None` means the line fits
/// no command form and the user is re-prompted.
pub fn parse_command(tokens: &Vec<String>) -> (r: Option<Command>)
    ensures
        match r {
            Some(Command::Run { args }) => tokens@.len() >= 1 && tokens@[0]@ == "run"@
                && args.deep_view() == tokens.deep_view().skip(1),
            Some(Command::Continue) => tokens@.len() == 1 && tokens@[0]@ == "continue"@,
            Some(Command::Backtrace) => tokens@.len() == 1 && tokens@[0]@ == "backtrace"@,
            Some(Command::Break { loc }) => tokens@.len() == 2 && tokens@[0]@ == "break"@
                && loc@ == tokens@[1]@,
            Some(Command::Quit) => tokens@.len() == 1 && tokens@[0]@ == "quit"@,
            None => !(tokens@.len() >= 1 && tokens@[0]@ == "run"@) && !(tokens@.len() == 1
                && tokens@[0]@ == "continue"@) && !(tokens@.len() == 1 && tokens@[0]@
                == "backtrace"@) && !(tokens@.len() == 2 && tokens@[0]@ == "break"@) && !(
            tokens@.len() == 1 && tokens@[0]@ == "quit"@),
        },
{
    if tokens.len() == 0 {
        return None;
    }
    let head = &tokens[0];
    if str_eq(head, "run") {
        let mut args: Vec<String> = Vec::new();
        let mut i: usize = 1;
        while i < tokens.len()
            invariant
                1 <= i <= tokens@.len(),
                args.deep_view() == tokens.deep_view().subrange(1, i as int),
            decreases tokens@.len() - i,
        {
            let ghost pre = args.deep_view();
            args.push(tokens[i].clone());
            proof {
                assert(args.deep_view() =~= pre.push(tokens@[i as int]@));
                assert(args.deep_view() =~= tokens.deep_view().subrange(1, i + 1));
            }
            i = i + 1;
        }
        proof {
            assert(tokens.deep_view().subrange(1, tokens@.len() as int) =~= tokens.deep_view().skip(
                1,
            ));
        }
        Some(Command::Run { args })
    } else if tokens.len() == 1 && str_eq(head, "continue") {
        Some(Command::Continue)
    } else if tokens.len() == 1 && str_eq(head, "backtrace") {
        Some(Command::Backtrace)
    } else if tokens.len() == 2 && str_eq(head, "break") {
        Some(Command::Break { loc: tokens[1].clone() })
    } else if tokens.len() == 1 && str_eq(head, "quit") {
        Some(Command::Quit)
    } else {
        None
    }
}

/// Whether a token spells exactly the given word.
fn str_eq(s: &String, word: &str) -> (r: bool)
    ensures
        r == (s@ == word@),
{
    let n = s.as_str().unicode_len();
    let m = word.unicode_len();
    if n != m {
        return false;
    }
    let mut i: usize = 0;
    while i < n
        invariant
            i <= n,
            n == s@.len(),
            n == word@.len(),
            forall|j: int| 0 <= j < i ==> s@[j] == word@[j],
        decreases n - i,
    {
        if s.as_str().get_char(i) != word.get_char(i) {
            return false;
        }
        i = i + 1;
    }
    proof {
        assert(s@ =~= word@);
    }
    true
}

} // verus!
