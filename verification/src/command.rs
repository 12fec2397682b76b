//! The ex-command line: parsing what the user typed after `:`.

use vstd::prelude::*;

use crate::text::{char_is_whitespace, is_whitespace_char};

verus! {

/// One parsed ex command.
pub enum Command {
    SaveAll,
    QuitAll,
    SaveQuitAll,
    QuitFile(String),
    SaveFile(String),
    OpenFile(String),
    NextBuffer,
    PreviousBuffer,
}

/// Why a command line did not parse.
#[derive(Debug)]
pub enum CommandError {
    /// Nothing but whitespace was typed.
    Empty,
    /// A command that needs a file name came without one.
    MissingFileName,
    /// No command of that name exists.
    UnknownCommand,
}

/// The first index at or after `i` holding a non-whitespace character.
pub open spec fn sw(s: Seq<char>, i: int) -> int
    decreases s.len() - i,
{
    if i < 0 || i >= s.len() || !is_whitespace_char(s[i]) {
        i
    } else {
        sw(s, i + 1)
    }
}

/// The first index at or after `i` holding a whitespace character, or the
/// end.
pub open spec fn tok_end(s: Seq<char>, i: int) -> int
    decreases s.len() - i,
{
    if i < 0 || i >= s.len() || is_whitespace_char(s[i]) {
        i
    } else {
        tok_end(s, i + 1)
    }
}

/// The first whitespace-separated token of `s` from `i` on, empty if none
/// is left.
pub open spec fn token_at(s: Seq<char>, i: int) -> Seq<char> {
    s.subrange(sw(s, i), tok_end(s, sw(s, i)))
}

/// The first token of the command line.
pub open spec fn first_token(s: Seq<char>) -> Seq<char> {
    token_at(s, 0)
}

/// The second token of the command line.
pub open spec fn second_token(s: Seq<char>) -> Seq<char> {
    token_at(s, tok_end(s, sw(s, 0)))
}

impl Command {
    /// Parse a command line: the first token names the command, and `q`,
    /// `w` and `e` take the second token as a file name.  Fails exactly on
    /// an empty line, a missing file name, and an unknown command name.
    pub fn parse(input: &str) -> (r: Result<Command, CommandError>)
        ensures
            ({
                let t1 = first_token(input@);
                let t2 = second_token(input@);
                match r {
                    Ok(cmd) => match cmd {
                        Command::QuitFile(f) => t1 == "q"@ && t2.len() > 0 && f@ == t2,
                        Command::SaveFile(f) => (t1 == "w"@ || t1 == "e"@) && t2.len() > 0 && f@
                            == t2,
                        Command::QuitAll => t1 == "qa"@,
                        Command::SaveAll => t1 == "wa"@,
                        Command::SaveQuitAll => t1 == "wqa"@,
                        Command::NextBuffer => t1 == "bn"@,
                        Command::PreviousBuffer => t1 == "bp"@,
                        Command::OpenFile(_) => false,
                    },
                    Err(e) => match e {
                        CommandError::Empty => t1.len() == 0,
                        CommandError::MissingFileName => (t1 == "q"@ || t1 == "w"@ || t1
                            == "e"@) && t2.len() == 0,
                        CommandError::UnknownCommand => t1.len() > 0 && t1 != "q"@ && t1 != "w"@
                            && t1 != "e"@ && t1 != "qa"@ && t1 != "wa"@ && t1 != "wqa"@ && t1
                            != "bn"@ && t1 != "bp"@,
                    },
                }
            }),
    {
        proof {
            reveal_strlit("q");
            reveal_strlit("w");
            reveal_strlit("e");
            reveal_strlit("qa");
            reveal_strlit("wa");
            reveal_strlit("wqa");
            reveal_strlit("bn");
            reveal_strlit("bp");
        }
        let n = input.unicode_len();
        let mut cs: Vec<char> = Vec::new();
        let mut i: usize = 0;
        while i < n
            invariant
                n == input@.len(),
                i <= n,
                cs@ == input@.subrange(0, i as int),
            decreases n - i,
        {
            let c = input.get_char(i);
            cs.push(c);
            proof {
                assert(cs@ =~= input@.subrange(0, i + 1));
            }
            i = i + 1;
        }
        proof {
            assert(cs@ =~= input@);
        }
        let a0 = skip_ws_exec(&cs, 0);
        let a1 = tok_end_exec(&cs, a0);
        let t1 = collect(&cs, a0, a1);
        proof {
            assert(t1@ =~= first_token(input@));
        }
        let b0 = skip_ws_exec(&cs, a1);
        let b1 = tok_end_exec(&cs, b0);
        let t2 = collect(&cs, b0, b1);
        proof {
            assert(t2@ =~= second_token(input@));
        }
        if t1.as_str().unicode_len() == 0 {
            return Err(CommandError::Empty);
        }
        let needs_file = crate::msg::str_eq(t1.as_str(), "q") || crate::msg::str_eq(
            t1.as_str(),
            "w",
        ) || crate::msg::str_eq(t1.as_str(), "e");
        if needs_file {
            if t2.as_str().unicode_len() == 0 {
                return Err(CommandError::MissingFileName);
            }
            if crate::msg::str_eq(t1.as_str(), "q") {
                return Ok(Command::QuitFile(t2));
            }
            return Ok(Command::SaveFile(t2));
        }
        if crate::msg::str_eq(t1.as_str(), "qa") {
            Ok(Command::QuitAll)
        } else if crate::msg::str_eq(t1.as_str(), "wa") {
            Ok(Command::SaveAll)
        } else if crate::msg::str_eq(t1.as_str(), "wqa") {
            Ok(Command::SaveQuitAll)
        } else if crate::msg::str_eq(t1.as_str(), "bn") {
            Ok(Command::NextBuffer)
        } else if crate::msg::str_eq(t1.as_str(), "bp") {
            Ok(Command::PreviousBuffer)
        } else {
            Err(CommandError::UnknownCommand)
        }
    }
}

fn skip_ws_exec(s: &Vec<char>, i: usize) -> (r: usize)
    requires
        i <= s@.len(),
    ensures
        r as int == sw(s@, i as int),
        i <= r <= s@.len(),
{
    let mut j: usize = i;
    while j < s.len() && char_is_whitespace(s[j])
        invariant
            i <= j <= s@.len(),
            sw(s@, j as int) == sw(s@, i as int),
        decreases s@.len() - j,
    {
        j = j + 1;
    }
    j
}

fn tok_end_exec(s: &Vec<char>, i: usize) -> (r: usize)
    requires
        i <= s@.len(),
    ensures
        r as int == tok_end(s@, i as int),
        i <= r <= s@.len(),
{
    let mut j: usize = i;
    while j < s.len() && !char_is_whitespace(s[j])
        invariant
            i <= j <= s@.len(),
            tok_end(s@, j as int) == tok_end(s@, i as int),
        decreases s@.len() - j,
    {
        j = j + 1;
    }
    j
}

fn collect(s: &Vec<char>, lo: usize, hi: usize) -> (r: String)
    requires
        lo <= hi <= s@.len(),
    ensures
        r@ == s@.subrange(lo as int, hi as int),
{
    let mut out = String::new();
    let mut k: usize = lo;
    while k < hi
        invariant
            lo <= k <= hi <= s@.len(),
            out@ == s@.subrange(lo as int, k as int),
        decreases hi - k,
    {
        let c = s[k];
        crate::text::push_char(&mut out, c);
        proof {
            assert(out@ =~= s@.subrange(lo as int, k + 1));
        }
        k = k + 1;
    }
    out
}

} // verus!
