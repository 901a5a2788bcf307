//! The command line: which command an argument selects, and which process
//! ids a listing of listeners on the callback port names.

use vstd::prelude::*;
use crate::text::{
    after, after_char, before, before_char, chars_of, lemma_after_shorter, same_text, string_of,
    trim_chars, trimmed,
};

verus! {

/// What the helper is asked to do.
pub enum Command {
    /// Run the OAuth authorization and store the token.
    Auth,
    /// Run the local HTTP server.
    Serve,
    /// Print the usage.
    Help,
    /// An argument it does not know.
    Unknown(String),
}

/// The mathematical model of a [`Command`].
pub enum CommandView {
    Auth,
    Serve,
    Help,
    Unknown(Seq<char>),
}

impl View for Command {
    type V = CommandView;

    open spec fn view(&self) -> CommandView {
        match self {
            Command::Auth => CommandView::Auth,
            Command::Serve => CommandView::Serve,
            Command::Help => CommandView::Help,
            Command::Unknown(s) => CommandView::Unknown(s@),
        }
    }
}

/// The command the first argument selects: none or "serve" serves, "auth"
/// authorizes, "-h", "--help" or "help" asks for the usage.
pub open spec fn command_of(arg: Option<Seq<char>>) -> CommandView {
    match arg {
        None => CommandView::Serve,
        Some(a) => if a == "auth"@ {
            CommandView::Auth
        } else if a == "serve"@ {
            CommandView::Serve
        } else if a == "-h"@ || a == "--help"@ || a == "help"@ {
            CommandView::Help
        } else {
            CommandView::Unknown(a)
        },
    }
}

/// Chooses the command for the first argument.
pub fn parse_command(arg: Option<&str>) -> (r: Command)
    ensures
        r@ == command_of(
            match arg {
                Some(a) => Some(a@),
                None => None,
            },
        ),
{
    match arg {
        None => Command::Serve,
        Some(a) => {
            if same_text(a, "auth") {
                Command::Auth
            } else if same_text(a, "serve") {
                Command::Serve
            } else if same_text(a, "-h") || same_text(a, "--help") || same_text(a, "help") {
                Command::Help
            } else {
                Command::Unknown(String::from_str(a))
            }
        },
    }
}

/// The lines of a text, split at each `\n`.
pub open spec fn split_lines(s: Seq<char>) -> Seq<Seq<char>>
    decreases s.len(),
{
    match after(s, '\n') {
        None => seq![s],
        Some(rest) => {
            proof {
                lemma_after_shorter(s, '\n');
            }
            seq![before(s, '\n')] + split_lines(rest)
        },
    }
}

/// The process ids a listing names: one per line of the trimmed listing,
/// each trimmed; none for a blank listing.
pub open spec fn listed_pids(listing: Seq<char>) -> Seq<Seq<char>> {
    if trimmed(listing).len() == 0 {
        seq![]
    } else {
        split_lines(trimmed(listing)).map_values(|line: Seq<char>| trimmed(line))
    }
}

/// Reads the process ids that listen on the callback port from the
/// listing of them (one per line).
pub fn pids_in_listing(listing: &str) -> (r: Vec<String>)
    ensures
        r@.len() == listed_pids(listing@).len(),
        forall|i: int| 0 <= i < r@.len() ==> #[trigger] r@[i]@ == listed_pids(listing@)[i],
{
    let all = chars_of(listing);
    let text = trim_chars(&all);
    let mut out: Vec<String> = Vec::new();
    if text.len() == 0 {
        return out;
    }
    let ghost whole = split_lines(text@).map_values(|line: Seq<char>| trimmed(line));
    let mut rest = text;
    let mut done = false;
    while !done
        invariant
            whole == split_lines(trimmed(listing@)).map_values(|line: Seq<char>| trimmed(line)),
            !done ==> whole == out@.map_values(|s: String| s@) + split_lines(rest@).map_values(
                |line: Seq<char>| trimmed(line),
            ),
            done ==> whole == out@.map_values(|s: String| s@),
        decreases rest@.len() + (if done { 0nat } else { 1nat }),
    {
        let line = before_char(&rest, '\n');
        let piece = string_of(trim_chars(&line).as_slice());
        let ghost before_push = out@;
        out.push(piece);
        match after_char(&rest, '\n') {
            Some(next) => {
                proof {
                    lemma_after_shorter(rest@, '\n');
                    assert(split_lines(rest@) == seq![before(rest@, '\n')] + split_lines(next@));
                    assert(out@.map_values(|s: String| s@) =~= before_push.map_values(|s: String| s@).push(
                        trimmed(before(rest@, '\n')),
                    ));
                    assert(split_lines(rest@).map_values(|line: Seq<char>| trimmed(line)) =~= seq![
                        trimmed(before(rest@, '\n')),
                    ] + split_lines(next@).map_values(|line: Seq<char>| trimmed(line)));
                }
                rest = next;
            },
            None => {
                proof {
                    assert(split_lines(rest@) == seq![rest@]);
                    assert(before(rest@, '\n') == rest@) by {
                        crate::text::lemma_before_whole(rest@, '\n');
                    }
                    assert(out@.map_values(|s: String| s@) =~= before_push.map_values(|s: String| s@).push(
                        trimmed(rest@),
                    ));
                    assert(split_lines(rest@).map_values(|line: Seq<char>| trimmed(line)) =~= seq![
                        trimmed(rest@),
                    ]);
                }
                done = true;
            },
        }
    }
    proof {
        assert forall|i: int| 0 <= i < out@.len() implies #[trigger] out@[i]@ == listed_pids(listing@)[i] by {
            assert(out@.map_values(|s: String| s@)[i] == out@[i]@);
        }
    }
    out
}

} // verus!
