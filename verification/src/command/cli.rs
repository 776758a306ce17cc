//! `cli`: a line made of a mode, a name and arguments.
use vstd::prelude::*;
use crate::text::{split_by, views, string_views, chars_of, split_chars, string_of, strings_from, lemma_split_nonempty};

verus! {

/// The words of a command line: the mode, a name that is not empty, and
/// the rest; nothing when either of the first two is missing.
pub open spec fn cli_words(text: Seq<char>) -> Option<(Seq<char>, Seq<char>, Seq<Seq<char>>)> {
    let p = split_by(text, ' ');
    if p.len() <= 1 {
        None
    } else if p.len() == 2 {
        if p[1].len() == 0 {
            None
        } else {
            Some((p[0], p[1], Seq::<Seq<char>>::empty()))
        }
    } else {
        Some((p[0], p[1], p.subrange(2, p.len() as int)))
    }
}

/// The `cli` command.
#[derive(Debug, Clone, Copy, PartialEq, Eq, Structural)]
pub struct CliCmd;

impl CliCmd {
    /// Runs the command; it does nothing.
    pub fn run(&self) {
    }

    /// Splits a command line into the mode, the name and the arguments.
    pub fn parse_cli_text(text: String) -> (r: Option<(String, String, Vec<String>)>)
        ensures
            match cli_words(text@) {
                None => r is None,
                Some((m, n, a)) => r matches Some((rm, rn, ra)) && rm@ == m && rn@ == n && string_views(ra@) == a,
            },
    {
        let chars = chars_of(text.as_str());
        let parts = split_chars(&chars, ' ');
        proof {
            lemma_split_nonempty(chars@, ' ');
        }
        if parts.len() <= 1 {
            return None;
        }
        if parts.len() == 2 && parts[1].len() == 0 {
            return None;
        }
        let mode = string_of(&parts[0]);
        let name = string_of(&parts[1]);
        let args = strings_from(&parts, 2);
        proof {
            if parts@.len() == 2 {
                assert(views(parts@).subrange(2, 2) =~= Seq::<Seq<char>>::empty());
            }
        }
        Some((mode, name, args))
    }
}

} // verus!
