//! Ex command parsing for the command line: a name and its arguments.
use crate::text;
use crate::text::split_words;
use vstd::prelude::*;

verus! {

/// An Ex command (`:w`, `:e file`, `:set number`, ...): its name and its arguments.
pub struct Command {
    pub name: String,
    pub args: Vec<String>,
}

impl Command {
    /// Splits `input` at whitespace: the first word is the name, the others are the
    /// arguments; `None` when `input` holds no word.
    pub fn parse(input: &str) -> (r: Option<Self>)
        ensures
            r is None <==> text::words(input@).len() == 0,
            r matches Some(c) ==> c.name@ == text::words(input@)[0] && text::seqs(c.args@)
                == text::words(input@).drop_first(),
    {
        let mut parts = split_words(input);
        if parts.len() == 0 {
            return None;
        }
        let ghost all = parts@;
        let name = parts.remove(0);
        proof {
            assert(text::seqs(parts@) =~= text::seqs(all).drop_first());
        }
        Some(Self { name, args: parts })
    }
}

} // verus!
