//! The flag set and the splitting of command tokens into flags and targets.

use vstd::prelude::*;
use crate::text::{has_char, starts_with_char};

verus! {

/// The four listing flags.
#[derive(Clone, Copy, Debug, PartialEq, Eq, Structural)]
pub struct Options {
    /// `l`: long listing with metadata.
    pub long_list: bool,
    /// `a`: show hidden entries too.
    pub all: bool,
    /// `d`: keep only entries named like the directory being listed.
    pub directory: bool,
    /// `R`: descend into subdirectories.
    pub recursive: bool,
}

/// Whether a token is a flag token (it begins with `-`).
pub open spec fn is_flag(t: Seq<char>) -> bool {
    t.len() > 0 && t[0] == '-'
}

/// Whether some flag token among `toks` holds the letter `c`.
pub open spec fn flag_given(toks: Seq<Seq<char>>, c: char) -> bool {
    exists|i: int| 0 <= i < toks.len() && is_flag(#[trigger] toks[i]) && toks[i].contains(c)
}

/// The flag set that the tokens `toks` produce.
pub open spec fn flags_of(toks: Seq<Seq<char>>) -> Options {
    Options {
        long_list: flag_given(toks, 'l'),
        all: flag_given(toks, 'a'),
        directory: flag_given(toks, 'd'),
        recursive: flag_given(toks, 'R'),
    }
}

/// The tokens that are not flags, in their order.
pub open spec fn targets(toks: Seq<Seq<char>>) -> Seq<Seq<char>>
    decreases toks.len(),
{
    if toks.len() == 0 {
        seq![]
    } else if is_flag(toks.last()) {
        targets(toks.drop_last())
    } else {
        targets(toks.drop_last()).push(toks.last())
    }
}

/// The paths to list: the targets, or the current directory where there are none.
pub open spec fn targets_or_current(toks: Seq<Seq<char>>) -> Seq<Seq<char>> {
    if targets(toks).len() == 0 {
        seq![seq!['.']]
    } else {
        targets(toks)
    }
}

/// The views of a list of strings.
pub open spec fn texts(v: Seq<String>) -> Seq<Seq<char>> {
    v.map_values(|s: String| s@)
}

impl Options {
    /// The empty flag set.
    pub fn new() -> (r: Options)
        ensures
            !r.long_list && !r.all && !r.directory && !r.recursive,
    {
        Options { long_list: false, all: false, directory: false, recursive: false }
    }

    /// Adds to the set each recognised letter of the flag token `arg`.
    pub fn options(&mut self, arg: &str)
        ensures
            final(self).long_list == (old(self).long_list || arg@.contains('l')),
            final(self).all == (old(self).all || arg@.contains('a')),
            final(self).directory == (old(self).directory || arg@.contains('d')),
            final(self).recursive == (old(self).recursive || arg@.contains('R')),
    {
        if has_char(arg, 'l') {
            self.long_list = true;
        }
        if has_char(arg, 'a') {
            self.all = true;
        }
        if has_char(arg, 'd') {
            self.directory = true;
        }
        if has_char(arg, 'R') {
            self.recursive = true;
        }
    }
}

/// Splits command tokens into the flag set and the paths to list; with no
/// path among them, the current directory `.` is the one path.
pub fn parse_args(args: &Vec<String>) -> (r: (Options, Vec<String>))
    ensures
        r.0 == flags_of(texts(args@)),
        texts(r.1@) == targets_or_current(texts(args@)),
{
    let ghost toks = texts(args@);
    let mut opts = Options::new();
    let mut paths: Vec<String> = Vec::new();
    let mut i: usize = 0;
    while i < args.len()
        invariant
            i <= args.len(),
            toks == texts(args@),
            opts == flags_of(toks.subrange(0, i as int)),
            texts(paths@) == targets(toks.subrange(0, i as int)),
        decreases args.len() - i,
    {
        let arg = &args[i];
        let ghost pre = toks.subrange(0, i as int);
        let ghost post = toks.subrange(0, i + 1);
        assert(post.drop_last() =~= pre);
        assert(post.last() == arg@);
        if starts_with_char(arg.as_str(), '-') {
            opts.options(arg.as_str());
            assert forall|c: char| flag_given(post, c) == (flag_given(pre, c) || arg@.contains(c)) by {
                if flag_given(post, c) {
                    let j = choose|j: int| 0 <= j < post.len() && is_flag(#[trigger] post[j]) && post[j].contains(c);
                    if j < i {
                        assert(pre[j] == post[j]);
                    }
                }
                if flag_given(pre, c) {
                    let j = choose|j: int| 0 <= j < pre.len() && is_flag(#[trigger] pre[j]) && pre[j].contains(c);
                    assert(pre[j] == post[j]);
                }
                if arg@.contains(c) {
                    assert(is_flag(post[i as int]));
                }
            }
        } else {
            let ghost before = paths@;
            paths.push(arg.clone());
            assert(texts(paths@) =~= texts(before).push(arg@));
            assert forall|c: char| flag_given(post, c) == flag_given(pre, c) by {
                if flag_given(post, c) {
                    let j = choose|j: int| 0 <= j < post.len() && is_flag(#[trigger] post[j]) && post[j].contains(c);
                    assert(pre[j] == post[j]);
                }
                if flag_given(pre, c) {
                    let j = choose|j: int| 0 <= j < pre.len() && is_flag(#[trigger] pre[j]) && pre[j].contains(c);
                    assert(pre[j] == post[j]);
                }
            }
        }
        i = i + 1;
    }
    assert(toks.subrange(0, args.len() as int) =~= toks);
    if paths.len() == 0 {
        proof {
            reveal_strlit(".");
        }
        let dot = String::from_str(".");
        assert(dot@ =~= seq!['.']);
        paths.push(dot);
        assert(texts(paths@) =~= seq![seq!['.']]);
    }
    (opts, paths)
}

} // verus!
