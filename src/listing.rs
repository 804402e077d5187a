//! One level of a listing: which entries are shown, the line each one gets,
//! and where the walk descends. Reading directories is left to the caller,
//! which prints each line and lists each directory it is told to enter.

use vstd::prelude::*;
use crate::format::{age_text, perm_string, perm_text, time_string};
use crate::options::Options;
use crate::text::{decimal, push_decimal, same_text, starts_with_char};

verus! {

/// The metadata that a long listing shows for one entry.
#[derive(Clone, Copy, Debug, PartialEq, Eq, Structural)]
pub struct Meta {
    /// Whole seconds since the entry was last modified.
    pub age: u64,
    /// Number of hard links.
    pub nlink: u64,
    /// Owner id.
    pub uid: u32,
    /// Group id.
    pub gid: u32,
    /// Size in bytes.
    pub size: u64,
    /// Permission bits (higher bits are ignored).
    pub mode: u32,
}

/// One directory entry as the enumeration gave it.
#[derive(Clone, Debug, PartialEq, Eq)]
pub struct Entry {
    /// The entry's own name.
    pub name: String,
    /// The entry's full path: the listed directory joined with the name.
    pub path: String,
    /// Whether the entry is a directory.
    pub is_dir: bool,
    /// The entry's metadata; only a long listing reads it.
    pub meta: Option<Meta>,
}

/// What the walk does next: print a line, or list a directory with an indent.
#[derive(Clone, Debug, PartialEq, Eq)]
pub enum Step {
    Line(String),
    Descend(String, String),
}

/// The mathematical value of a step.
pub enum StepView {
    Line(Seq<char>),
    Descend(Seq<char>, Seq<char>),
}

impl View for Step {
    type V = StepView;

    open spec fn view(&self) -> StepView {
        match self {
            Step::Line(s) => StepView::Line(s@),
            Step::Descend(p, i) => StepView::Descend(p@, i@),
        }
    }
}

/// The values of a list of steps.
pub open spec fn step_views(v: Seq<Step>) -> Seq<StepView> {
    v.map_values(|s: Step| s@)
}

/// Whether a name is hidden (it begins with `.`).
pub open spec fn hidden(name: Seq<char>) -> bool {
    name.len() > 0 && name[0] == '.'
}

/// Whether an entry named `name`, found in the directory `dir`, is shown.
pub open spec fn shown(name: Seq<char>, dir: Seq<char>, o: Options) -> bool {
    (o.all || !hidden(name)) && (!o.directory || name == dir)
}

/// The colour marker of a long line: bright blue for a directory, gray otherwise.
pub open spec fn color_hint(is_dir: bool) -> Seq<char> {
    if is_dir {
        "\x1b[94m \x1b[0m"@
    } else {
        "\x1b[90m \x1b[0m"@
    }
}

/// The long form of an entry: age, links, owner, group, size, permissions,
/// colour marker and name, separated by spaces.
pub open spec fn long_text(m: Meta, is_dir: bool, name: Seq<char>) -> Seq<char> {
    age_text(m.age as nat) + " "@ + decimal(m.nlink as nat) + " "@ + decimal(m.uid as nat) + " "@
        + decimal(m.gid as nat) + " "@ + decimal(m.size as nat) + " "@ + perm_text(m.mode as int)
        + " "@ + color_hint(is_dir) + " "@ + name
}

/// The text of an entry's line, after the indent.
pub open spec fn entry_text(e: Entry, o: Options) -> Seq<char> {
    if o.long_list {
        long_text(e.meta.unwrap(), e.is_dir, e.name@)
    } else {
        e.name@
    }
}

/// The quoted, escaped form of a path, as its debug formatting gives it.
pub uninterp spec fn debug_text(s: Seq<char>) -> Seq<char>;

/// The steps for one entry: nothing if it is hidden by the filter; else its
/// line, and, in a recursive listing of a directory entry, a blank line, a
/// header naming its path, and the descent into it with one more tab.
pub open spec fn entry_steps(e: Entry, dir: Seq<char>, o: Options, indent: Seq<char>) -> Seq<StepView> {
    if !shown(e.name@, dir, o) {
        seq![]
    } else if o.recursive && e.is_dir {
        seq![
            StepView::Line(indent + entry_text(e, o)),
            StepView::Line(seq![]),
            StepView::Line(indent + debug_text(e.path@) + " :"@),
            StepView::Descend(e.path@, indent + "\t"@),
        ]
    } else {
        seq![StepView::Line(indent + entry_text(e, o))]
    }
}

/// The steps for a directory's entries, in enumeration order.
pub open spec fn level_steps(entries: Seq<Entry>, dir: Seq<char>, o: Options, indent: Seq<char>) -> Seq<StepView>
    decreases entries.len(),
{
    if entries.len() == 0 {
        seq![]
    } else {
        level_steps(entries.drop_last(), dir, o, indent) + entry_steps(entries.last(), dir, o, indent)
    }
}

/// Whether every entry that is shown carries metadata, as a long listing needs.
pub open spec fn meta_present(entries: Seq<Entry>, dir: Seq<char>, o: Options) -> bool {
    o.long_list ==> forall|i: int|
        0 <= i < entries.len() && shown((#[trigger] entries[i]).name@, dir, o) ==> entries[i].meta.is_some()
}

/// Relies on the `Debug` formatting of `std::path::Path`: the path in double
/// quotes with special characters escaped, a function of the text alone.
#[verifier::external_body]
fn quoted_path(s: &str) -> (r: String)
    ensures
        r@ == debug_text(s@),
{
    format!("{:?}", std::path::Path::new(s))
}

/// Whether the entry `name`, found while listing `dir`, passes the filter.
pub fn entry_shown(name: &str, dir: &str, opts: &Options) -> (r: bool)
    ensures
        r == shown(name@, dir@, *opts),
{
    if !opts.all && starts_with_char(name, '.') {
        return false;
    }
    if opts.directory && !same_text(name, dir) {
        return false;
    }
    true
}

/// The long form of an entry, without the indent.
pub fn long_line(meta: &Meta, is_dir: bool, name: &str) -> (r: String)
    ensures
        r@ == long_text(*meta, is_dir, name@),
{
    let mut r = time_string(meta.age);
    r.append(" ");
    push_decimal(&mut r, meta.nlink);
    r.append(" ");
    push_decimal(&mut r, meta.uid as u64);
    r.append(" ");
    push_decimal(&mut r, meta.gid as u64);
    r.append(" ");
    push_decimal(&mut r, meta.size);
    r.append(" ");
    let perms = perm_string(meta.mode);
    r.append(perms.as_str());
    r.append(" ");
    if is_dir {
        r.append("\x1b[94m \x1b[0m");
    } else {
        r.append("\x1b[90m \x1b[0m");
    }
    r.append(" ");
    r.append(name);
    assert(r@ =~= long_text(*meta, is_dir, name@));
    r
}

/// Appends the steps of one entry of the directory `dir` to `out`.
pub fn push_entry_steps(out: &mut Vec<Step>, entry: &Entry, dir: &str, opts: &Options, indent: &str)
    requires
        opts.long_list && shown(entry.name@, dir@, *opts) ==> entry.meta.is_some(),
    ensures
        step_views(final(out)@) == step_views(old(out)@) + entry_steps(*entry, dir@, *opts, indent@),
{
    let ghost start = out@;
    if !entry_shown(entry.name.as_str(), dir, opts) {
        assert(step_views(out@) =~= step_views(start) + entry_steps(*entry, dir@, *opts, indent@));
        return;
    }
    let mut line = String::from_str(indent);
    if opts.long_list {
        match &entry.meta {
            Some(m) => {
                let text = long_line(m, entry.is_dir, entry.name.as_str());
                line.append(text.as_str());
            },
            None => {},
        }
    } else {
        line.append(entry.name.as_str());
    }
    out.push(Step::Line(line));
    if opts.recursive && entry.is_dir {
        out.push(Step::Line(String::new()));
        let mut header = String::from_str(indent);
        let q = quoted_path(entry.path.as_str());
        header.append(q.as_str());
        header.append(" :");
        out.push(Step::Line(header));
        let mut deeper = String::from_str(indent);
        deeper.append("\t");
        out.push(Step::Descend(entry.path.clone(), deeper));
        assert(step_views(out@) =~= step_views(start) + entry_steps(*entry, dir@, *opts, indent@));
    } else {
        assert(step_views(out@) =~= step_views(start) + entry_steps(*entry, dir@, *opts, indent@));
    }
}

/// The steps for listing the directory `dir`, whose entries are `entries`,
/// at the indent `indent`.
pub fn list_level(dir: &str, entries: &Vec<Entry>, opts: &Options, indent: &str) -> (r: Vec<Step>)
    requires
        meta_present(entries@, dir@, *opts),
    ensures
        step_views(r@) == level_steps(entries@, dir@, *opts, indent@),
{
    let mut out: Vec<Step> = Vec::new();
    let mut i: usize = 0;
    while i < entries.len()
        invariant
            i <= entries.len(),
            meta_present(entries@, dir@, *opts),
            step_views(out@) == level_steps(entries@.subrange(0, i as int), dir@, *opts, indent@),
        decreases entries.len() - i,
    {
        let ghost pre = entries@.subrange(0, i as int);
        let ghost post = entries@.subrange(0, i + 1);
        assert(post.drop_last() =~= pre);
        assert(post.last() == entries@[i as int]);
        push_entry_steps(&mut out, &entries[i], dir, opts, indent);
        i = i + 1;
    }
    assert(entries@.subrange(0, entries.len() as int) =~= entries@);
    out
}

/// Without `a`, hidden entries contribute nothing: the listing is the same as
/// the listing of the entries with the hidden ones removed.
pub proof fn lemma_hidden_entries_skipped(entries: Seq<Entry>, dir: Seq<char>, o: Options, indent: Seq<char>)
    requires
        !o.all,
    ensures
        level_steps(entries, dir, o, indent)
            == level_steps(entries.filter(|e: Entry| !hidden(e.name@)), dir, o, indent),
    decreases entries.len(),
{
    reveal(Seq::filter);
    if entries.len() > 0 {
        lemma_hidden_entries_skipped(entries.drop_last(), dir, o, indent);
        let kept = entries.drop_last().filter(|e: Entry| !hidden(e.name@));
        if !hidden(entries.last().name@) {
            let f = entries.filter(|e: Entry| !hidden(e.name@));
            assert(f == kept.push(entries.last()));
            assert(f.drop_last() =~= kept);
        } else {
            assert(entry_steps(entries.last(), dir, o, indent) =~= seq![]);
            assert(level_steps(entries, dir, o, indent) =~= level_steps(entries.drop_last(), dir, o, indent));
        }
    }
}

/// With `a` and without `d` and `R`, every entry is listed, in order, each
/// by its own line.
pub proof fn lemma_all_entries_listed(entries: Seq<Entry>, dir: Seq<char>, o: Options, indent: Seq<char>)
    requires
        o.all,
        !o.directory,
        !o.recursive,
    ensures
        level_steps(entries, dir, o, indent)
            == entries.map_values(|e: Entry| StepView::Line(indent + entry_text(e, o))),
    decreases entries.len(),
{
    if entries.len() > 0 {
        lemma_all_entries_listed(entries.drop_last(), dir, o, indent);
        assert(entries.map_values(|e: Entry| StepView::Line(indent + entry_text(e, o)))
            =~= entries.drop_last().map_values(|e: Entry| StepView::Line(indent + entry_text(e, o)))
            + seq![StepView::Line(indent + entry_text(entries.last(), o))]);
    } else {
        assert(entries.map_values(|e: Entry| StepView::Line(indent + entry_text(e, o))) =~= seq![]);
    }
}

/// Without `R`, a listing never descends: every step prints a line, so no
/// subdirectory is read, at any depth.
pub proof fn lemma_no_descent_without_recursion(entries: Seq<Entry>, dir: Seq<char>, o: Options, indent: Seq<char>)
    requires
        !o.recursive,
    ensures
        forall|k: int| 0 <= k < level_steps(entries, dir, o, indent).len()
            ==> (#[trigger] level_steps(entries, dir, o, indent)[k]) is Line,
    decreases entries.len(),
{
    if entries.len() > 0 {
        lemma_no_descent_without_recursion(entries.drop_last(), dir, o, indent);
        let a = level_steps(entries.drop_last(), dir, o, indent);
        let b = entry_steps(entries.last(), dir, o, indent);
        assert forall|k: int| 0 <= k < (a + b).len() implies (#[trigger] (a + b)[k]) is Line by {
            if k >= a.len() {
                assert(b[k - a.len()] is Line);
            } else {
                assert(a[k] is Line);
            }
        }
    }
}

/// An empty directory gives no steps, whatever the flags.
pub proof fn lemma_empty_directory(dir: Seq<char>, o: Options, indent: Seq<char>)
    ensures
        level_steps(Seq::<Entry>::empty(), dir, o, indent) == Seq::<StepView>::empty(),
{
}

} // verus!
