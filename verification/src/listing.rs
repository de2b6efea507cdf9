//! One directory level: which of its entries are shown, the line of each, and the request
//! with which each subdirectory is listed in turn.

use crate::args::{Request, WDTArgs};
use crate::render::{format_name, row_for};
use vstd::prelude::*;

verus! {

/// A name that starts with a dot.
pub open spec fn is_dotfile(name: Seq<char>) -> bool {
    name.len() > 0 && name[0] == '.'
}

/// An entry of this name is listed: every entry, but a dotfile where those are hidden.
pub open spec fn is_shown(name: Seq<char>, hide_dotfiles: bool) -> bool {
    !(hide_dotfiles && is_dotfile(name))
}

/// How many of the first `n` names are shown: the place that the entry at position `n`
/// takes among the entries shown, and with `n` the number of names, how many are shown.
pub open spec fn shown_before(names: Seq<Seq<char>>, hide_dotfiles: bool, n: int) -> nat
    decreases n,
{
    if n <= 0 {
        0
    } else {
        shown_before(names, hide_dotfiles, n - 1) + if n - 1 < names.len() && is_shown(
            names[n - 1],
            hide_dotfiles,
        ) {
            1nat
        } else {
            0nat
        }
    }
}

/// The count never falls as more names are looked at.
pub proof fn lemma_shown_before_grows(names: Seq<Seq<char>>, hide_dotfiles: bool, m: int, n: int)
    requires
        m <= n,
    ensures
        shown_before(names, hide_dotfiles, m) <= shown_before(names, hide_dotfiles, n),
    decreases n - m,
{
    if m < n {
        lemma_shown_before_grows(names, hide_dotfiles, m, n - 1);
    }
}

pub fn shows(name: &str, hide_dotfiles: bool) -> (shown: bool)
    ensures
        shown == is_shown(name@, hide_dotfiles),
{
    if !hide_dotfiles {
        true
    } else if name.is_empty() {
        true
    } else {
        name.get_char(0) != '.'
    }
}

/// An entry of a directory, as the enumeration of the directory gave it.
#[derive(Debug)]
pub struct DirEntry {
    /// The last component of `path`.
    pub name: String,
    /// Where the entry lies.
    pub path: String,
    /// The entry is a directory, or leads to one.
    pub is_dir: bool,
}

/// What came of enumerating a directory.
#[derive(Debug)]
pub enum Listing {
    /// The directory could not be read. Such a directory is passed over in silence: the
    /// listing goes on behind it and ends well.
    Unreadable,
    /// The entries, in the order of the enumeration.
    Entries(Vec<DirEntry>),
}

impl Listing {
    /// The entries that the enumeration gave; none for a directory that could not be read.
    pub open spec fn entries(self) -> Seq<DirEntry> {
        match self {
            Listing::Unreadable => Seq::empty(),
            Listing::Entries(entries) => entries@,
        }
    }
}

/// The names of the entries, in order.
pub open spec fn names_of(entries: Seq<DirEntry>) -> Seq<Seq<char>> {
    Seq::new(entries.len(), |i: int| entries[i].name@)
}

/// One entry that is shown: its line, and what follows the line.
#[derive(Debug)]
pub struct Step<'a> {
    /// The position of the entry in the enumeration.
    pub index: usize,
    /// The line to print.
    pub line: String,
    /// For a directory the request to list it with, once the line is out.
    pub descend: Option<WDTArgs<'a>>,
}

/// `step` is the step for the entry that takes place `k` among the entries shown.
pub open spec fn step_fits(req: Request, entries: Seq<DirEntry>, k: int, step: Step) -> bool {
    let names = names_of(entries);
    let at = step.index as int;
    &&& 0 <= at < entries.len()
    &&& is_shown(entries[at].name@, req.hide_dotfiles)
    &&& shown_before(names, req.hide_dotfiles, at) == k
    &&& row_for(
        entries[at].is_dir,
        entries[at].name@,
        req.indent as int,
        k,
        shown_before(names, req.hide_dotfiles, entries.len() as int) as int,
        req.leaf,
    ).draws(step.line@)
    &&& match step.descend {
        Some(child) => entries[at].is_dir && child@ == req.child(entries[at].path@),
        None => !entries[at].is_dir,
    }
}

/// `steps` is the plan for one directory level: nothing where the depth budget is used up
/// or the directory could not be read, and else one step for every entry shown, in the
/// order of the enumeration.
pub open spec fn plan_fits(req: Request, listing: Listing, steps: Seq<Step>) -> bool {
    if req.exhausted() {
        steps.len() == 0
    } else {
        let entries = listing.entries();
        &&& steps.len() == shown_before(names_of(entries), req.hide_dotfiles, entries.len() as int)
        &&& forall|k: int| 0 <= k < steps.len() ==> step_fits(req, entries, k, #[trigger] steps[k])
    }
}

/// How many of the entries are shown.
pub fn count_shown(entries: &Vec<DirEntry>, hide_dotfiles: bool) -> (total: usize)
    ensures
        total == shown_before(names_of(entries@), hide_dotfiles, entries@.len() as int),
{
    let ghost names = names_of(entries@);
    let mut total: usize = 0;
    let mut i: usize = 0;
    while i < entries.len()
        invariant
            i <= entries.len(),
            total <= i,
            names == names_of(entries@),
            total == shown_before(names, hide_dotfiles, i as int),
        decreases entries.len() - i,
    {
        if shows(entries[i].name.as_str(), hide_dotfiles) {
            total = total + 1;
        }
        i = i + 1;
    }
    total
}

/// Plans one directory level from what its enumeration gave: the lines to print, in order,
/// and behind the line of each directory the request to list that directory with.
pub fn plan_level<'a>(args: &WDTArgs<'a>, listing: &'a Listing) -> (steps: Vec<Step<'a>>)
    requires
        args.indent < u32::MAX,
    ensures
        plan_fits(args@, *listing, steps@),
{
    let mut steps: Vec<Step<'a>> = Vec::new();
    if !args.leaf && args.depth == 0 {
        return steps;
    }
    match listing {
        Listing::Unreadable => steps,
        Listing::Entries(entries) => {
            let ghost names = names_of(entries@);
            let total = count_shown(entries, args.hide_dotfiles);
            let mut i: usize = 0;
            while i < entries.len()
                invariant
                    i <= entries.len(),
                    !args@.exhausted(),
                    args.indent < u32::MAX,
                    names == names_of(entries@),
                    total == shown_before(names, args.hide_dotfiles, entries@.len() as int),
                    steps@.len() == shown_before(names, args.hide_dotfiles, i as int),
                    forall|k: int|
                        0 <= k < steps@.len() ==> step_fits(
                            args@,
                            entries@,
                            k,
                            #[trigger] steps@[k],
                        ),
                decreases entries.len() - i,
            {
                let entry = &entries[i];
                if shows(entry.name.as_str(), args.hide_dotfiles) {
                    let line = format_name(
                        entry.is_dir,
                        entry.name.as_str(),
                        args.indent(),
                        steps.len(),
                        total,
                        args.leaf,
                    );
                    let descend = if entry.is_dir {
                        Some(args.go_deep(entry.path.as_str()))
                    } else {
                        None
                    };
                    let step = Step { index: i, line, descend };
                    assert(step_fits(args@, entries@, steps@.len() as int, step));
                    steps.push(step);
                }
                i = i + 1;
            }
            steps
        },
    }
}

} // verus!
