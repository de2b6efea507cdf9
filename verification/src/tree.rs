//! A directory tree held in memory, and the whole listing of such a tree.

use crate::args::{Request, TraversalError, WDTArgs};
use crate::listing::{
    is_shown, lemma_shown_before_grows, names_of, plan_fits, plan_level, shown_before, step_fits,
    DirEntry, Listing, Step,
};
use crate::glyph::Glyph;
use crate::reach::{lemma_one_row_per_visit, visited};
use crate::render::{row_for, Row};
use vstd::prelude::*;

verus! {

/// What stands at a place in a tree.
#[derive(Debug)]
pub enum Kind {
    /// Anything that is no directory.
    File,
    /// A directory whose entries cannot be read.
    Unreadable,
    /// A directory, with its entries in the order of their enumeration.
    Dir(Vec<Node>),
}

/// An entry of a tree, with all that lies below it.
#[derive(Debug)]
pub struct Node {
    pub name: String,
    pub kind: Kind,
}

/// The path of the entry `name` of the directory at `parent`.
pub open spec fn join_text(parent: Seq<char>, name: Seq<char>) -> Seq<char> {
    parent + seq!['/'] + name
}

pub fn join_path(parent: &str, name: &str) -> (path: String)
    ensures
        path@ == join_text(parent@, name@),
{
    proof {
        reveal_strlit("/");
    }
    let mut path = String::from_str(parent);
    path.append("/");
    path.append(name);
    assert(path@ =~= join_text(parent@, name@));
    path
}

impl Node {
    pub open spec fn is_dir(self) -> bool {
        !(self.kind is File)
    }

    /// The entries of a directory that can be read; none for anything else.
    pub open spec fn children(self) -> Seq<Node> {
        match self.kind {
            Kind::Dir(children) => children@,
            _ => Seq::empty(),
        }
    }

    /// The names of the entries, in order.
    pub open spec fn child_names(self) -> Seq<Seq<char>> {
        Seq::new(self.children().len(), |i: int| self.children()[i].name@)
    }

    /// Every directory of the tree lies fewer than `levels` levels below its top, the
    /// top counted.
    pub open spec fn nests_within(self, levels: nat) -> bool
        decreases self,
    {
        match self.kind {
            Kind::File => true,
            Kind::Unreadable => levels > 0,
            Kind::Dir(children) => levels > 0 && forall|i: int|
                0 <= i < children.len() ==> (#[trigger] children[i]).nests_within(
                    (levels - 1) as nat,
                ),
        }
    }

    pub fn file(name: &str) -> (node: Node)
        ensures
            node.name@ == name@,
            node.kind is File,
    {
        Node { name: String::from_str(name), kind: Kind::File }
    }

    pub fn unreadable(name: &str) -> (node: Node)
        ensures
            node.name@ == name@,
            node.kind is Unreadable,
    {
        Node { name: String::from_str(name), kind: Kind::Unreadable }
    }

    pub fn dir(name: &str, children: Vec<Node>) -> (node: Node)
        ensures
            node.name@ == name@,
            node.kind == Kind::Dir(children),
    {
        Node { name: String::from_str(name), kind: Kind::Dir(children) }
    }

    pub fn holds_directory(&self) -> (yes: bool)
        ensures
            yes == self.is_dir(),
    {
        match self.kind {
            Kind::File => false,
            _ => true,
        }
    }
}

/// The rows of the listing of `node` under the request `req`, in the order in which they
/// are printed: nothing for a request whose depth budget is used up, for a directory that
/// cannot be read and for anything that is no directory; else, for every entry shown, its
/// own row and then, for a directory, the rows of its listing under the derived request.
pub open spec fn rows_of(req: Request, node: Node) -> Seq<Row>
    decreases node, node.children().len() + 1,
{
    if req.exhausted() {
        Seq::empty()
    } else {
        level_rows(req, node, node.children().len())
    }
}

/// The rows that the first `n` entries of `node` give, with all that lies below them.
pub open spec fn level_rows(req: Request, node: Node, n: nat) -> Seq<Row>
    decreases node, n,
{
    if n == 0 || n > node.children().len() {
        Seq::empty()
    } else {
        let at = n - 1;
        let child = node.children()[at];
        let before = level_rows(req, node, at as nat);
        if is_shown(child.name@, req.hide_dotfiles) {
            before + seq![entry_row(req, node, at)] + if child.is_dir() {
                rows_of(req.child(join_text(req.path, child.name@)), child)
            } else {
                Seq::empty()
            }
        } else {
            before
        }
    }
}

/// The row of the entry at position `at` of `node`: what place it takes, and how many
/// there are, is counted among the entries shown.
pub open spec fn entry_row(req: Request, node: Node, at: int) -> Row {
    let child = node.children()[at];
    row_for(
        child.is_dir(),
        child.name@,
        req.indent as int,
        shown_before(node.child_names(), req.hide_dotfiles, at) as int,
        shown_before(node.child_names(), req.hide_dotfiles, node.children().len() as int) as int,
        req.leaf,
    )
}

/// `lines` are the `rows`, one line for each row and in the same order, each drawn with
/// styling on or off.
pub open spec fn depicts(lines: Seq<String>, rows: Seq<Row>) -> bool {
    &&& lines.len() == rows.len()
    &&& forall|j: int| 0 <= j < lines.len() ==> (#[trigger] rows[j]).draws(lines[j]@)
}

proof fn lemma_depicts_joined(a: Seq<String>, ra: Seq<Row>, b: Seq<String>, rb: Seq<Row>)
    requires
        depicts(a, ra),
        depicts(b, rb),
    ensures
        depicts(a + b, ra + rb),
{
    assert forall|j: int| 0 <= j < (a + b).len() implies (#[trigger] (ra + rb)[j]).draws(
        (a + b)[j]@,
    ) by {
        if j < a.len() {
            assert((ra + rb)[j] == ra[j]);
        } else {
            assert((ra + rb)[j] == rb[j - a.len()]);
        }
    }
}

/// Entries that are not shown add nothing: where as many entries are shown before
/// position `n` as before position `m`, the first `n` entries give the rows of the first `m`.
proof fn lemma_hidden_entries_add_nothing(req: Request, node: Node, m: nat, n: nat)
    requires
        m <= n <= node.children().len(),
        shown_before(node.child_names(), req.hide_dotfiles, m as int) == shown_before(
            node.child_names(),
            req.hide_dotfiles,
            n as int,
        ),
    ensures
        level_rows(req, node, n) == level_rows(req, node, m),
    decreases n - m,
{
    if m < n {
        let names = node.child_names();
        lemma_shown_before_grows(names, req.hide_dotfiles, m as int, n - 1);
        lemma_shown_before_grows(names, req.hide_dotfiles, n - 1, n as int);
        assert(names[n - 1] == node.children()[n - 1].name@);
        lemma_hidden_entries_add_nothing(req, node, m, (n - 1) as nat);
    }
}

/// The entries of a directory of the tree, as an enumeration of it under `parent` would
/// give them.
pub fn enumerate(parent: &str, children: &Vec<Node>) -> (entries: Vec<DirEntry>)
    ensures
        entries@.len() == children@.len(),
        forall|i: int|
            0 <= i < entries@.len() ==> {
                &&& (#[trigger] entries@[i]).name@ == children@[i].name@
                &&& entries@[i].path@ == join_text(parent@, children@[i].name@)
                &&& entries@[i].is_dir == children@[i].is_dir()
            },
{
    let mut entries: Vec<DirEntry> = Vec::new();
    let mut i: usize = 0;
    while i < children.len()
        invariant
            i <= children.len(),
            entries@.len() == i,
            forall|j: int|
                0 <= j < i ==> {
                    &&& (#[trigger] entries@[j]).name@ == children@[j].name@
                    &&& entries@[j].path@ == join_text(parent@, children@[j].name@)
                    &&& entries@[j].is_dir == children@[j].is_dir()
                },
        decreases children.len() - i,
    {
        let child = &children[i];
        entries.push(
            DirEntry {
                name: child.name.clone(),
                path: join_path(parent, child.name.as_str()),
                is_dir: child.holds_directory(),
            },
        );
        i = i + 1;
    }
    entries
}

/// Lists the tree `root` under the request `args` and returns the lines in the order in
/// which they are printed: depth first, the line of a directory before the lines of its
/// entries, the entries of a directory in the order of their enumeration.
///
/// The listing is refused where `root` is no directory, and for nothing else; the error
/// carries the path of the request.
pub fn working_directory_tree(args: &WDTArgs, root: &Node) -> (outcome: Result<
    Vec<String>,
    TraversalError,
>)
    requires
        root.nests_within((u32::MAX - args.indent) as nat),
    ensures
        !root.is_dir() <==> outcome is Err,
        outcome matches Err(e) ==> e.path() == args.path@,
        outcome matches Ok(lines) ==> depicts(lines@, rows_of(args@, *root)),
        outcome matches Ok(lines) ==> lines@.len() == visited(args@, *root),
    decreases root,
{
    let open = match args.enter(root.holds_directory()) {
        Err(e) => {
            return Err(e);
        },
        Ok(open) => open,
    };
    let mut lines: Vec<String> = Vec::new();
    if !open {
        proof {
            lemma_one_row_per_visit(args@, *root);
        }
        return Ok(lines);
    }
    match &root.kind {
        Kind::Dir(children) => {
            let listing = Listing::Entries(enumerate(args.path, children));
            let steps = plan_level(args, &listing);
            let ghost names = root.child_names();
            let ghost hide = args.hide_dotfiles;
            let ghost done: nat = 0;
            assert(names =~= names_of(listing.entries()));
            let mut k: usize = 0;
            while k < steps.len()
                invariant
                    k <= steps.len(),
                    root.kind == Kind::Dir(*children),
                    root.nests_within((u32::MAX - args.indent) as nat),
                    !args@.exhausted(),
                    hide == args.hide_dotfiles,
                    names == root.child_names(),
                    names == names_of(listing.entries()),
                    listing.entries().len() == children@.len(),
                    forall|i: int|
                        0 <= i < children@.len() ==> {
                            &&& (#[trigger] listing.entries()[i]).name@ == children@[i].name@
                            &&& listing.entries()[i].path@ == join_text(
                                args.path@,
                                children@[i].name@,
                            )
                            &&& listing.entries()[i].is_dir == children@[i].is_dir()
                        },
                    plan_fits(args@, listing, steps@),
                    done <= children@.len(),
                    shown_before(names, hide, done as int) == k,
                    depicts(lines@, level_rows(args@, *root, done)),
                decreases steps.len() - k,
            {
                let step = &steps[k];
                let at = step.index;
                let child = &children[at];
                proof {
                    assert(step_fits(args@, listing.entries(), k as int, *step));
                    assert(names[at as int] == child.name@);
                    if at < done {
                        lemma_shown_before_grows(names, hide, at + 1, done as int);
                    }
                    lemma_hidden_entries_add_nothing(args@, *root, done, at as nat);
                    assert(entry_row(args@, *root, at as int).draws(step.line@));
                }
                let ghost before = lines@;
                lines.push(step.line.clone());
                proof {
                    lemma_depicts_joined(
                        before,
                        level_rows(args@, *root, at as nat),
                        seq![step.line],
                        seq![entry_row(args@, *root, at as int)],
                    );
                    assert(lines@ =~= before + seq![step.line]);
                }
                match step.descend {
                    Some(child_args) => {
                        assert(child.nests_within((u32::MAX - args.indent - 1) as nat));
                        let mut below = match working_directory_tree(&child_args, child) {
                            Ok(below) => below,
                            Err(e) => {
                                return Err(e);
                            },
                        };
                        let ghost upto = lines@;
                        proof {
                            lemma_depicts_joined(
                                upto,
                                level_rows(args@, *root, at as nat) + seq![
                                    entry_row(args@, *root, at as int),
                                ],
                                below@,
                                rows_of(child_args@, *child),
                            );
                        }
                        lines.append(&mut below);
                    },
                    None => {
                        assert(level_rows(args@, *root, (at + 1) as nat) =~= level_rows(
                            args@,
                            *root,
                            at as nat,
                        ) + seq![entry_row(args@, *root, at as int)]);
                    },
                }
                proof {
                    done = (at + 1) as nat;
                }
                k = k + 1;
            }
            proof {
                lemma_hidden_entries_add_nothing(args@, *root, done, children@.len() as nat);
                lemma_one_row_per_visit(args@, *root);
            }
            Ok(lines)
        },
        _ => {
            proof {
                lemma_one_row_per_visit(args@, *root);
            }
            Ok(lines)
        },
    }
}

/// In a directory the closing corner goes to the entry behind which no further entry is
/// shown, and to no other.
pub proof fn lemma_closing_corner_in_directory(req: Request, node: Node, at: int)
    requires
        0 <= at < node.children().len(),
        is_shown(node.children()[at].name@, req.hide_dotfiles),
    ensures
        entry_row(req, node, at).glyph == Glyph::Last <==> shown_before(
            node.child_names(),
            req.hide_dotfiles,
            at + 1,
        ) == shown_before(node.child_names(), req.hide_dotfiles, node.children().len() as int),
{
    assert(node.child_names()[at] == node.children()[at].name@);
}

} // verus!
