//! How far a listing reaches: how many entries it visits, how deep its rows lie, and what
//! the depth budget and the listing down to the leaves do to it.

use crate::args::Request;
use crate::listing::is_shown;
use crate::render::Row;
use crate::tree::{entry_row, join_text, level_rows, rows_of, Node};
use vstd::prelude::*;

verus! {

/// The number of entries that a walk of `node` under `req` visits, counted by a walk of
/// its own: an entry shown counts once, and a directory among them is walked under the
/// derived request, as long as the depth budget lasts.
pub open spec fn visited(req: Request, node: Node) -> nat
    decreases node, node.children().len() + 1,
{
    if req.exhausted() {
        0
    } else {
        visited_among(req, node, node.children().len())
    }
}

/// The number of entries visited at and below the first `n` entries of `node`.
pub open spec fn visited_among(req: Request, node: Node, n: nat) -> nat
    decreases node, n,
{
    if n == 0 || n > node.children().len() {
        0
    } else {
        let child = node.children()[n - 1];
        visited_among(req, node, (n - 1) as nat) + if !is_shown(child.name@, req.hide_dotfiles) {
            0nat
        } else if child.is_dir() {
            1 + visited(req.child(join_text(req.path, child.name@)), child)
        } else {
            1nat
        }
    }
}

/// The number of entries shown anywhere in the tree below `node`, whatever their depth: the
/// entries of a directory that cannot be read are not seen, and those below a hidden
/// directory are hidden with it.
pub open spec fn shown_below(node: Node, hide_dotfiles: bool) -> nat
    decreases node, node.children().len() + 1,
{
    shown_below_among(node, hide_dotfiles, node.children().len())
}

/// The number of entries shown at and below the first `n` entries of `node`.
pub open spec fn shown_below_among(node: Node, hide_dotfiles: bool, n: nat) -> nat
    decreases node, n,
{
    if n == 0 || n > node.children().len() {
        0
    } else {
        let child = node.children()[n - 1];
        shown_below_among(node, hide_dotfiles, (n - 1) as nat) + if !is_shown(
            child.name@,
            hide_dotfiles,
        ) {
            0nat
        } else {
            1 + shown_below(child, hide_dotfiles)
        }
    }
}

/// The same request with another depth budget.
pub open spec fn with_depth(req: Request, depth: nat) -> Request {
    Request { depth, ..req }
}

/// Every row lies at or below the level of the request.
pub open spec fn rows_at_or_below(rows: Seq<Row>, level: nat) -> bool {
    forall|j: int| 0 <= j < rows.len() ==> level <= (#[trigger] rows[j]).indent
}

/// Every row lies above the level `bound`.
pub open spec fn rows_above(rows: Seq<Row>, bound: nat) -> bool {
    forall|j: int| 0 <= j < rows.len() ==> (#[trigger] rows[j]).indent < bound
}

/// A listing has one row for every entry that the walk visits, no more and no fewer.
pub proof fn lemma_one_row_per_visit(req: Request, node: Node)
    ensures
        rows_of(req, node).len() == visited(req, node),
    decreases node, node.children().len() + 1,
{
    if !req.exhausted() {
        lemma_one_row_per_visit_among(req, node, node.children().len());
    }
}

proof fn lemma_one_row_per_visit_among(req: Request, node: Node, n: nat)
    ensures
        level_rows(req, node, n).len() == visited_among(req, node, n),
    decreases node, n,
{
    if !(n == 0 || n > node.children().len()) {
        let child = node.children()[n - 1];
        lemma_one_row_per_visit_among(req, node, (n - 1) as nat);
        if is_shown(child.name@, req.hide_dotfiles) && child.is_dir() {
            lemma_one_row_per_visit(req.child(join_text(req.path, child.name@)), child);
        }
    }
}

/// The depth budget bounds the listing: no row lies above the level of the request, the
/// entries of the directory listed lie at that level, and in a listing that is bounded in
/// depth every row lies fewer than `depth` levels further down. With a budget of one
/// level, that is the entries of the directory itself and nothing below them.
pub proof fn lemma_depth_bounds_rows(req: Request, node: Node)
    ensures
        rows_at_or_below(rows_of(req, node), req.indent),
        !req.leaf ==> rows_above(rows_of(req, node), req.indent + req.depth),
    decreases node, node.children().len() + 1,
{
    if !req.exhausted() {
        lemma_depth_bounds_rows_among(req, node, node.children().len());
    }
}

proof fn lemma_depth_bounds_rows_among(req: Request, node: Node, n: nat)
    requires
        !req.exhausted(),
    ensures
        rows_at_or_below(level_rows(req, node, n), req.indent),
        !req.leaf ==> rows_above(level_rows(req, node, n), req.indent + req.depth),
    decreases node, n,
{
    if !(n == 0 || n > node.children().len()) {
        let child = node.children()[n - 1];
        let before = level_rows(req, node, (n - 1) as nat);
        lemma_depth_bounds_rows_among(req, node, (n - 1) as nat);
        if is_shown(child.name@, req.hide_dotfiles) {
            let own = seq![entry_row(req, node, n - 1)];
            let below = if child.is_dir() {
                rows_of(req.child(join_text(req.path, child.name@)), child)
            } else {
                Seq::empty()
            };
            if child.is_dir() {
                lemma_depth_bounds_rows(req.child(join_text(req.path, child.name@)), child);
            }
            let all = before + own + below;
            assert(all == level_rows(req, node, n));
            assert forall|j: int| 0 <= j < all.len() implies req.indent <= (#[trigger] all[j]).indent
                && (!req.leaf ==> all[j].indent < req.indent + req.depth) by {
                if j < before.len() {
                    assert(all[j] == before[j]);
                } else if j == before.len() {
                    assert(all[j] == own[0]);
                } else {
                    assert(all[j] == below[j - before.len() - 1]);
                }
            }
        }
    }
}

/// A listing down to the leaves does not look at the depth budget.
pub proof fn lemma_leaf_ignores_depth(req: Request, node: Node, depth: nat)
    requires
        req.leaf,
    ensures
        rows_of(with_depth(req, depth), node) == rows_of(req, node),
    decreases node, node.children().len() + 1,
{
    lemma_leaf_ignores_depth_among(req, node, depth, node.children().len());
}

proof fn lemma_leaf_ignores_depth_among(req: Request, node: Node, depth: nat, n: nat)
    requires
        req.leaf,
    ensures
        level_rows(with_depth(req, depth), node, n) == level_rows(req, node, n),
    decreases node, n,
{
    if !(n == 0 || n > node.children().len()) {
        let child = node.children()[n - 1];
        lemma_leaf_ignores_depth_among(req, node, depth, (n - 1) as nat);
        assert(entry_row(with_depth(req, depth), node, n - 1) == entry_row(req, node, n - 1));
        if is_shown(child.name@, req.hide_dotfiles) && child.is_dir() {
            let below = req.child(join_text(req.path, child.name@));
            assert(with_depth(req, depth).child(join_text(req.path, child.name@)) == with_depth(
                below,
                depth,
            ));
            lemma_leaf_ignores_depth(below, child, depth);
        }
    }
}

/// A listing down to the leaves visits every entry that is shown, at whatever depth.
pub proof fn lemma_leaf_reaches_all(req: Request, node: Node)
    requires
        req.leaf,
    ensures
        rows_of(req, node).len() == shown_below(node, req.hide_dotfiles),
        visited(req, node) == shown_below(node, req.hide_dotfiles),
    decreases node, node.children().len() + 1,
{
    lemma_one_row_per_visit(req, node);
    lemma_leaf_reaches_all_among(req, node, node.children().len());
}

proof fn lemma_leaf_reaches_all_among(req: Request, node: Node, n: nat)
    requires
        req.leaf,
    ensures
        visited_among(req, node, n) == shown_below_among(node, req.hide_dotfiles, n),
    decreases node, n,
{
    if !(n == 0 || n > node.children().len()) {
        let child = node.children()[n - 1];
        lemma_leaf_reaches_all_among(req, node, (n - 1) as nat);
        if is_shown(child.name@, req.hide_dotfiles) {
            if child.is_dir() {
                lemma_leaf_reaches_all(req.child(join_text(req.path, child.name@)), child);
            } else {
                assert(child.children().len() == 0);
                assert(shown_below_among(child, req.hide_dotfiles, 0) == 0);
                assert(shown_below(child, req.hide_dotfiles) == 0);
            }
        }
    }
}

} // verus!
