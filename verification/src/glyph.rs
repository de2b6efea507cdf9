//! Connector glyphs: the corner or tee drawn in front of every entry.

use vstd::prelude::*;

verus! {

/// The connector in front of an entry, chosen by the entry's place among its siblings.
#[derive(Clone, Copy, Debug, PartialEq, Eq, Structural)]
pub enum Glyph {
    /// The opening corner: the first of several entries directly below the root.
    First,
    /// The tee: an entry with further siblings after it.
    Middle,
    /// The closing corner: the final entry of its directory.
    Last,
}

pub const PREFIX_FIRST: &'static str = "╭";

pub const PREFIX_MIDDLE: &'static str = "├";

pub const PREFIX_LAST: &'static str = "╰";

/// The glyph of the entry at `index` among `total` siblings, `indent` levels below the root.
///
/// Being the final sibling is tested first, so the only entry of the root gets the closing
/// corner and not the opening one.
pub open spec fn glyph_for(indent: int, index: int, total: int) -> Glyph {
    if index == total - 1 {
        Glyph::Last
    } else if index == 0 && indent == 0 {
        Glyph::First
    } else {
        Glyph::Middle
    }
}

impl Glyph {
    /// The character that draws this glyph.
    pub open spec fn text(self) -> Seq<char> {
        match self {
            Glyph::First => seq!['╭'],
            Glyph::Middle => seq!['├'],
            Glyph::Last => seq!['╰'],
        }
    }

    pub fn symbol(self) -> (s: &'static str)
        ensures
            s@ == self.text(),
    {
        proof {
            reveal_strlit("╭");
            reveal_strlit("├");
            reveal_strlit("╰");
        }
        let s = match self {
            Glyph::First => PREFIX_FIRST,
            Glyph::Middle => PREFIX_MIDDLE,
            Glyph::Last => PREFIX_LAST,
        };
        assert(s@ =~= self.text());
        s
    }
}

pub fn select_glyph(indent: usize, index: usize, total: usize) -> (g: Glyph)
    ensures
        g == glyph_for(indent as int, index as int, total as int),
{
    if total > 0 && index == total - 1 {
        Glyph::Last
    } else if index == 0 && indent == 0 {
        Glyph::First
    } else {
        Glyph::Middle
    }
}

/// Among `total` siblings exactly one entry gets the closing corner, the final one, at
/// every depth; the opening corner goes to no entry but the first one directly below the root.
pub proof fn lemma_one_closing_corner(indent: int, total: int)
    requires
        total >= 1,
    ensures
        glyph_for(indent, total - 1, total) == Glyph::Last,
        forall|i: int|
            0 <= i < total ==> (#[trigger] glyph_for(indent, i, total) == Glyph::Last <==> i
                == total - 1),
        forall|i: int|
            0 <= i < total && #[trigger] glyph_for(indent, i, total) == Glyph::First ==> i == 0
                && indent == 0 && total > 1,
{
}

/// A directory's only entry gets the closing corner, directly below the root too.
pub proof fn lemma_only_entry_closes(indent: int)
    ensures
        glyph_for(indent, 0, 1) == Glyph::Last,
{
}

} // verus!
