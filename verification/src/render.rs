//! One line of the listing: indentation, connector, a space and the entry's name.

use crate::glyph::{glyph_for, Glyph};
use crate::style::{
    bold_code, dim, dimmed_code, embolden, get_prefix_symbol, hue_for, is_styled, style_as,
};
use vstd::prelude::*;

verus! {

/// `n` space characters.
pub open spec fn spaces(n: nat) -> Seq<char> {
    Seq::new(n, |i: int| ' ')
}

/// The indentation of a line `level` levels below the start: two spaces for every level.
pub open spec fn indentation_text(level: nat) -> Seq<char> {
    spaces(2 * level)
}

/// A line put together from its pieces: indentation, connector, one space, the name, and a
/// slash behind the name of a directory.
pub open spec fn line_text(level: nat, prefix: Seq<char>, name: Seq<char>, is_dir: bool) -> Seq<
    char,
> {
    indentation_text(level) + prefix + seq![' '] + name + if is_dir {
        seq!['/']
    } else {
        Seq::<char>::empty()
    }
}

/// What a line shows, before any styling.
pub struct Row {
    /// The nesting level of the entry.
    pub indent: nat,
    pub glyph: Glyph,
    pub name: Seq<char>,
    pub is_dir: bool,
    /// The name is drawn dimmed: a directory in a listing that is bounded in depth.
    pub dimmed: bool,
}

impl Row {
    /// The line without any styling.
    pub open spec fn plain(self) -> Seq<char> {
        line_text(self.indent, self.glyph.text(), self.name, self.is_dir)
    }

    /// The line as it is drawn when styling was on or off for the connector's colour
    /// (`tinted`), for its bold face (`bold`) and for the dimmed name (`faded`).
    pub open spec fn drawn(self, tinted: bool, bold: bool, faded: bool) -> Seq<char> {
        line_text(
            self.indent,
            style_as(
                style_as(self.glyph.text(), hue_for(self.indent as int).code(), tinted),
                bold_code(),
                bold,
            ),
            if self.dimmed {
                style_as(self.name, dimmed_code(), faded)
            } else {
                self.name
            },
            self.is_dir,
        )
    }

    /// `line` is this row, drawn with styling on or off.
    pub open spec fn draws(self, line: Seq<char>) -> bool {
        exists|tinted: bool, bold: bool, faded: bool|
            line == #[trigger] self.drawn(tinted, bold, faded)
    }
}

/// The row of the entry `name` at `index` among `total` siblings, `indent` levels down.
pub open spec fn row_for(
    is_dir: bool,
    name: Seq<char>,
    indent: int,
    index: int,
    total: int,
    leaf: bool,
) -> Row {
    Row {
        indent: indent as nat,
        glyph: glyph_for(indent, index, total),
        name,
        is_dir,
        dimmed: is_dir && !leaf,
    }
}

/// With styling off everywhere a row is drawn as its plain line.
pub proof fn lemma_plain_is_drawn(row: Row)
    ensures
        row.drawn(false, false, false) == row.plain(),
        row.draws(row.plain()),
{
    assert(row.plain() == row.drawn(false, false, false));
}

/// However a row is styled, its line starts with two spaces for every level of the row and
/// with no space more: the connector follows, or the escape sequence that styles it.
pub proof fn lemma_line_is_indented(row: Row, tinted: bool, bold: bool, faded: bool)
    ensures
        row.drawn(tinted, bold, faded).len() > 2 * row.indent,
        row.drawn(tinted, bold, faded).subrange(0, 2 * (row.indent as int)) == spaces(
            2 * row.indent,
        ),
        row.drawn(tinted, bold, faded)[2 * (row.indent as int)] != ' ',
{
    let line = row.drawn(tinted, bold, faded);
    let glyph = row.glyph.text();
    let colored = style_as(glyph, hue_for(row.indent as int).code(), tinted);
    let prefix = style_as(colored, bold_code(), bold);
    assert(glyph.len() == 1 && glyph[0] != ' ');
    assert(colored.len() > 0 && colored[0] != ' ');
    assert(prefix.len() > 0 && prefix[0] != ' ');
    assert(line[2 * (row.indent as int)] == prefix[0]);
    assert(line.subrange(0, 2 * (row.indent as int)) =~= spaces(2 * row.indent));
}

/// The indentation of nesting level `level`: exactly `2 * level` characters, every one of
/// them a space.
pub fn indentation(level: usize) -> (out: String)
    ensures
        out@ == indentation_text(level as nat),
        out@.len() == 2 * level,
        forall|i: int| 0 <= i < out@.len() ==> out@[i] == ' ',
{
    let mut out = String::new();
    let mut done: usize = 0;
    while done < level
        invariant
            done <= level,
            out@ == indentation_text(done as nat),
        decreases level - done,
    {
        proof {
            reveal_strlit("  ");
        }
        out.append("  ");
        done = done + 1;
        assert(out@ =~= indentation_text(done as nat));
    }
    out
}

/// Puts a line together from pieces that are styled already.
pub fn compose_line(indent: usize, prefix: &str, name: &str, is_dir: bool) -> (line: String)
    ensures
        line@ == line_text(indent as nat, prefix@, name@, is_dir),
{
    proof {
        reveal_strlit(" ");
        reveal_strlit("/");
    }
    let mut line = indentation(indent);
    line.append(prefix);
    line.append(" ");
    line.append(name);
    if is_dir {
        line.append("/");
    }
    assert(line@ =~= line_text(indent as nat, prefix@, name@, is_dir));
    line
}

/// The line of the entry `name`, the one at `index` among the `total` entries shown of its
/// directory, `indent` levels down: the connector in the colour of its level and bold, the
/// name of a directory dimmed unless the listing goes down to the leaves (`leaf`).
pub fn format_name(
    is_dir: bool,
    name: &str,
    indent: usize,
    index: usize,
    total: usize,
    leaf: bool,
) -> (line: String)
    ensures
        row_for(is_dir, name@, indent as int, index as int, total as int, leaf).draws(line@),
{
    let ghost row = row_for(is_dir, name@, indent as int, index as int, total as int, leaf);
    let tinted = get_prefix_symbol(indent, index, total);
    let prefix = embolden(tinted.as_str());
    if is_dir && !leaf {
        let faded = dim(name);
        let line = compose_line(indent, prefix.as_str(), faded.as_str(), is_dir);
        proof {
            let t = tinted@ == style_as(row.glyph.text(), hue_for(indent as int).code(), true);
            let b = prefix@ == style_as(tinted@, bold_code(), true);
            let f = faded@ == style_as(name@, dimmed_code(), true);
            assert(line@ == row.drawn(t, b, f));
        }
        line
    } else {
        let line = compose_line(indent, prefix.as_str(), name, is_dir);
        proof {
            let t = tinted@ == style_as(row.glyph.text(), hue_for(indent as int).code(), true);
            let b = prefix@ == style_as(tinted@, bold_code(), true);
            assert(line@ == row.drawn(t, b, false));
        }
        line
    }
}

} // verus!
