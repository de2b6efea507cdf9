//! Terminal styling of the pieces of a line: the palette of connector colours, and the text
//! that the `colored` crate hands back for a piece.
//!
//! Whether `colored` styles at all is decided outside this library (by the environment, by
//! the kind of output stream, by an override set in the process), so every statement here
//! about styled text allows both answers: the text as it was, or the text between escape
//! sequences.

use colored::Colorize;
use vstd::prelude::*;

verus! {

/// A colour of the connector palette.
#[derive(Clone, Copy, Debug, PartialEq, Eq, Structural)]
pub enum Hue {
    Blue,
    Green,
    Red,
    Yellow,
    Magenta,
    Cyan,
}

/// The colour of the connectors `indent` levels below the root: six colours, in turn.
pub open spec fn hue_for(indent: int) -> Hue {
    let band = indent % 6;
    if band == 0 {
        Hue::Blue
    } else if band == 1 {
        Hue::Green
    } else if band == 2 {
        Hue::Red
    } else if band == 3 {
        Hue::Yellow
    } else if band == 4 {
        Hue::Magenta
    } else {
        Hue::Cyan
    }
}

impl Hue {
    /// The name by which `colored` knows this colour.
    pub open spec fn name(self) -> Seq<char> {
        match self {
            Hue::Blue => seq!['b', 'l', 'u', 'e'],
            Hue::Green => seq!['g', 'r', 'e', 'e', 'n'],
            Hue::Red => seq!['r', 'e', 'd'],
            Hue::Yellow => seq!['y', 'e', 'l', 'l', 'o', 'w'],
            Hue::Magenta => seq!['m', 'a', 'g', 'e', 'n', 't', 'a'],
            Hue::Cyan => seq!['c', 'y', 'a', 'n'],
        }
    }

    /// The parameter of the escape sequence that selects this colour for the foreground.
    pub open spec fn code(self) -> Seq<char> {
        match self {
            Hue::Blue => seq!['3', '4'],
            Hue::Green => seq!['3', '2'],
            Hue::Red => seq!['3', '1'],
            Hue::Yellow => seq!['3', '3'],
            Hue::Magenta => seq!['3', '5'],
            Hue::Cyan => seq!['3', '6'],
        }
    }

    pub fn label(self) -> (s: &'static str)
        ensures
            s@ == self.name(),
            hue_named(s@) == Some(self),
    {
        proof {
            reveal_strlit("blue");
            reveal_strlit("green");
            reveal_strlit("red");
            reveal_strlit("yellow");
            reveal_strlit("magenta");
            reveal_strlit("cyan");
        }
        let s = match self {
            Hue::Blue => "blue",
            Hue::Green => "green",
            Hue::Red => "red",
            Hue::Yellow => "yellow",
            Hue::Magenta => "magenta",
            Hue::Cyan => "cyan",
        };
        assert(s@ =~= self.name());
        proof {
            lemma_names_tell_hues_apart(self);
        }
        s
    }
}

/// The palette colour with the given name, if the name is one of the six.
pub open spec fn hue_named(name: Seq<char>) -> Option<Hue> {
    if name == Hue::Blue.name() {
        Some(Hue::Blue)
    } else if name == Hue::Green.name() {
        Some(Hue::Green)
    } else if name == Hue::Red.name() {
        Some(Hue::Red)
    } else if name == Hue::Yellow.name() {
        Some(Hue::Yellow)
    } else if name == Hue::Magenta.name() {
        Some(Hue::Magenta)
    } else if name == Hue::Cyan.name() {
        Some(Hue::Cyan)
    } else {
        None
    }
}

/// No two palette colours share a name.
pub proof fn lemma_names_tell_hues_apart(hue: Hue)
    ensures
        hue_named(hue.name()) == Some(hue),
{
    assert(Hue::Blue.name().len() == 4 && Hue::Blue.name()[0] == 'b');
    assert(Hue::Green.name().len() == 5);
    assert(Hue::Red.name().len() == 3);
    assert(Hue::Yellow.name().len() == 6);
    assert(Hue::Magenta.name().len() == 7);
    assert(Hue::Cyan.name().len() == 4 && Hue::Cyan.name()[0] == 'c');
}

pub fn palette(indent: usize) -> (hue: Hue)
    ensures
        hue == hue_for(indent as int),
{
    let band: usize = indent % 6;
    if band == 0 {
        Hue::Blue
    } else if band == 1 {
        Hue::Green
    } else if band == 2 {
        Hue::Red
    } else if band == 3 {
        Hue::Yellow
    } else if band == 4 {
        Hue::Magenta
    } else {
        Hue::Cyan
    }
}

/// The escape sequence that switches on the rendition with the given parameters.
pub open spec fn sgr(params: Seq<char>) -> Seq<char> {
    seq!['\x1B', '['] + params + seq!['m']
}

/// The escape sequence that switches every rendition off.
pub open spec fn sgr_reset() -> Seq<char> {
    sgr(seq!['0'])
}

/// `text` with `style` switched on again behind every reset sequence that `text` holds, so
/// that text styled before keeps the outer style behind its own end.
pub open spec fn resumed(text: Seq<char>, style: Seq<char>) -> Seq<char>
    decreases text.len(),
{
    if text.len() == 0 {
        text
    } else if sgr_reset().is_prefix_of(text) {
        sgr_reset() + style + resumed(text.skip(sgr_reset().len() as int), style)
    } else {
        text.take(1) + resumed(text.skip(1), style)
    }
}

/// `text` in the rendition `params` when styling is `on`, and `text` itself when it is off.
pub open spec fn style_as(text: Seq<char>, params: Seq<char>, on: bool) -> Seq<char> {
    if on {
        sgr(params) + resumed(text, sgr(params)) + sgr_reset()
    } else {
        text
    }
}

/// `out` is `text` in the rendition `params`, with styling on or off.
pub open spec fn is_styled(out: Seq<char>, text: Seq<char>, params: Seq<char>) -> bool {
    out == style_as(text, params, true) || out == style_as(text, params, false)
}

/// The parameter of the bold rendition.
pub open spec fn bold_code() -> Seq<char> {
    seq!['1']
}

/// The parameter of the dimmed rendition.
pub open spec fn dimmed_code() -> Seq<char> {
    seq!['2']
}

/// Calls `colored::Colorize::color` on `text` with the colour's name and formats the result.
///
/// Not proved: that for one of the six palette names the result is `text` itself when
/// `colored` does not style, and otherwise `text` between the sequence that selects the
/// colour and the reset sequence, the colour selected again behind every reset sequence
/// inside `text`.
#[verifier::external_body]
fn tint(text: &str, color: &str) -> (out: String)
    ensures
        hue_named(color@) matches Some(hue) ==> is_styled(out@, text@, hue.code()),
{
    text.color(color).to_string()
}

/// Calls `colored::Colorize::bold` on `text` and formats the result.
///
/// Not proved: that the result is `text` itself when `colored` does not style, and otherwise
/// `text` between the bold sequence and the reset sequence, bold switched on again behind
/// every reset sequence inside `text`.
#[verifier::external_body]
pub(crate) fn embolden(text: &str) -> (out: String)
    ensures
        is_styled(out@, text@, bold_code()),
{
    text.bold().to_string()
}

/// Calls `colored::Colorize::dimmed` on `text` and formats the result.
///
/// Not proved: that the result is `text` itself when `colored` does not style, and otherwise
/// `text` between the dimmed sequence and the reset sequence, dimmed switched on again
/// behind every reset sequence inside `text`.
#[verifier::external_body]
pub(crate) fn dim(text: &str) -> (out: String)
    ensures
        is_styled(out@, text@, dimmed_code()),
{
    text.dimmed().to_string()
}

/// `prefix` in the palette colour of its nesting level.
pub fn colored_prefix(prefix: &str, indent: usize) -> (out: String)
    ensures
        is_styled(out@, prefix@, hue_for(indent as int).code()),
{
    let hue = palette(indent);
    tint(prefix, hue.label())
}

/// The connector of the entry at `index` among `total` siblings, in the colour of its level.
pub fn get_prefix_symbol(indent: usize, index: usize, total: usize) -> (out: String)
    ensures
        is_styled(
            out@,
            crate::glyph::glyph_for(indent as int, index as int, total as int).text(),
            hue_for(indent as int).code(),
        ),
{
    colored_prefix(crate::glyph::select_glyph(indent, index, total).symbol(), indent)
}

} // verus!
