//! Text styles, and painting text with them.

use vstd::prelude::*;
use yansi::Color as Ansi;

verus! {

/// A colour of the terminal's basic palette.
#[derive(Clone, Copy, Debug, PartialEq, Eq, Structural)]
pub enum Color {
    Black,
    Red,
    Green,
    Yellow,
    Blue,
    Magenta,
    Cyan,
    White,
}

/// A terminal style: an optional foreground colour and a few attributes.
#[derive(Clone, Copy, PartialEq, Eq, Structural)]
pub struct TextStyle {
    pub color: Option<Color>,
    pub bold: bool,
    pub italic: bool,
    pub dim: bool,
    pub strike: bool,
}

/// The style of each kind of token in the rendered recipe.
#[derive(Clone, Copy)]
pub struct CookStyles {
    pub title: TextStyle,
    pub meta_key: TextStyle,
    pub selected_servings: TextStyle,
    pub ingredient: TextStyle,
    pub cookware: TextStyle,
    pub timer: TextStyle,
    pub inline_quantity: TextStyle,
    pub opt_marker: TextStyle,
    pub intermediate_ref: TextStyle,
    pub step_igr_quantity: TextStyle,
    pub section_name: TextStyle,
}

/// The terminal escapes that open `style`.
pub uninterp spec fn style_prefix(style: TextStyle) -> Seq<char>;

/// The terminal escapes that close `style`.
pub uninterp spec fn style_suffix(style: TextStyle) -> Seq<char>;

/// `text` framed by the escapes of `style`.
pub open spec fn painted(text: Seq<char>, style: TextStyle) -> Seq<char> {
    style_prefix(style) + text + style_suffix(style)
}

/// Relies on yansi's `Style::prefix` and `Style::suffix`: the escapes that
/// open and close the style, which depend on the style alone and are empty
/// for the style with no colour and no attribute.
#[verifier::external_body]
pub(crate) fn paint(text: &str, style: TextStyle) -> (r: String)
    ensures
        r@ == style_prefix(style) + text@ + style_suffix(style),
        style == plain_style() ==> r@ == text@,
{
    let mut s = yansi::Style::new();
    s.foreground = style.color.map(|c| match c {
        Color::Black => Ansi::Black, Color::Red => Ansi::Red,
        Color::Green => Ansi::Green, Color::Yellow => Ansi::Yellow,
        Color::Blue => Ansi::Blue, Color::Magenta => Ansi::Magenta,
        Color::Cyan => Ansi::Cyan, Color::White => Ansi::White,
    });
    if style.bold { s = s.bold(); }
    if style.italic { s = s.italic(); }
    if style.dim { s = s.dim(); }
    if style.strike { s = s.strike(); }
    format!("{}{}{}", s.prefix(), text, s.suffix())
}

/// A style with no colour and no attribute: painting with it changes
/// nothing.
pub open spec fn plain_style() -> TextStyle {
    TextStyle { color: None, bold: false, italic: false, dim: false, strike: false }
}

pub fn plain() -> (r: TextStyle)
    ensures
        r == plain_style(),
{
    TextStyle { color: None, bold: false, italic: false, dim: false, strike: false }
}

/// The plain style with one foreground colour.
pub fn colored(c: Color) -> (r: TextStyle)
    ensures
        r == (TextStyle { color: Some(c), ..plain_style() }),
{
    TextStyle { color: Some(c), bold: false, italic: false, dim: false, strike: false }
}

/// The plain style in italics, used for units.
pub fn italic() -> (r: TextStyle)
    ensures
        r == (TextStyle { italic: true, ..plain_style() }),
{
    TextStyle { color: None, bold: false, italic: true, dim: false, strike: false }
}

} // verus!
