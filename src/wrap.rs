//! Wrapping text to a width, a line at a time.

use vstd::prelude::*;
use vstd::string::StrSliceExecFns;

verus! {

/// The lines that wrapping `text` to `width` columns gives, with `initial`
/// before the first line and `subsequent` before the others; words end where
/// the Unicode line breaking rules allow a break, or, with `comma_words`,
/// right after each `, `.
pub uninterp spec fn wrapped(
    text: Seq<char>,
    width: usize,
    initial: Seq<char>,
    subsequent: Seq<char>,
    comma_words: bool,
) -> Seq<Seq<char>>;

/// The text of each line.
pub open spec fn lines_of(v: Seq<String>) -> Seq<Seq<char>> {
    v.map_values(|s: String| s@)
}

/// A single line that fits: no line break, only ASCII characters, no
/// trailing space, and shorter than the width.
pub open spec fn fits_on_one_line(text: Seq<char>, width: usize) -> bool {
    &&& text.len() < width
    &&& forall|k: int| 0 <= k < text.len() ==> (#[trigger] text[k]) != '\n' && (text[k] as u32) < 128
    &&& (text.len() == 0 || text.last() != ' ')
}

/// The parts, one after another.
pub open spec fn joined(parts: Seq<Seq<char>>) -> Seq<char>
    decreases parts.len(),
{
    if parts.len() == 0 {
        seq![]
    } else {
        joined(parts.drop_last()) + parts.last()
    }
}

/// `p` holds `, ` starting at `j`.
pub open spec fn comma_at(p: Seq<char>, j: int) -> bool {
    0 <= j && j + 1 < p.len() && p[j] == ',' && p[j + 1] == ' '
}

/// The words of a legend line: `s` cut right after each `, `, so that
/// every part but the last ends with `, ` and no part holds `, ` before its
/// end.
pub fn legend_words<'a>(s: &'a str) -> (r: Vec<&'a str>)
    ensures
        joined(r@.map_values(|p: &str| p@)) == s@,
        forall|k: int| 0 <= k < r@.len() ==> (#[trigger] r@[k])@.len() > 0,
        forall|k: int| 0 <= k < r@.len() - 1 ==> comma_at((#[trigger] r@[k])@, r@[k]@.len() - 2),
        forall|k: int, j: int| 0 <= k < r@.len() && 0 <= j < r@[k]@.len() - 2 ==> !#[trigger] comma_at(r@[k]@, j),
{
    let n = s.unicode_len();
    let mut r: Vec<&'a str> = Vec::new();
    let mut start: usize = 0;
    let mut i: usize = 0;
    while i < n
        invariant
            n == s@.len(),
            0 <= start <= i <= n,
            joined(r@.map_values(|p: &str| p@)) == s@.take(start as int),
            forall|k: int| 0 <= k < r@.len() ==> (#[trigger] r@[k])@.len() > 0,
            forall|k: int| 0 <= k < r@.len() ==> comma_at((#[trigger] r@[k])@, r@[k]@.len() - 2),
            forall|k: int, j: int| 0 <= k < r@.len() && 0 <= j < r@[k]@.len() - 2 ==> !#[trigger] comma_at(r@[k]@, j),
            forall|j: int| start <= j < i ==> !comma_at(s@, j),
        decreases n - i,
    {
        if i + 1 < n && s.get_char(i) == ',' && s.get_char(i + 1) == ' ' {
            let part = s.substring_char(start, i + 2);
            let ghost old_r = r@;
            r.push(part);
            proof {
                let v = r@.map_values(|p: &str| p@);
                assert(v.drop_last() =~= old_r.map_values(|p: &str| p@));
                assert(s@.take(i + 2) =~= s@.take(start as int) + part@);
                assert(comma_at(part@, part@.len() - 2));
                assert forall|j: int| 0 <= j < part@.len() - 2 implies !comma_at(part@, j) by {
                    assert(!comma_at(s@, start + j));
                }
            }
            start = i + 2;
            i = i + 2;
        } else {
            i = i + 1;
        }
    }
    if start < n {
        let part = s.substring_char(start, n);
        let ghost old_r = r@;
        r.push(part);
        proof {
            let v = r@.map_values(|p: &str| p@);
            assert(v.drop_last() =~= old_r.map_values(|p: &str| p@));
            assert(s@ =~= s@.take(start as int) + part@);
            assert forall|j: int| 0 <= j < part@.len() - 2 implies !comma_at(part@, j) by {
                assert(!comma_at(s@, start + j));
            }
        }
    } else {
        assert(s@.take(start as int) =~= s@);
    }
    r
}

/// Relies on `textwrap::wrap` with `Options::new(width)` and the two
/// indents; with `comma_words`, its words are those of `legend_words`. Its lines are the named result. Where the text is one line shorter
/// (in bytes) than the width and there is no first indent, `wrap` returns
/// that line with its trailing spaces removed.
#[verifier::external_body]
fn wrap_text(text: &str, width: usize, initial: &str, subsequent: &str, comma_words: bool) -> (r: Vec<String>)
    ensures
        lines_of(r@) == wrapped(text@, width, initial@, subsequent@, comma_words),
        fits_on_one_line(text@, width) && initial@.len() == 0 ==> lines_of(r@) == seq![text@],
{
    let mut o = textwrap::Options::new(width).initial_indent(initial).subsequent_indent(subsequent);
    if comma_words {
        // `Custom` takes a function pointer; built inside `vec!`, the closure
        // captures nothing and coerces to one.
        let sep: Vec<fn(&str) -> Box<dyn Iterator<Item = textwrap::core::Word<'_>> + '_>> =
            vec![|s| Box::new(legend_words(s).into_iter().map(textwrap::core::Word::from))];
        o = o.word_separator(textwrap::WordSeparator::Custom(sep[0]));
    }
    textwrap::wrap(text, o).into_iter().map(|l| l.into_owned()).collect()
}

/// Appends each of `lines`, in order.
pub fn push_lines(out: &mut Vec<String>, lines: &Vec<String>)
    ensures
        lines_of(final(out)@) == lines_of(old(out)@) + lines_of(lines@),
{
    let mut k: usize = 0;
    while k < lines.len()
        invariant
            0 <= k <= lines@.len(),
            lines_of(out@) == lines_of(old(out)@) + lines_of(lines@).take(k as int),
        decreases lines@.len() - k,
    {
        let ghost prev = out@;
        let line = lines[k].clone();
        out.push(line);
        assert(out@ == prev.push(lines@[k as int]));
        assert(lines_of(out@) =~= lines_of(prev).push(lines@[k as int]@));
        assert(lines_of(lines@).take(k + 1) =~= lines_of(lines@).take(k as int).push(lines@[k as int]@));
        k = k + 1;
    }
    assert(lines_of(lines@).take(lines@.len() as int) =~= lines_of(lines@));
}

/// What wrapping adds to the output: nothing for an empty text, else the
/// wrapped lines.
pub open spec fn wrapped_output(
    text: Seq<char>,
    width: usize,
    initial: Seq<char>,
    subsequent: Seq<char>,
    comma_words: bool,
) -> Seq<Seq<char>> {
    if text.len() == 0 {
        seq![]
    } else {
        wrapped(text, width, initial, subsequent, comma_words)
    }
}

/// Appends the lines of `text` wrapped to `width`, with the given indents
/// and word rule; an empty text adds no line.
pub fn print_wrapped_with_options(
    out: &mut Vec<String>,
    text: &str,
    width: usize,
    initial: &str,
    subsequent: &str,
    comma_words: bool,
)
    ensures
        lines_of(final(out)@) == lines_of(old(out)@) + wrapped_output(
            text@,
            width,
            initial@,
            subsequent@,
            comma_words,
        ),
        fits_on_one_line(text@, width) && text@.len() > 0 && initial@.len() == 0 ==> lines_of(final(out)@)
            == lines_of(old(out)@).push(text@),
{
    if text.unicode_len() == 0 {
        assert(lines_of(old(out)@) + seq![] =~= lines_of(old(out)@));
        return;
    }
    let lines = wrap_text(text, width, initial, subsequent, comma_words);
    push_lines(out, &lines);
    assert(lines_of(old(out)@) + seq![text@] =~= lines_of(old(out)@).push(text@));
}

/// Appends the lines of `text` wrapped to `width` with no indent.
pub fn print_wrapped(out: &mut Vec<String>, text: &str, width: usize)
    ensures
        lines_of(final(out)@) == lines_of(old(out)@) + wrapped_output(text@, width, seq![], seq![], false),
        fits_on_one_line(text@, width) && text@.len() > 0 ==> lines_of(final(out)@) == lines_of(old(out)@).push(text@),
{
    proof { reveal_strlit(""); }
    print_wrapped_with_options(out, text, width, "", "", false);
    assert(""@ =~= Seq::<char>::empty());
}

} // verus!
