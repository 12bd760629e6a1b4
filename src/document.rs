//! The steps of the recipe, section by section.

use vstd::prelude::*;
use vstd::string::{StrSliceExecFns, StringExecFns};
use crate::model::{Content, Recipe, Section};
use crate::step::{legend_text, narrative, step_text};
use crate::style::{paint, painted, CookStyles};
use crate::text::{decimal, decimal_text, push_char, write_decimal};
use crate::wrap::{lines_of, print_wrapped_with_options, wrapped_output};

verus! {

/// A character of Unicode's White_Space property, which `char::is_whitespace`
/// tests.
pub open spec fn is_white_space(c: char) -> bool {
    let u = c as u32;
    (0x9 <= u <= 0xd) || u == 0x20 || u == 0x85 || u == 0xa0 || u == 0x1680 || (0x2000 <= u <= 0x200a)
        || u == 0x2028 || u == 0x2029 || u == 0x202f || u == 0x205f || u == 0x3000
}

pub open spec fn trim_start(s: Seq<char>) -> Seq<char>
    decreases s.len(),
{
    if s.len() > 0 && is_white_space(s[0]) {
        trim_start(s.drop_first())
    } else {
        s
    }
}

pub open spec fn trim_end(s: Seq<char>) -> Seq<char>
    decreases s.len(),
{
    if s.len() > 0 && is_white_space(s.last()) {
        trim_end(s.drop_last())
    } else {
        s
    }
}

/// `s` without its leading and trailing white space.
pub open spec fn trimmed(s: Seq<char>) -> Seq<char> {
    trim_end(trim_start(s))
}

fn white_space(c: char) -> (r: bool)
    ensures
        r == is_white_space(c),
{
    let u = c as u32;
    (0x9 <= u && u <= 0xd) || u == 0x20 || u == 0x85 || u == 0xa0 || u == 0x1680 || (0x2000 <= u && u
        <= 0x200a) || u == 0x2028 || u == 0x2029 || u == 0x202f || u == 0x205f || u == 0x3000
}

/// `s` without its leading and trailing white space, as `str::trim` gives.
pub fn trim(s: &str) -> (r: String)
    ensures
        r@ == trimmed(s@),
{
    let n = s.unicode_len();
    let mut a: usize = 0;
    assert(s@.subrange(0, n as int) =~= s@);
    while a < n && white_space(s.get_char(a))
        invariant
            n == s@.len(),
            0 <= a <= n,
            trim_start(s@) == trim_start(s@.subrange(a as int, n as int)),
        decreases n - a,
    {
        assert(s@.subrange(a as int, n as int).drop_first() =~= s@.subrange(a + 1, n as int));
        a = a + 1;
    }
    let ghost rest = s@.subrange(a as int, n as int);
    assert(trim_start(rest) == rest);
    let mut b: usize = n;
    while b > a && white_space(s.get_char(b - 1))
        invariant
            n == s@.len(),
            0 <= a <= b <= n,
            trim_end(rest) == trim_end(s@.subrange(a as int, b as int)),
            rest == s@.subrange(a as int, n as int),
        decreases b - a,
    {
        assert(s@.subrange(a as int, b as int).drop_last() =~= s@.subrange(a as int, b - 1));
        b = b - 1;
    }
    let part = s.substring_char(a, b);
    assert(trim_end(part@) == part@);
    String::from_str(part)
}

pub open spec fn spaces(n: nat) -> Seq<char> {
    Seq::new(n, |i: int| ' ')
}

/// `text` centred in `width` characters; the odd space goes right.
pub open spec fn centered(text: Seq<char>, width: nat) -> Seq<char> {
    if text.len() >= width {
        text
    } else {
        let pad = (width - text.len()) as nat;
        spaces(pad / 2) + text + spaces((pad - pad / 2) as nat)
    }
}

/// The label of section `n`: `─── § n ───`.
pub open spec fn divider_text(n: nat) -> Seq<char> {
    seq!['─', '─', '─', ' ', '§', ' '] + decimal(n) + seq![' ', '─', '─', '─']
}

/// A step number right-aligned to two columns, then `. `.
pub open spec fn number_prefix(n: nat) -> Seq<char> {
    (if decimal(n).len() < 2 { seq![' '] } else { seq![] }) + decimal(n) + seq!['.', ' ']
}

/// The lines of one content item of `section`: a step is its numbered,
/// trimmed narrative wrapped under a four-space indent, then its legend
/// wrapped under five spaces, words ending after each `, `; a text is a
/// blank line, the trimmed text wrapped with a two-space first indent, and a
/// blank line.
pub open spec fn content_lines(recipe: &Recipe, section: &Section, styles: CookStyles, width: usize, c: Content) -> Seq<Seq<char>> {
    match c {
        Content::Step(st) => wrapped_output(
            number_prefix(st.number as nat) + trimmed(narrative(recipe, styles, st.items@, st.items@)),
            width,
            seq![],
            spaces(4),
            false,
        ) + wrapped_output(legend_text(recipe, section, styles, st.items@), width, spaces(5), spaces(5), true),
        Content::Text(t) => seq![seq![]] + wrapped_output(trimmed(t@), width, spaces(2), seq![], false)
            + seq![seq![]],
    }
}

pub open spec fn contents_lines(recipe: &Recipe, section: &Section, styles: CookStyles, width: usize, cs: Seq<Content>) -> Seq<Seq<char>>
    decreases cs.len(),
{
    if cs.len() == 0 {
        seq![]
    } else {
        contents_lines(recipe, section, styles, width, cs.drop_last()) + content_lines(recipe, section, styles, width, cs.last())
    }
}

/// The lines of section `idx` (counted from zero): the divider where the
/// recipe has several sections, the name where it has one, and its content.
pub open spec fn section_lines(recipe: &Recipe, styles: CookStyles, width: usize, idx: nat, section: Section, multi: bool) -> Seq<Seq<char>> {
    (if multi { seq![centered(divider_text(idx + 1), width as nat)] } else { seq![] })
        + (match section.name {
            Some(n) => seq![painted(n@, styles.section_name) + seq![':']],
            None => seq![],
        })
        + contents_lines(recipe, &section, styles, width, section.content@)
}

pub open spec fn sections_lines(recipe: &Recipe, styles: CookStyles, width: usize, ss: Seq<Section>, multi: bool) -> Seq<Seq<char>>
    decreases ss.len(),
{
    if ss.len() == 0 {
        seq![]
    } else {
        sections_lines(recipe, styles, width, ss.drop_last(), multi)
            + section_lines(recipe, styles, width, (ss.len() - 1) as nat, ss.last(), multi)
    }
}

/// The lines of the steps part: `Steps:`, then every section.
pub open spec fn steps_output(recipe: &Recipe, styles: CookStyles, width: usize) -> Seq<Seq<char>> {
    seq!["Steps:"@] + sections_lines(recipe, styles, width, recipe.sections@, recipe.sections@.len() > 1)
}

fn push_spaces(s: &mut String, n: usize)
    ensures
        final(s)@ == old(s)@ + spaces(n as nat),
{
    let mut k: usize = 0;
    while k < n
        invariant
            0 <= k <= n,
            s@ == old(s)@ + spaces(k as nat),
        decreases n - k,
    {
        push_char(s, ' ');
        assert(s@ =~= old(s)@ + spaces((k + 1) as nat));
        k = k + 1;
    }
}

fn spaces_text(n: usize) -> (r: String)
    ensures
        r@ == spaces(n as nat),
{
    let mut s = String::new();
    push_spaces(&mut s, n);
    assert(s@ =~= spaces(n as nat));
    s
}

/// The divider of section `n`, centred in `width` characters.
pub fn section_divider(n: usize, width: usize) -> (r: String)
    ensures
        r@ == centered(divider_text(n as nat), width as nat),
{
    let mut label = String::from_str("─── § ");
    write_decimal(&mut label, n);
    label.append(" ───");
    proof {
        reveal_strlit("─── § ");
        reveal_strlit(" ───");
        assert(label@ =~= divider_text(n as nat));
    }
    let len = label.as_str().unicode_len();
    if len >= width {
        return label;
    }
    let pad = width - len;
    let mut r = spaces_text(pad / 2);
    r.append(label.as_str());
    push_spaces(&mut r, pad - pad / 2);
    r
}

/// `n` right-aligned to two columns, then `. `.
fn write_number_prefix(s: &mut String, n: usize)
    ensures
        final(s)@ == old(s)@ + number_prefix(n as nat),
{
    let digits = decimal_text(n);
    if digits.as_str().unicode_len() < 2 {
        push_char(s, ' ');
    }
    s.append(digits.as_str());
    push_char(s, '.');
    push_char(s, ' ');
    assert(final(s)@ =~= old(s)@ + number_prefix(n as nat));
}

/// Appends the lines of one content item (see `content_lines`).
fn write_content(out: &mut Vec<String>, recipe: &Recipe, section: &Section, c: &Content, styles: &CookStyles, width: usize)
    requires
        match c {
            Content::Step(st) => recipe.step_ok(section, &st),
            Content::Text(_) => true,
        },
    ensures
        lines_of(final(out)@) == lines_of(old(out)@) + content_lines(recipe, section, *styles, width, *c),
{
    match c {
        Content::Step(st) => {
            let (text, legend) = step_text(recipe, section, st, styles);
            let mut line = String::new();
            write_number_prefix(&mut line, st.number);
            line.append(trim(text.as_str()).as_str());
            let four = spaces_text(4);
            let five = spaces_text(5);
            proof { reveal_strlit(""); }
            print_wrapped_with_options(out, line.as_str(), width, "", four.as_str(), false);
            print_wrapped_with_options(out, legend.as_str(), width, five.as_str(), five.as_str(), true);
            assert(""@ =~= Seq::<char>::empty());
            assert(line@ =~= number_prefix(st.number as nat) + trimmed(narrative(recipe, *styles, st.items@, st.items@)));
        },
        Content::Text(t) => {
            let ghost o0 = lines_of(out@);
            out.push(String::new());
            assert(lines_of(out@) =~= o0 + seq![seq![]]);
            let tt = trim(t.as_str());
            let two = spaces_text(2);
            proof { reveal_strlit(""); }
            print_wrapped_with_options(out, tt.as_str(), width, two.as_str(), "", false);
            let ghost o1 = lines_of(out@);
            out.push(String::new());
            assert(lines_of(out@) =~= o1 + seq![seq![]]);
            assert(""@ =~= Seq::<char>::empty());
        },
    }
    assert(lines_of(final(out)@) =~= lines_of(old(out)@) + content_lines(recipe, section, *styles, width, *c));
}

/// Appends the steps part (see `steps_output`).
pub fn steps(out: &mut Vec<String>, recipe: &Recipe, styles: &CookStyles, width: usize)
    requires
        recipe.wf(),
    ensures
        lines_of(final(out)@) == lines_of(old(out)@) + steps_output(recipe, *styles, width),
{
    let ghost o0 = lines_of(out@);
    out.push(String::from_str("Steps:"));
    assert(lines_of(out@) =~= o0 + seq!["Steps:"@]);
    let ss = &recipe.sections;
    let multi = ss.len() > 1;
    let mut s: usize = 0;
    while s < ss.len()
        invariant
            *ss == recipe.sections,
            recipe.wf(),
            multi == (ss@.len() > 1),
            0 <= s <= ss@.len(),
            lines_of(out@) == o0 + seq!["Steps:"@] + sections_lines(recipe, *styles, width, ss@.take(s as int), multi),
        decreases ss@.len() - s,
    {
        let section = &ss[s];
        assert(ss@.take(s + 1).drop_last() =~= ss@.take(s as int));
        assert(ss@.take(s + 1).last() == *section);
        let ghost before = lines_of(out@);
        if multi {
            let d = section_divider(s + 1, width);
            out.push(d);
            assert(lines_of(out@) =~= before + seq![centered(divider_text(s as nat + 1), width as nat)]);
        } else {
            assert(lines_of(out@) =~= before + seq![]);
        }
        let ghost mid = lines_of(out@);
        match &section.name {
            Some(n) => {
                let mut l = paint(n.as_str(), styles.section_name);
                push_char(&mut l, ':');
                assert(l@ =~= painted(n@, styles.section_name) + seq![':']);
                let ghost pre = out@;
                out.push(l);
                assert(out@ == pre.push(l));
                assert(lines_of(out@) =~= mid + seq![painted(n@, styles.section_name) + seq![':']]);
            },
            None => {
                assert(lines_of(out@) =~= mid + seq![]);
            },
        }
        let ghost head = lines_of(out@);
        assert(head =~= before + (if multi { seq![centered(divider_text(s as nat + 1), width as nat)] } else { seq![] })
            + (match section.name {
                Some(n) => seq![painted(n@, styles.section_name) + seq![':']],
                None => seq![],
            }));
        let cs = &section.content;
        let mut c: usize = 0;
        while c < cs.len()
            invariant
                *section == ss@[s as int],
                *ss == recipe.sections,
                s < ss@.len(),
                *cs == section.content,
                recipe.wf(),
                0 <= c <= cs@.len(),
                lines_of(out@) == head + contents_lines(recipe, section, *styles, width, cs@.take(c as int)),
            decreases cs@.len() - c,
        {
            assert(cs@.take(c + 1).drop_last() =~= cs@.take(c as int));
            assert(cs@.take(c + 1).last() == cs@[c as int]);
            let ghost sidx = s as int;
            let ghost cidx = c as int;
            assert(match recipe.sections@[sidx].content@[cidx] {
                Content::Step(st) => recipe.step_ok(&recipe.sections@[sidx], &st),
                Content::Text(_) => true,
            });
            write_content(out, recipe, section, &cs[c], styles, width);
            c = c + 1;
        }
        assert(cs@.take(cs@.len() as int) =~= cs@);
        s = s + 1;
    }
    assert(ss@.take(ss@.len() as int) =~= ss@);
}

/// With one section no divider is written; with several, each section's
/// lines start with its divider, centred and counted from one.
pub proof fn lemma_section_dividers(recipe: &Recipe, styles: CookStyles, width: usize, idx: nat, section: Section)
    ensures
        section_lines(recipe, styles, width, idx, section, false) == (match section.name {
            Some(n) => seq![painted(n@, styles.section_name) + seq![':']],
            None => seq![],
        }) + contents_lines(recipe, &section, styles, width, section.content@),
        section_lines(recipe, styles, width, idx, section, true)[0] == centered(divider_text(idx + 1), width as nat),
{
    assert(seq![] + (match section.name {
            Some(n) => seq![painted(n@, styles.section_name) + seq![':']],
            None => seq![],
        }) =~= (match section.name {
            Some(n) => seq![painted(n@, styles.section_name) + seq![':']],
            None => seq![],
        }));
}

} // verus!
