//! The title line and the tag line.

use vstd::prelude::*;
use vstd::string::StringExecFns;
use vstd::arithmetic::div_mod::lemma_add_mod_noop;
use crate::style::{colored, Color, paint, painted, plain_style, CookStyles, TextStyle};
use crate::text::push_char;
use crate::model::Metadata;
use crate::wrap::{lines_of, print_wrapped, wrapped_output};

verus! {

/// The sum of each character's code times its position.
pub open spec fn tag_sum(s: Seq<char>) -> nat
    decreases s.len(),
{
    if s.len() == 0 {
        0
    } else {
        tag_sum(s.drop_last()) + (s.last() as nat) * ((s.len() - 1) as nat)
    }
}

/// Which of the seven tag classes `tag` falls in: the sum, taken modulo
/// 2^64 as it would wrap round, then modulo 7.
pub open spec fn tag_class(tag: Seq<char>) -> nat {
    (tag_sum(tag) % 0x1_0000_0000_0000_0000) % 7
}

/// The colour of each class: red, blue, cyan, yellow, green, magenta, white.
pub open spec fn class_color(class: nat) -> Color {
    if class == 0 { Color::Red }
    else if class == 1 { Color::Blue }
    else if class == 2 { Color::Cyan }
    else if class == 3 { Color::Yellow }
    else if class == 4 { Color::Green }
    else if class == 5 { Color::Magenta }
    else { Color::White }
}

/// The colour of a tag (see `tag_class` and `class_color`).
pub fn tag_color(tag: &str) -> (r: Color)
    ensures
        r == class_color(tag_class(tag@)),
{
    let n = tag.unicode_len();
    let mut h: u64 = 0;
    let mut i: usize = 0;
    while i < n
        invariant
            n == tag@.len(),
            0 <= i <= n,
            h as nat == tag_sum(tag@.take(i as int)) % 0x1_0000_0000_0000_0000,
        decreases n - i,
    {
        let c = tag.get_char(i);
        let p = (c as u64).wrapping_mul(i as u64);
        let ghost old_h = h;
        h = h.wrapping_add(p);
        proof {
            assert(tag@.take(i + 1).drop_last() == tag@.take(i as int));
            assert(tag@.take(i + 1).last() == c);
            let m: int = 0x1_0000_0000_0000_0000;
            let prev: int = tag_sum(tag@.take(i as int)) as int;
            let term: int = (c as int) * (i as int);
            assert(p as int == term % m);
            assert(h as int == (old_h as int + p as int) % m);
            lemma_add_mod_noop(prev, term, m);
            assert((prev % m) % m == prev % m) by {
                vstd::arithmetic::div_mod::lemma_mod_twice(prev, m);
            }
            assert((term % m) % m == term % m) by {
                vstd::arithmetic::div_mod::lemma_mod_twice(term, m);
            }
            lemma_add_mod_noop(prev % m, term % m, m);
        }
        i = i + 1;
    }
    assert(tag@.take(n as int) == tag@);
    let class = h % 7;
    if class == 0 { Color::Red }
    else if class == 1 { Color::Blue }
    else if class == 2 { Color::Cyan }
    else if class == 3 { Color::Yellow }
    else if class == 4 { Color::Green }
    else if class == 5 { Color::Magenta }
    else { Color::White }
}

/// The same tag always gets the same colour, one of seven.
pub proof fn lemma_tag_color_deterministic(a: Seq<char>, b: Seq<char>)
    requires
        a == b,
    ensures
        class_color(tag_class(a)) == class_color(tag_class(b)),
        tag_class(a) < 7,
{
}

/// The tags, each as `#tag` in its colour and followed by a space.
pub open spec fn tags_text(tags: Seq<String>) -> Seq<char>
    decreases tags.len(),
{
    if tags.len() == 0 {
        seq![]
    } else {
        tags_text(tags.drop_last()) + painted(
            seq!['#'] + tags.last()@,
            TextStyle { color: Some(class_color(tag_class(tags.last()@))), ..plain_style() },
        ) + seq![' ']
    }
}

/// The title: the emoji and a space if there is one, then the name, with a
/// space on either side, in the title style.
pub open spec fn title_text(emoji: Option<String>, name: Seq<char>, styles: CookStyles) -> Seq<char> {
    painted(
        seq![' '] + (match emoji { Some(e) => e@ + seq![' '], None => seq![] }) + name + seq![' '],
        styles.title,
    )
}

/// The header: the title line, the wrapped tag line where the recipe has
/// tags, and a blank line.
pub open spec fn header_output(m: Metadata, name: Seq<char>, styles: CookStyles, width: usize) -> Seq<Seq<char>> {
    seq![title_text(m.emoji, name, styles)] + (match m.tags {
        Some(t) => wrapped_output(tags_text(t@), width, seq![], seq![], false),
        None => seq![],
    }) + seq![seq![]]
}

/// Appends the header (see `header_output`).
pub fn header(out: &mut Vec<String>, m: &Metadata, name: &str, styles: &CookStyles, width: usize)
    ensures
        lines_of(final(out)@) == lines_of(old(out)@) + header_output(*m, name@, *styles, width),
{
    let mut title = String::new();
    push_char(&mut title, ' ');
    if let Some(e) = &m.emoji {
        title.append(e.as_str());
        push_char(&mut title, ' ');
    }
    title.append(name);
    push_char(&mut title, ' ');
    assert(title@ =~= seq![' '] + (match m.emoji { Some(e) => e@ + seq![' '], None => seq![] }) + name@ + seq![' ']);
    let ghost o0 = lines_of(out@);
    out.push(paint(title.as_str(), styles.title));
    assert(lines_of(out@) =~= o0 + seq![title_text(m.emoji, name@, *styles)]);
    let ghost o1 = lines_of(out@);
    if let Some(tags) = &m.tags {
        let mut text = String::new();
        let mut k: usize = 0;
        while k < tags.len()
            invariant
                0 <= k <= tags@.len(),
                text@ == tags_text(tags@.take(k as int)),
            decreases tags@.len() - k,
        {
            let tag = &tags[k];
            let mut t = String::new();
            push_char(&mut t, '#');
            t.append(tag.as_str());
            text.append(paint(t.as_str(), colored(tag_color(tag.as_str()))).as_str());
            push_char(&mut text, ' ');
            assert(tags@.take(k + 1).drop_last() =~= tags@.take(k as int));
            assert(t@ =~= seq!['#'] + tags@[k as int]@);
            assert(text@ =~= tags_text(tags@.take(k + 1)));
            k = k + 1;
        }
        assert(tags@.take(tags@.len() as int) =~= tags@);
        print_wrapped(out, text.as_str(), width);
    }
    let ghost o2 = lines_of(out@);
    out.push(String::new());
    assert(lines_of(out@) =~= o2 + seq![seq![]]);
    assert(o2 =~= o1 + (match m.tags {
        Some(t) => wrapped_output(tags_text(t@), width, seq![], seq![], false),
        None => seq![],
    }));
    assert(lines_of(final(out)@) =~= lines_of(old(out)@) + header_output(*m, name@, *styles, width));
}

} // verus!
