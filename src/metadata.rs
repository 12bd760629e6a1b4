//! The description and the key/value lines about the recipe.

use vstd::prelude::*;
use vstd::string::StringExecFns;
use crate::model::{Metadata, NameAndUrl, RecipeTime, Servings};
use crate::style::{colored, Color, paint, painted, plain_style, CookStyles, TextStyle};
use crate::text::push_char;
use crate::wrap::{lines_of, print_wrapped_with_options, wrapped_output};

verus! {

/// How long `minutes` minutes read, such as `1h 30m`.
pub uninterp spec fn duration_text(minutes: u64) -> Seq<char>;

/// Relies on `humantime::format_duration` and its `Display`: the duration
/// written in units from years down to nanoseconds; the text depends on
/// the number alone.
#[verifier::external_body]
fn format_minutes(minutes: u64) -> (r: String)
    requires
        minutes <= u64::MAX / 60,
    ensures
        r@ == duration_text(minutes),
{
    humantime::format_duration(std::time::Duration::from_secs(minutes * 60)).to_string()
}

/// A meta line: the key in its style, `: `, the value.
pub open spec fn meta_line(key: Seq<char>, value: Seq<char>, styles: CookStyles) -> Seq<char> {
    painted(key, styles.meta_key) + seq![':', ' '] + value
}

fn write_meta(out: &mut Vec<String>, key: &str, value: &str, styles: &CookStyles)
    ensures
        lines_of(final(out)@) == lines_of(old(out)@).push(meta_line(key@, value@, *styles)),
{
    let mut l = paint(key, styles.meta_key);
    push_char(&mut l, ':');
    push_char(&mut l, ' ');
    l.append(value);
    assert(l@ =~= meta_line(key@, value@, *styles));
    let ghost pre = out@;
    out.push(l);
    assert(out@ == pre.push(l));
    assert(lines_of(out@) =~= lines_of(pre).push(l@));
}

/// The name of a person or place, else its link, else `-`.
pub open spec fn name_or_url(n: NameAndUrl) -> Seq<char> {
    match (n.name, n.url) {
        (Some(a), _) => a@,
        (None, Some(u)) => u@,
        (None, None) => seq!['-'],
    }
}

fn name_or_url_text(n: &NameAndUrl) -> (r: String)
    ensures
        r@ == name_or_url(*n),
{
    match (&n.name, &n.url) {
        (Some(a), _) => a.clone(),
        (None, Some(u)) => u.clone(),
        (None, None) => {
            let mut s = String::new();
            push_char(&mut s, '-');
            assert(s@ =~= seq!['-']);
            s
        },
    }
}

/// The time lines: one `time` line for a total; for a composed time,
/// `prep time` and `cook time` where known, then `total time`.
pub open spec fn time_lines(t: RecipeTime, styles: CookStyles) -> Seq<Seq<char>> {
    match t {
        RecipeTime::Total(m) => seq![meta_line("time"@, duration_text(m as u64), styles)],
        RecipeTime::Composed { prep_time, cook_time } =>
            (match prep_time { Some(p) => seq![meta_line("prep time"@, duration_text(p as u64), styles)], None => seq![] })
            + (match cook_time { Some(c) => seq![meta_line("cook time"@, duration_text(c as u64), styles)], None => seq![] })
            + seq![meta_line("total time"@, duration_text(
                ((match prep_time { Some(p) => p as nat, None => 0 }) + (match cook_time { Some(c) => c as nat, None => 0 })) as u64,
            ), styles)],
    }
}

fn write_time(out: &mut Vec<String>, t: &RecipeTime, styles: &CookStyles)
    ensures
        lines_of(final(out)@) == lines_of(old(out)@) + time_lines(*t, *styles),
{
    match t {
        RecipeTime::Total(m) => {
            write_meta(out, "time", format_minutes(*m as u64).as_str(), styles);
        },
        RecipeTime::Composed { prep_time, cook_time } => {
            let mut total: u64 = 0;
            let ghost o0 = lines_of(out@);
            if let Some(p) = prep_time {
                write_meta(out, "prep time", format_minutes(*p as u64).as_str(), styles);
                total = *p as u64;
            }
            let ghost o1 = lines_of(out@);
            if let Some(c) = cook_time {
                write_meta(out, "cook time", format_minutes(*c as u64).as_str(), styles);
                total = total + *c as u64;
            }
            let ghost o2 = lines_of(out@);
            write_meta(out, "total time", format_minutes(total).as_str(), styles);
            assert(o1 =~= o0 + (match *prep_time { Some(p) => seq![meta_line("prep time"@, duration_text(p as u64), *styles)], None => seq![] }));
            assert(o2 =~= o1 + (match *cook_time { Some(c) => seq![meta_line("cook time"@, duration_text(c as u64), *styles)], None => seq![] }));
        },
    }
    assert(lines_of(final(out)@) =~= lines_of(old(out)@) + time_lines(*t, *styles));
}

/// One serving value: bracketed and highlighted where it is the selected
/// one.
pub open spec fn serving_text(sv: Servings, i: int, styles: CookStyles) -> Seq<char> {
    if sv.selected == Some(i as usize) {
        painted(seq!['['] + sv.values@[i]@ + seq![']'], styles.selected_servings)
    } else {
        sv.values@[i]@
    }
}

/// The serving values of the first `n`, separated by `|`.
pub open spec fn servings_joined(sv: Servings, n: int, styles: CookStyles) -> Seq<char>
    decreases n,
{
    if n <= 0 {
        seq![]
    } else if n == 1 {
        serving_text(sv, 0, styles)
    } else {
        servings_joined(sv, n - 1, styles) + seq!['|'] + serving_text(sv, n - 1, styles)
    }
}

/// The servings value: the values joined; where the target could not be
/// met, that text struck through and dimmed, then a red arrow and the
/// target in red.
pub open spec fn servings_value(sv: Servings, styles: CookStyles) -> Seq<char> {
    let text = servings_joined(sv, sv.values@.len() as int, styles);
    match sv.unmet_target {
        Some(t) => painted(text, TextStyle { dim: true, strike: true, ..plain_style() }) + seq![' ']
            + painted(seq!['\u{2192}'], TextStyle { color: Some(Color::Red), ..plain_style() }) + seq![' ']
            + painted(t@, TextStyle { color: Some(Color::Red), ..plain_style() }),
        None => text,
    }
}

fn servings_text(sv: &Servings, styles: &CookStyles) -> (r: String)
    ensures
        r@ == servings_value(*sv, *styles),
{
    let mut text = String::new();
    let mut i: usize = 0;
    while i < sv.values.len()
        invariant
            0 <= i <= sv.values@.len(),
            text@ == servings_joined(*sv, i as int, *styles),
        decreases sv.values@.len() - i,
    {
        if i > 0 {
            push_char(&mut text, '|');
        }
        let is_sel = match sv.selected {
            Some(k) => k == i,
            None => false,
        };
        if is_sel {
            let mut b = String::new();
            push_char(&mut b, '[');
            b.append(sv.values[i].as_str());
            push_char(&mut b, ']');
            assert(b@ =~= seq!['['] + sv.values@[i as int]@ + seq![']']);
            text.append(paint(b.as_str(), styles.selected_servings).as_str());
        } else {
            text.append(sv.values[i].as_str());
        }
        assert(text@ =~= servings_joined(*sv, i + 1, *styles));
        i = i + 1;
    }
    match &sv.unmet_target {
        Some(t) => {
            let st = TextStyle { color: None, bold: false, italic: false, dim: true, strike: true };
            let mut r = paint(text.as_str(), st);
            push_char(&mut r, ' ');
            r.append(paint("\u{2192}", colored(Color::Red)).as_str());
            push_char(&mut r, ' ');
            r.append(paint(t.as_str(), colored(Color::Red)).as_str());
            proof {
                reveal_strlit("\u{2192}");
                assert("\u{2192}"@ == seq!['\u{2192}']);
                assert(r@ =~= servings_value(*sv, *styles));
            }
            r
        },
        None => text,
    }
}

/// The lines of the extra entries, in order.
pub open spec fn extra_lines(extra: Seq<(String, String)>, styles: CookStyles) -> Seq<Seq<char>> {
    extra.map_values(|e: (String, String)| meta_line(e.0@, e.1@, styles))
}

pub open spec fn description_lines(m: Metadata, width: usize) -> Seq<Seq<char>> {
    match m.description {
        Some(d) => wrapped_output(d@, width, seq!['\u{2502}', ' '], seq!['\u{2502}'], false) + seq![seq![]],
        None => seq![],
    }
}

pub open spec fn people_lines(m: Metadata, styles: CookStyles) -> Seq<Seq<char>> {
    (match m.author {
        Some(a) => seq![meta_line("author"@, name_or_url(a), styles)],
        None => seq![],
    }) + (match m.source {
        Some(s) => seq![meta_line("source"@, name_or_url(s), styles)],
        None => seq![],
    })
}

pub open spec fn amount_lines(m: Metadata, styles: CookStyles) -> Seq<Seq<char>> {
    (match m.time {
        Some(t) => time_lines(t, styles),
        None => seq![],
    }) + (match m.servings {
        Some(sv) => seq![meta_line("servings"@, servings_value(sv, styles), styles)],
        None => seq![],
    })
}

/// The metadata block: the description wrapped behind a bar and a blank
/// line, then author, source, times, servings and the other entries, and a
/// blank line where the recipe has any entry.
pub open spec fn metadata_output(m: Metadata, styles: CookStyles, width: usize) -> Seq<Seq<char>> {
    description_lines(m, width) + people_lines(m, styles) + amount_lines(m, styles)
        + extra_lines(m.extra@, styles) + (if m.is_empty { seq![] } else { seq![seq![]] })
}

fn write_description(out: &mut Vec<String>, m: &Metadata, width: usize)
    ensures
        lines_of(final(out)@) == lines_of(old(out)@) + description_lines(*m, width),
{
    if let Some(d) = &m.description {
        print_wrapped_with_options(out, d.as_str(), width, "\u{2502} ", "\u{2502}", false);
        let ghost o1 = lines_of(out@);
        out.push(String::new());
        proof {
            reveal_strlit("\u{2502} ");
            reveal_strlit("\u{2502}");
            assert("\u{2502} "@ == seq!['\u{2502}', ' ']);
            assert("\u{2502}"@ == seq!['\u{2502}']);
            assert(lines_of(out@) =~= o1 + seq![seq![]]);
        }
    }
    assert(lines_of(final(out)@) =~= lines_of(old(out)@) + description_lines(*m, width));
}

fn write_people(out: &mut Vec<String>, m: &Metadata, styles: &CookStyles)
    ensures
        lines_of(final(out)@) == lines_of(old(out)@) + people_lines(*m, *styles),
{
    if let Some(a) = &m.author {
        write_meta(out, "author", name_or_url_text(a).as_str(), styles);
    }
    let ghost o2 = lines_of(out@);
    if let Some(s) = &m.source {
        write_meta(out, "source", name_or_url_text(s).as_str(), styles);
    }
    assert(o2 =~= lines_of(old(out)@) + (match m.author { Some(a) => seq![meta_line("author"@, name_or_url(a), *styles)], None => seq![] }));
    assert(lines_of(final(out)@) =~= lines_of(old(out)@) + people_lines(*m, *styles));
}

fn write_amounts(out: &mut Vec<String>, m: &Metadata, styles: &CookStyles)
    ensures
        lines_of(final(out)@) == lines_of(old(out)@) + amount_lines(*m, *styles),
{
    if let Some(t) = &m.time {
        write_time(out, t, styles);
    }
    let ghost o4 = lines_of(out@);
    if let Some(sv) = &m.servings {
        write_meta(out, "servings", servings_text(sv, styles).as_str(), styles);
    }
    assert(o4 =~= lines_of(old(out)@) + (match m.time { Some(t) => time_lines(t, *styles), None => seq![] }));
    assert(lines_of(final(out)@) =~= lines_of(old(out)@) + amount_lines(*m, *styles));
}

/// Appends the metadata block (see `metadata_output`).
pub fn metadata(out: &mut Vec<String>, m: &Metadata, styles: &CookStyles, width: usize)
    ensures
        lines_of(final(out)@) == lines_of(old(out)@) + metadata_output(*m, *styles, width),
{
    write_description(out, m, width);
    write_people(out, m, styles);
    write_amounts(out, m, styles);
    let ghost o5 = lines_of(out@);
    let mut k: usize = 0;
    while k < m.extra.len()
        invariant
            0 <= k <= m.extra@.len(),
            lines_of(out@) == o5 + extra_lines(m.extra@, *styles).take(k as int),
        decreases m.extra@.len() - k,
    {
        let (key, value) = &m.extra[k];
        write_meta(out, key.as_str(), value.as_str(), styles);
        assert(extra_lines(m.extra@, *styles).take(k + 1) =~= extra_lines(m.extra@, *styles).take(k as int).push(
            meta_line(m.extra@[k as int].0@, m.extra@[k as int].1@, *styles)));
        k = k + 1;
    }
    assert(extra_lines(m.extra@, *styles).take(m.extra@.len() as int) =~= extra_lines(m.extra@, *styles));
    let ghost o6 = lines_of(out@);
    if !m.is_empty {
        out.push(String::new());
        assert(lines_of(out@) =~= o6 + seq![seq![]]);
    }
    assert(lines_of(final(out)@) =~= lines_of(old(out)@) + metadata_output(*m, *styles, width));
}

} // verus!
