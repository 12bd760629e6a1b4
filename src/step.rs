//! One step: its narrative line, and the legend of the ingredients it uses.

use vstd::prelude::*;
use vstd::string::StringExecFns;
use crate::dedup::{first_index, build_step_igrs_dedup, find_group, count_of, count_text, group_names, groups_of, kept_of, occurrences, write_igr_count, IngredientGroup};
use crate::model::{Content, Ingredient, Item, Quantity, Recipe, RefTarget, Section, Step, Timer};
use crate::style::{painted, paint, plain_style, italic, CookStyles, TextStyle};
use crate::text::{decimal, push_char, write_decimal};

verus! {

pub open spec fn italic_style() -> TextStyle {
    TextStyle { italic: true, ..plain_style() }
}

/// A quantity: its value, then a space and the unit in italics if it has one.
pub open spec fn quantity_text(q: Quantity) -> Seq<char> {
    match q.unit {
        Some(u) => q.value@ + seq![' '] + painted(u@, italic_style()),
        None => q.value@,
    }
}

/// Formats a quantity (see `quantity_text`).
pub fn quantity_fmt(qty: &Quantity) -> (r: String)
    ensures
        r@ == quantity_text(*qty),
{
    let mut s = qty.value.clone();
    match &qty.unit {
        Some(u) => {
            push_char(&mut s, ' ');
            let p = paint(u.as_str(), italic());
            s.append(p.as_str());
        },
        None => {},
    }
    s
}

/// A timer: `quantity (name)`, the quantity alone, or the name alone, each
/// part in the timer style.
pub open spec fn timer_text(t: Timer, styles: CookStyles) -> Seq<char> {
    match (t.quantity, t.name) {
        (Some(q), Some(n)) => painted(quantity_text(q), styles.timer) + seq![' ', '(']
            + painted(n@, styles.timer) + seq![')'],
        (Some(q), None) => painted(quantity_text(q), styles.timer),
        (None, Some(n)) => painted(n@, styles.timer),
        (None, None) => seq![],
    }
}

/// Writes a timer (see `timer_text`).
pub fn write_timer(buffer: &mut String, timer: &Timer, styles: &CookStyles)
    requires
        timer.wf(),
    ensures
        final(buffer)@ == old(buffer)@ + timer_text(*timer, *styles),
{
    match (&timer.quantity, &timer.name) {
        (Some(q), Some(n)) => {
            let qt = quantity_fmt(q);
            buffer.append(paint(qt.as_str(), styles.timer).as_str());
            push_char(buffer, ' ');
            push_char(buffer, '(');
            buffer.append(paint(n.as_str(), styles.timer).as_str());
            push_char(buffer, ')');
            assert(final(buffer)@ =~= old(buffer)@ + timer_text(*timer, *styles));
        },
        (Some(q), None) => {
            let qt = quantity_fmt(q);
            buffer.append(paint(qt.as_str(), styles.timer).as_str());
        },
        (None, Some(n)) => {
            buffer.append(paint(n.as_str(), styles.timer).as_str());
        },
        (None, None) => {},
    }
}

/// The name of ingredient `i`, for `i` within the recipe's ingredients.
pub open spec fn igr_name(recipe: &Recipe, i: usize) -> Seq<char> {
    recipe.ingredients@[i as int].name@
}

/// The inline text of one item of a step whose items are `items`.
pub open spec fn item_text(recipe: &Recipe, styles: CookStyles, items: Seq<Item>, item: Item) -> Seq<char> {
    match item {
        Item::Text(v) => v@,
        Item::Ingredient(i) => painted(recipe.ingredients@[i as int].display_name@, styles.ingredient)
            + count_text(count_of(occurrences(recipe, items, igr_name(recipe, i)), i)),
        Item::Cookware(i) => painted(recipe.cookware@[i as int].name@, styles.cookware),
        Item::Timer(i) => timer_text(recipe.timers@[i as int], styles),
        Item::InlineQuantity(i) => painted(
            quantity_text(recipe.inline_quantities@[i as int]),
            styles.inline_quantity,
        ),
    }
}

/// The narrative of the items of `prefix`, taken from a step whose items
/// are `items`: each item's text, in order.
pub open spec fn narrative(recipe: &Recipe, styles: CookStyles, items: Seq<Item>, prefix: Seq<Item>) -> Seq<char>
    decreases prefix.len(),
{
    if prefix.len() == 0 {
        seq![]
    } else {
        narrative(recipe, styles, items, prefix.drop_last()) + item_text(recipe, styles, items, prefix.last())
    }
}

/// The occurrences among `prefix` that the legend of a step with items
/// `items` lists: those kept in the group of their name, in order.
pub open spec fn legend_entries(recipe: &Recipe, items: Seq<Item>, prefix: Seq<Item>) -> Seq<usize>
    decreases prefix.len(),
{
    if prefix.len() == 0 {
        seq![]
    } else {
        let prev = legend_entries(recipe, items, prefix.drop_last());
        match prefix.last() {
            Item::Ingredient(i) => if kept_of(recipe, occurrences(recipe, items, igr_name(recipe, i))).contains(i) {
                prev.push(i)
            } else {
                prev
            },
            _ => prev,
        }
    }
}

/// Where an intermediate reference comes from: `section N` (counted from
/// one) or `step N` (the number shown on that step of `section`).
pub open spec fn ref_text(igr: Ingredient, section: &Section) -> Option<Seq<char>> {
    match igr.reference {
        Some((t, RefTarget::Section)) => Some(seq!['s', 'e', 'c', 't', 'i', 'o', 'n', ' '] + decimal(t as nat + 1)),
        Some((t, RefTarget::Step)) => Some(seq!['s', 't', 'e', 'p', ' ']
            + decimal(section.content@[t as int]->Step_0.number as nat)),
        None => None,
    }
}

/// One entry of the legend: display name, subscript, ` (opt)` when
/// optional, ` from ...` for a reference, `: quantity` when it has one.
pub open spec fn entry_text(recipe: &Recipe, section: &Section, styles: CookStyles, items: Seq<Item>, i: usize) -> Seq<char> {
    let igr = recipe.ingredients@[i as int];
    igr.display_name@
        + count_text(count_of(occurrences(recipe, items, igr.name@), i))
        + (if igr.optional { painted(seq![' ', '(', 'o', 'p', 't', ')'], styles.opt_marker) } else { seq![] })
        + (match ref_text(igr, section) {
            Some(t) => painted(seq![' ', 'f', 'r', 'o', 'm', ' '] + t, styles.intermediate_ref),
            None => seq![],
        })
        + (match igr.quantity {
            Some(q) => seq![':', ' '] + painted(quantity_text(q), styles.step_igr_quantity),
            None => seq![],
        })
}

/// The entries for `es`, separated by `, `.
pub open spec fn joined_entries(recipe: &Recipe, section: &Section, styles: CookStyles, items: Seq<Item>, es: Seq<usize>) -> Seq<char>
    decreases es.len(),
{
    if es.len() == 0 {
        seq![]
    } else if es.len() == 1 {
        entry_text(recipe, section, styles, items, es[0])
    } else {
        joined_entries(recipe, section, styles, items, es.drop_last()) + seq![',', ' ']
            + entry_text(recipe, section, styles, items, es.last())
    }
}

/// The legend of a step: `[-]` where it lists nothing, else its entries
/// between brackets.
pub open spec fn legend_text(recipe: &Recipe, section: &Section, styles: CookStyles, items: Seq<Item>) -> Seq<char> {
    let es = legend_entries(recipe, items, items);
    if es.len() == 0 {
        seq!['[', '-', ']']
    } else {
        seq!['['] + joined_entries(recipe, section, styles, items, es) + seq![']']
    }
}

/// The source text of an intermediate reference (see `ref_text`).
pub fn inter_ref_text(recipe: &Recipe, igr: &Ingredient, section: &Section) -> (r: Option<String>)
    requires
        recipe.ingredient_ref_ok(*igr, section),
    ensures
        r matches Some(t) ==> ref_text(*igr, section) == Some(t@),
        r is None ==> ref_text(*igr, section) is None,
{
    match igr.reference {
        Some((t, RefTarget::Section)) => {
            let mut s = String::from_str("section ");
            proof { reveal_strlit("section "); }
            let n_sections = recipe.sections.len();
            assert(t < n_sections);
            write_decimal(&mut s, t + 1);
            Some(s)
        },
        Some((t, RefTarget::Step)) => {
            let mut s = String::from_str("step ");
            proof { reveal_strlit("step "); }
            match &section.content[t] {
                Content::Step(st) => write_decimal(&mut s, st.number),
                Content::Text(_) => {},
            }
            Some(s)
        },
        None => None,
    }
}

/// Appends the legend entry of occurrence `i` (see `entry_text`).
fn write_legend_entry(
    buffer: &mut String,
    recipe: &Recipe,
    section: &Section,
    styles: &CookStyles,
    items: &Vec<Item>,
    groups: &Vec<IngredientGroup>,
    i: usize,
)
    requires
        groups_of(recipe, items@, groups@),
        i < recipe.ingredients@.len(),
        recipe.ingredient_ref_ok(recipe.ingredients@[i as int], section),
        group_names(groups@).contains(igr_name(recipe, i)),
    ensures
        final(buffer)@ == old(buffer)@ + entry_text(recipe, section, *styles, items@, i),
{
    let igr = &recipe.ingredients[i];
    buffer.append(igr.display_name.as_str());
    let ghost b1 = buffer@;
    proof {
        let j = choose|j: int| 0 <= j < group_names(groups@).len() && group_names(groups@)[j] == igr.name@;
        assert(groups@[j].name@ == igr.name@);
    }
    let _ = write_igr_count(buffer, groups, i, &igr.name);
    let ghost b2 = buffer@;
    proof {
        let j = choose|j: int| 0 <= j < group_names(groups@).len() && group_names(groups@)[j] == igr.name@;
        assert(groups@[j].name@ == igr.name@);
        assert(b2 == b1 + count_text(count_of(occurrences(recipe, items@, igr.name@), i)));
    }
    if igr.optional {
        proof {
            reveal_strlit(" (opt)");
            assert(" (opt)"@ == seq![' ', '(', 'o', 'p', 't', ')']);
        }
        buffer.append(paint(" (opt)", styles.opt_marker).as_str());
    }
    let ghost b3 = buffer@;
    assert(b3 == b2 + (if igr.optional { painted(seq![' ', '(', 'o', 'p', 't', ')'], styles.opt_marker) } else { seq![] }));
    match inter_ref_text(recipe, igr, section) {
        Some(t) => {
            let mut f = String::from_str(" from ");
            proof {
                reveal_strlit(" from ");
                assert(" from "@ == seq![' ', 'f', 'r', 'o', 'm', ' ']);
            }
            f.append(t.as_str());
            buffer.append(paint(f.as_str(), styles.intermediate_ref).as_str());
        },
        None => {},
    }
    let ghost b4 = buffer@;
    assert(b4 == b3 + (match ref_text(*igr, section) {
            Some(t) => painted(seq![' ', 'f', 'r', 'o', 'm', ' '] + t, styles.intermediate_ref),
            None => seq![],
        }));
    match &igr.quantity {
        Some(q) => {
            push_char(buffer, ':');
            push_char(buffer, ' ');
            let qt = quantity_fmt(q);
            buffer.append(paint(qt.as_str(), styles.step_igr_quantity).as_str());
        },
        None => {},
    }
    assert(final(buffer)@ =~= old(buffer)@ + entry_text(recipe, section, *styles, items@, i));
}

/// The narrative line of `step` and its ingredient legend.
pub fn step_text(recipe: &Recipe, section: &Section, step: &Step, styles: &CookStyles) -> (r: (String, String))
    requires
        recipe.step_ok(section, step),
    ensures
        r.0@ == narrative(recipe, *styles, step.items@, step.items@),
        r.1@ == legend_text(recipe, section, *styles, step.items@),
{
    let items = &step.items;
    proof {
        assert forall|k: int| 0 <= k < items@.len() implies match #[trigger] items@[k] {
            Item::Ingredient(i) => i < recipe.ingredients@.len(),
            _ => true,
        } by {
            assert(recipe.item_ok(section, items@[k]));
        }
    }
    let groups = build_step_igrs_dedup(step, recipe);
    let mut text = String::new();
    let mut line: Vec<usize> = Vec::new();
    let mut k: usize = 0;
    while k < items.len()
        invariant
            items == step.items,
            recipe.step_ok(section, step),
            groups_of(recipe, items@, groups@),
            0 <= k <= items@.len(),
            text@ == narrative(recipe, *styles, items@, items@.take(k as int)),
            line@ == legend_entries(recipe, items@, items@.take(k as int)),
            forall|m: int| 0 <= m < line@.len() ==> {
                &&& #[trigger] line@[m] < recipe.ingredients@.len()
                &&& recipe.ingredient_ref_ok(recipe.ingredients@[line@[m] as int], section)
                &&& group_names(groups@).contains(igr_name(recipe, line@[m]))
            },
        decreases items@.len() - k,
    {
        assert(items@.take(k + 1).drop_last() == items@.take(k as int));
        assert(items@.take(k + 1).last() == items@[k as int]);
        assert(recipe.item_ok(section, items@[k as int]));
        match &items[k] {
            Item::Text(v) => {
                text.append(v.as_str());
            },
            Item::Ingredient(i) => {
                let i = *i;
                let igr = &recipe.ingredients[i];
                text.append(paint(igr.display_name.as_str(), styles.ingredient).as_str());
                proof {
                    let j = choose|j: int| 0 <= j < group_names(groups@).len() && group_names(groups@)[j] == igr.name@;
                    assert(groups@[j].name@ == igr.name@);
                }
                let _ = write_igr_count(&mut text, &groups, i, &igr.name);
                proof {
                    let j = choose|j: int| 0 <= j < group_names(groups@).len() && group_names(groups@)[j] == igr.name@;
                    assert(groups@[j].name@ == igr.name@);
                }
                let found = find_group(&groups, &igr.name);
                match found {
                    Some(j) => {
                        if contains_index(&groups[j].kept, i) {
                            line.push(i);
                        }
                    },
                    None => {},
                }
            },
            Item::Cookware(i) => {
                text.append(paint(recipe.cookware[*i].name.as_str(), styles.cookware).as_str());
            },
            Item::Timer(i) => {
                write_timer(&mut text, &recipe.timers[*i], styles);
            },
            Item::InlineQuantity(i) => {
                let qt = quantity_fmt(&recipe.inline_quantities[*i]);
                text.append(paint(qt.as_str(), styles.inline_quantity).as_str());
            },
        }
        k = k + 1;
    }
    assert(items@.take(items@.len() as int) == items@);
    if line.len() == 0 {
        let l = String::from_str("[-]");
        proof { reveal_strlit("[-]"); }
        return (text, l);
    }
    let mut legend = String::new();
    push_char(&mut legend, '[');
    let mut m: usize = 0;
    while m < line.len()
        invariant
            groups_of(recipe, items@, groups@),
            line@ == legend_entries(recipe, items@, items@),
            line@.len() > 0,
            0 <= m <= line@.len(),
            legend@ == seq!['['] + joined_entries(recipe, section, *styles, items@, line@.take(m as int)),
            forall|a: int| 0 <= a < line@.len() ==> {
                &&& #[trigger] line@[a] < recipe.ingredients@.len()
                &&& recipe.ingredient_ref_ok(recipe.ingredients@[line@[a] as int], section)
                &&& group_names(groups@).contains(igr_name(recipe, line@[a]))
            },
        decreases line@.len() - m,
    {
        assert(line@.take(m + 1).drop_last() == line@.take(m as int));
        if m > 0 {
            push_char(&mut legend, ',');
            push_char(&mut legend, ' ');
        }
        write_legend_entry(&mut legend, recipe, section, styles, items, &groups, line[m]);
        assert(legend@ =~= seq!['['] + joined_entries(recipe, section, *styles, items@, line@.take(m + 1)));
        m = m + 1;
    }
    assert(line@.take(line@.len() as int) == line@);
    push_char(&mut legend, ']');
    (text, legend)
}

/// Whether `x` is a member of `v`.
fn contains_index(v: &Vec<usize>, x: usize) -> (r: bool)
    ensures
        r == v@.contains(x),
{
    let mut k: usize = 0;
    while k < v.len()
        invariant
            0 <= k <= v@.len(),
            forall|a: int| 0 <= a < k ==> v@[a] != x,
        decreases v@.len() - k,
    {
        if v[k] == x {
            return true;
        }
        k = k + 1;
    }
    false
}

/// An occurrence carries the same subscript in the narrative and in the
/// legend: its place among all occurrences of its name in the step, kept
/// by the legend or not, written only where the name occurs more than once.
pub proof fn lemma_subscripts_stable(recipe: &Recipe, section: &Section, styles: CookStyles, items: Seq<Item>, i: usize)
    requires
        i < recipe.ingredients@.len(),
    ensures
        ({
            let igr = recipe.ingredients@[i as int];
            let all = occurrences(recipe, items, igr.name@);
            let c = count_text(count_of(all, i));
            &&& item_text(recipe, styles, items, Item::Ingredient(i)) == painted(igr.display_name@, styles.ingredient) + c
            &&& entry_text(recipe, section, styles, items, i).subrange(0, (igr.display_name@.len() + c.len()) as int)
                == igr.display_name@ + c
            &&& (all.len() > 1 && all.contains(i) ==> count_of(all, i) == Some((first_index(all, i) + 1) as nat))
            &&& (all.len() <= 1 ==> c.len() == 0)
        }),
{
    let igr = recipe.ingredients@[i as int];
    let all = occurrences(recipe, items, igr.name@);
    let c = count_text(count_of(all, i));
    let e = entry_text(recipe, section, styles, items, i);
    assert(e.subrange(0, (igr.display_name@.len() + c.len()) as int) =~= igr.display_name@ + c);
}

} // verus!
