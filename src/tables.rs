//! The ingredient and cookware lists of the whole recipe, as tables.

use vstd::prelude::*;
use vstd::string::StringExecFns;
use crate::model::{Cookware, GroupedIngredient, Quantity, Recipe, ScaleOutcome};
use crate::step::{quantity_fmt, quantity_text};
use crate::style::{colored, Color, paint, painted, plain, plain_style, CookStyles, TextStyle};
use crate::text::push_char;
use crate::wrap::{lines_of, push_lines};

verus! {

/// The row layout of both tables: four left-aligned columns.
pub open spec fn table_format() -> Seq<char> {
    "  {:<} {:<}    {:<} {:<}"@
}

/// The lines of a table laid out by `format` with the given rows of cells.
pub uninterp spec fn table_lines(format: Seq<char>, rows: Seq<Seq<Seq<char>>>) -> Seq<Seq<char>>;

pub open spec fn cells_of(rows: Seq<Vec<String>>) -> Seq<Seq<Seq<char>>> {
    rows.map_values(|r: Vec<String>| lines_of(r@))
}

/// Relies on tabular's `Table::new`, `Row::add_ansi_cell` (a cell's width
/// leaves out terminal escapes), `Table::add_row` and the table's
/// `Display`, split into its lines. `Table::new` panics on a bad layout and
/// `add_row` on a row of the wrong length: the layout is `table_format`,
/// of four columns.
#[verifier::external_body]
fn render_table(format: &str, rows: &Vec<Vec<String>>) -> (r: Vec<String>)
    requires
        format@ == table_format(),
        forall|k: int| 0 <= k < rows@.len() ==> (#[trigger] rows@[k])@.len() == 4,
    ensures
        lines_of(r@) == table_lines(format@, cells_of(rows@)),
{
    let mut table = tabular::Table::new(format);
    for cells in rows {
        let mut row = tabular::Row::new();
        for c in cells {
            row.add_ansi_cell(c);
        }
        table.add_row(row);
    }
    table.to_string().lines().map(String::from).collect()
}

/// The parts, separated by `, `.
pub open spec fn comma_joined(parts: Seq<Seq<char>>) -> Seq<char>
    decreases parts.len(),
{
    if parts.len() == 0 {
        seq![]
    } else if parts.len() == 1 {
        parts[0]
    } else {
        comma_joined(parts.drop_last()) + seq![',', ' '] + parts.last()
    }
}

/// Joins the parts with `, `.
pub fn comma_join(parts: &Vec<String>) -> (r: String)
    ensures
        r@ == comma_joined(lines_of(parts@)),
{
    let mut s = String::new();
    let mut k: usize = 0;
    while k < parts.len()
        invariant
            0 <= k <= parts@.len(),
            s@ == comma_joined(lines_of(parts@).take(k as int)),
        decreases parts@.len() - k,
    {
        if k > 0 {
            push_char(&mut s, ',');
            push_char(&mut s, ' ');
        }
        s.append(parts[k].as_str());
        assert(lines_of(parts@).take(k + 1).drop_last() =~= lines_of(parts@).take(k as int));
        assert(s@ =~= comma_joined(lines_of(parts@).take(k + 1)));
        k = k + 1;
    }
    assert(lines_of(parts@).take(parts@.len() as int) =~= lines_of(parts@));
    s
}

/// The style of the amounts of an entry: yellow when fixed, red on error.
pub open spec fn outcome_style(o: ScaleOutcome) -> TextStyle {
    match o {
        ScaleOutcome::Fixed => TextStyle { color: Some(Color::Yellow), ..plain_style() },
        ScaleOutcome::Error => TextStyle { color: Some(Color::Red), ..plain_style() },
        _ => plain_style(),
    }
}

/// The warning glyph after the amounts: a triangle when fixed, an octagon
/// on error, none otherwise.
pub open spec fn outcome_glyph(o: ScaleOutcome) -> Seq<char> {
    match o {
        ScaleOutcome::Fixed => seq![' ', '\u{26a0}'],
        ScaleOutcome::Error => seq![' ', '\u{2bc3}'],
        _ => seq![],
    }
}

pub open spec fn optional_cell(optional: bool, styles: CookStyles) -> Seq<char> {
    if optional {
        painted("(optional)"@, styles.opt_marker)
    } else {
        seq![]
    }
}

pub open spec fn note_cell(note: Option<String>) -> Seq<char> {
    match note {
        Some(n) => seq!['('] + n@ + seq![')'],
        None => seq![],
    }
}

pub open spec fn painted_quantities(qs: Seq<Quantity>, st: TextStyle) -> Seq<Seq<char>> {
    qs.map_values(|q: Quantity| painted(quantity_text(q), st))
}

/// The row of one entry: name, optional marker, amounts with the warning
/// glyph, note.
pub open spec fn ingredient_row(recipe: &Recipe, styles: CookStyles, g: GroupedIngredient) -> Seq<Seq<char>> {
    let igr = recipe.ingredients@[g.index as int];
    let st = outcome_style(g.outcome);
    seq![
        igr.display_name@,
        optional_cell(igr.optional, styles),
        comma_joined(painted_quantities(g.quantities@, st)) + painted(outcome_glyph(g.outcome), st),
        note_cell(igr.note),
    ]
}

pub open spec fn is_listed(recipe: &Recipe, g: GroupedIngredient) -> bool {
    recipe.ingredients@[g.index as int].listed
}

/// The rows of the listed entries, in order.
pub open spec fn ingredient_rows(recipe: &Recipe, styles: CookStyles, gs: Seq<GroupedIngredient>) -> Seq<Seq<Seq<char>>>
    decreases gs.len(),
{
    if gs.len() == 0 {
        seq![]
    } else {
        let prev = ingredient_rows(recipe, styles, gs.drop_last());
        if is_listed(recipe, gs.last()) {
            prev.push(ingredient_row(recipe, styles, gs.last()))
        } else {
            prev
        }
    }
}

/// Some listed entry has outcome `o`.
pub open spec fn some_listed_with(recipe: &Recipe, gs: Seq<GroupedIngredient>, o: ScaleOutcome) -> bool {
    exists|k: int| 0 <= k < gs.len() && is_listed(recipe, #[trigger] gs[k]) && gs[k].outcome == o
}

/// The line that explains the glyphs used: the fixed one, then the error
/// one, separated by ` | `.
pub open spec fn marker_legend(fixed: bool, err: bool) -> Seq<char> {
    (if fixed {
        painted(seq!['\u{26a0}'], TextStyle { color: Some(Color::Yellow), ..plain_style() }) + seq![' ']
            + painted("fixed value"@, TextStyle { color: Some(Color::Yellow), ..plain_style() })
    } else {
        seq![]
    }) + (if err {
        (if fixed { seq![' ', '|', ' '] } else { seq![] })
            + painted(seq!['\u{2bc3}'], TextStyle { color: Some(Color::Red), ..plain_style() }) + seq![' ']
            + painted("error scaling"@, TextStyle { color: Some(Color::Red), ..plain_style() })
    } else {
        seq![]
    })
}

/// The lines of the ingredient section: a heading, the table, the glyph
/// legend where a glyph was used, and a blank line; nothing for a recipe
/// without ingredients.
pub open spec fn ingredients_output(recipe: &Recipe, styles: CookStyles, gs: Seq<GroupedIngredient>) -> Seq<Seq<char>> {
    let fixed = some_listed_with(recipe, gs, ScaleOutcome::Fixed);
    let err = some_listed_with(recipe, gs, ScaleOutcome::Error);
    if recipe.ingredients@.len() == 0 {
        seq![]
    } else {
        seq!["Ingredients:"@] + table_lines(table_format(), ingredient_rows(recipe, styles, gs))
            + (if fixed || err { seq![seq![], marker_legend(fixed, err)] } else { seq![] })
            + seq![seq![]]
    }
}

fn outcome_paint(o: ScaleOutcome) -> (r: (TextStyle, String))
    ensures
        r.0 == outcome_style(o),
        r.1@ == outcome_glyph(o),
{
    match o {
        ScaleOutcome::Fixed => {
            let g = String::from_str(" \u{26a0}");
            proof { reveal_strlit(" \u{26a0}"); }
            (colored(Color::Yellow), g)
        },
        ScaleOutcome::Error => {
            let g = String::from_str(" \u{2bc3}");
            proof { reveal_strlit(" \u{2bc3}"); }
            (colored(Color::Red), g)
        },
        _ => (plain(), String::new()),
    }
}

fn note_text(note: &Option<String>) -> (r: String)
    ensures
        r@ == note_cell(*note),
{
    match note {
        Some(n) => {
            let mut s = String::new();
            push_char(&mut s, '(');
            s.append(n.as_str());
            push_char(&mut s, ')');
            assert(s@ =~= seq!['('] + n@ + seq![')']);
            s
        },
        None => String::new(),
    }
}

/// The cells of the row of one entry (see `ingredient_row`).
fn ingredient_row_cells(recipe: &Recipe, styles: &CookStyles, g: &GroupedIngredient) -> (r: Vec<String>)
    requires
        g.index < recipe.ingredients@.len(),
    ensures
        lines_of(r@) == ingredient_row(recipe, *styles, *g),
{
    let igr = &recipe.ingredients[g.index];
    let (st, glyph) = outcome_paint(g.outcome);
    let mut parts: Vec<String> = Vec::new();
    let mut k: usize = 0;
    while k < g.quantities.len()
        invariant
            0 <= k <= g.quantities@.len(),
            lines_of(parts@) == painted_quantities(g.quantities@, st).take(k as int),
        decreases g.quantities@.len() - k,
    {
        let qt = quantity_fmt(&g.quantities[k]);
        let ghost prev = parts@;
        parts.push(paint(qt.as_str(), st));
        assert(lines_of(parts@) =~= lines_of(prev).push(parts@[k as int]@));
        assert(painted_quantities(g.quantities@, st).take(k + 1) =~= painted_quantities(g.quantities@, st).take(k as int).push(parts@[k as int]@));
        k = k + 1;
    }
    assert(painted_quantities(g.quantities@, st).take(g.quantities@.len() as int) =~= painted_quantities(g.quantities@, st));
    let mut content = comma_join(&parts);
    content.append(paint(glyph.as_str(), st).as_str());
    let opt = if igr.optional { paint("(optional)", styles.opt_marker) } else { String::new() };
    let mut cells: Vec<String> = Vec::new();
    cells.push(igr.display_name.clone());
    cells.push(opt);
    cells.push(content);
    cells.push(note_text(&igr.note));
    assert(lines_of(cells@) =~= ingredient_row(recipe, *styles, *g));
    cells
}

/// Appends the ingredient section (see `ingredients_output`).
pub fn ingredients(out: &mut Vec<String>, recipe: &Recipe, grouped: &Vec<GroupedIngredient>, styles: &CookStyles)
    requires
        forall|k: int| 0 <= k < grouped@.len() ==> (#[trigger] grouped@[k]).index < recipe.ingredients@.len(),
    ensures
        lines_of(final(out)@) == lines_of(old(out)@) + ingredients_output(recipe, *styles, grouped@),
{
    if recipe.ingredients.len() == 0 {
        assert(lines_of(old(out)@) + seq![] =~= lines_of(old(out)@));
        return;
    }
    let mut rows: Vec<Vec<String>> = Vec::new();
    let mut there_is_fixed = false;
    let mut there_is_err = false;
    let mut k: usize = 0;
    while k < grouped.len()
        invariant
            0 <= k <= grouped@.len(),
            forall|a: int| 0 <= a < grouped@.len() ==> (#[trigger] grouped@[a]).index < recipe.ingredients@.len(),
            cells_of(rows@) == ingredient_rows(recipe, *styles, grouped@.take(k as int)),
            forall|a: int| 0 <= a < rows@.len() ==> (#[trigger] rows@[a])@.len() == 4,
            there_is_fixed == some_listed_with(recipe, grouped@.take(k as int), ScaleOutcome::Fixed),
            there_is_err == some_listed_with(recipe, grouped@.take(k as int), ScaleOutcome::Error),
        decreases grouped@.len() - k,
    {
        let g = &grouped[k];
        let ghost gs0 = grouped@.take(k as int);
        let ghost gs1 = grouped@.take(k + 1);
        assert(gs1.drop_last() =~= gs0);
        assert(gs1.last() == *g);
        if recipe.ingredients[g.index].listed {
            let cells = ingredient_row_cells(recipe, styles, g);
            assert(lines_of(cells@).len() == 4);
            let ghost prev = rows@;
            rows.push(cells);
            assert(cells_of(rows@) =~= cells_of(prev).push(lines_of(rows@[prev.len() as int]@)));
            if g.outcome == ScaleOutcome::Fixed {
                there_is_fixed = true;
            }
            if g.outcome == ScaleOutcome::Error {
                there_is_err = true;
            }
        }
        proof {
            assert(gs1[k as int] == *g);
            assert forall|a: int| 0 <= a < k implies gs1[a] == gs0[a] by {}
            if there_is_fixed && !some_listed_with(recipe, gs1, ScaleOutcome::Fixed) {
                if !(is_listed(recipe, *g) && g.outcome == ScaleOutcome::Fixed) {
                    let a = choose|a: int| 0 <= a < gs0.len() && is_listed(recipe, #[trigger] gs0[a]) && gs0[a].outcome == ScaleOutcome::Fixed;
                    assert(gs1[a] == gs0[a]);
                }
            }
            if there_is_err && !some_listed_with(recipe, gs1, ScaleOutcome::Error) {
                if !(is_listed(recipe, *g) && g.outcome == ScaleOutcome::Error) {
                    let a = choose|a: int| 0 <= a < gs0.len() && is_listed(recipe, #[trigger] gs0[a]) && gs0[a].outcome == ScaleOutcome::Error;
                    assert(gs1[a] == gs0[a]);
                }
            }
            if !there_is_fixed && some_listed_with(recipe, gs1, ScaleOutcome::Fixed) {
                let a = choose|a: int| 0 <= a < gs1.len() && is_listed(recipe, #[trigger] gs1[a]) && gs1[a].outcome == ScaleOutcome::Fixed;
                if a < k {
                    assert(gs0[a] == gs1[a]);
                }
            }
            if !there_is_err && some_listed_with(recipe, gs1, ScaleOutcome::Error) {
                let a = choose|a: int| 0 <= a < gs1.len() && is_listed(recipe, #[trigger] gs1[a]) && gs1[a].outcome == ScaleOutcome::Error;
                if a < k {
                    assert(gs0[a] == gs1[a]);
                }
            }
        }
        k = k + 1;
    }
    assert(grouped@.take(grouped@.len() as int) =~= grouped@);
    let ghost start = lines_of(out@);
    out.push(String::from_str("Ingredients:"));
    assert(lines_of(out@) =~= start + seq!["Ingredients:"@]);
    let format = String::from_str("  {:<} {:<}    {:<} {:<}");
    let table = render_table(format.as_str(), &rows);
    push_lines(out, &table);
    let ghost after_table = lines_of(out@);
    if there_is_fixed || there_is_err {
        out.push(String::new());
        let mut legend = String::new();
        proof {
            reveal_strlit("\u{26a0}");
            reveal_strlit("\u{2bc3}");
            reveal_strlit(" | ");
            assert(" | "@ == seq![' ', '|', ' ']);
            assert("\u{26a0}"@ == seq!['\u{26a0}']);
            assert("\u{2bc3}"@ == seq!['\u{2bc3}']);
        }
        let ghost yellow = TextStyle { color: Some(Color::Yellow), ..plain_style() };
        let ghost red = TextStyle { color: Some(Color::Red), ..plain_style() };
        if there_is_fixed {
            legend.append(paint("\u{26a0}", colored(Color::Yellow)).as_str());
            push_char(&mut legend, ' ');
            legend.append(paint("fixed value", colored(Color::Yellow)).as_str());
            assert(legend@ =~= painted(seq!['\u{26a0}'], yellow) + seq![' '] + painted("fixed value"@, yellow));
        }
        let ghost l1 = legend@;
        if there_is_err {
            if there_is_fixed {
                legend.append(" | ");
            }
            legend.append(paint("\u{2bc3}", colored(Color::Red)).as_str());
            push_char(&mut legend, ' ');
            legend.append(paint("error scaling", colored(Color::Red)).as_str());
            assert(legend@ =~= l1 + ((if there_is_fixed { seq![' ', '|', ' '] } else { seq![] })
                + painted(seq!['\u{2bc3}'], red) + seq![' '] + painted("error scaling"@, red)));
        }
        proof {
            assert(legend@ =~= marker_legend(there_is_fixed, there_is_err));
        }
        out.push(legend);
        assert(lines_of(out@) =~= after_table + seq![seq![], marker_legend(there_is_fixed, there_is_err)]);
    } else {
        assert(lines_of(out@) =~= after_table + seq![]);
    }
    let ghost before_blank = lines_of(out@);
    out.push(String::new());
    assert(lines_of(out@) =~= before_blank + seq![seq![]]);
    proof {
        reveal_strlit("  {:<} {:<}    {:<} {:<}");
        assert(format@ == table_format());
        assert(lines_of(out@) =~= lines_of(old(out)@) + ingredients_output(recipe, *styles, grouped@));
    }
}

/// A listed entry with a fixed amount carries the fixed glyph in its row,
/// and the section then ends with the one legend line that the two flags
/// decide: its text is the same however many rows are fixed.
pub proof fn lemma_fixed_is_flagged(recipe: &Recipe, styles: CookStyles, gs: Seq<GroupedIngredient>, k: int)
    requires
        0 <= k < gs.len(),
        is_listed(recipe, gs[k]),
        gs[k].outcome == ScaleOutcome::Fixed,
        recipe.ingredients@.len() > 0,
    ensures
        ingredient_row(recipe, styles, gs[k])[2] == comma_joined(
            painted_quantities(gs[k].quantities@, outcome_style(ScaleOutcome::Fixed)),
        ) + painted(seq![' ', '\u{26a0}'], TextStyle { color: Some(Color::Yellow), ..plain_style() }),
        ({
            let out = ingredients_output(recipe, styles, gs);
            out[out.len() - 2] == marker_legend(true, some_listed_with(recipe, gs, ScaleOutcome::Error))
        }),
{
    assert(some_listed_with(recipe, gs, ScaleOutcome::Fixed));
}

/// The row of one piece of cookware: name, optional marker, its amounts,
/// note.
pub open spec fn cookware_row(cw: Cookware) -> Seq<Seq<char>> {
    seq![
        cw.display_name@,
        if cw.optional { "(optional)"@ } else { seq![] },
        comma_joined(lines_of(cw.amounts@)),
        note_cell(cw.note),
    ]
}

pub open spec fn cookware_rows(cws: Seq<Cookware>) -> Seq<Seq<Seq<char>>>
    decreases cws.len(),
{
    if cws.len() == 0 {
        seq![]
    } else {
        let prev = cookware_rows(cws.drop_last());
        if cws.last().listed {
            prev.push(cookware_row(cws.last()))
        } else {
            prev
        }
    }
}

/// The lines of the cookware section: a heading, the table of the listed
/// items and a blank line; nothing for a recipe without cookware.
pub open spec fn cookware_output(recipe: &Recipe) -> Seq<Seq<char>> {
    if recipe.cookware@.len() == 0 {
        seq![]
    } else {
        seq!["Cookware:"@] + table_lines(table_format(), cookware_rows(recipe.cookware@)) + seq![seq![]]
    }
}

/// Appends the cookware section (see `cookware_output`).
pub fn cookware(out: &mut Vec<String>, recipe: &Recipe)
    ensures
        lines_of(final(out)@) == lines_of(old(out)@) + cookware_output(recipe),
{
    if recipe.cookware.len() == 0 {
        assert(lines_of(old(out)@) + seq![] =~= lines_of(old(out)@));
        return;
    }
    let cws = &recipe.cookware;
    let mut rows: Vec<Vec<String>> = Vec::new();
    let mut k: usize = 0;
    while k < cws.len()
        invariant
            *cws == recipe.cookware,
            0 <= k <= cws@.len(),
            cells_of(rows@) == cookware_rows(cws@.take(k as int)),
            forall|a: int| 0 <= a < rows@.len() ==> (#[trigger] rows@[a])@.len() == 4,
        decreases cws@.len() - k,
    {
        let item = &cws[k];
        assert(cws@.take(k + 1).drop_last() =~= cws@.take(k as int));
        assert(cws@.take(k + 1).last() == *item);
        if item.listed {
            let mut cells: Vec<String> = Vec::new();
            cells.push(item.display_name.clone());
            cells.push(if item.optional { String::from_str("(optional)") } else { String::new() });
            cells.push(comma_join(&item.amounts));
            cells.push(note_text(&item.note));
            assert(lines_of(cells@) =~= cookware_row(*item));
            let ghost prev = rows@;
            rows.push(cells);
            assert(cells_of(rows@) =~= cells_of(prev).push(lines_of(rows@[prev.len() as int]@)));
        }
        k = k + 1;
    }
    assert(cws@.take(cws@.len() as int) =~= cws@);
    out.push(String::from_str("Cookware:"));
    let format = String::from_str("  {:<} {:<}    {:<} {:<}");
    proof {
        reveal_strlit("  {:<} {:<}    {:<} {:<}");
        assert(format@ == table_format());
    }
    let table = render_table(format.as_str(), &rows);
    push_lines(out, &table);
    let ghost before_blank = lines_of(out@);
    out.push(String::new());
    assert(lines_of(out@) =~= before_blank + seq![seq![]]);
    assert(lines_of(out@) =~= lines_of(old(out)@) + cookware_output(recipe));
}

} // verus!
