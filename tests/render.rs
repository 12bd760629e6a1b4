use cooklang_to_human::dedup::{build_step_igrs_dedup, write_igr_count};
use cooklang_to_human::document::{section_divider, steps, trim};
use cooklang_to_human::header::{header, tag_color};
use cooklang_to_human::metadata::metadata;
use cooklang_to_human::model::{
    Content, Cookware, GroupedIngredient, Ingredient, Item, Metadata, NameAndUrl, Quantity, Recipe,
    RecipeTime, RefTarget, ScaleOutcome, Section, Servings, Step, Timer,
};
use cooklang_to_human::print_human;
use cooklang_to_human::step::{inter_ref_text, quantity_fmt, step_text};
use cooklang_to_human::style::{Color, CookStyles, TextStyle};
use cooklang_to_human::tables::{comma_join, cookware, ingredients};
use cooklang_to_human::text::{decimal_text, write_subscript};
use cooklang_to_human::wrap::{legend_words, print_wrapped, print_wrapped_with_options};

fn plain() -> TextStyle {
    TextStyle { color: None, bold: false, italic: false, dim: false, strike: false }
}

fn styles() -> CookStyles {
    let p = plain();
    CookStyles {
        title: p,
        meta_key: p,
        selected_servings: p,
        ingredient: p,
        cookware: p,
        timer: p,
        inline_quantity: p,
        opt_marker: p,
        intermediate_ref: p,
        step_igr_quantity: p,
        section_name: p,
    }
}

fn it(s: &str) -> String {
    let st = yansi::Style::new().italic();
    format!("{}{}{}", st.prefix(), s, st.suffix())
}

fn fg(c: yansi::Color, s: &str) -> String {
    let st = yansi::Style::new().fg(c);
    format!("{}{}{}", st.prefix(), s, st.suffix())
}

fn qty(value: &str, unit: Option<&str>) -> Quantity {
    Quantity { value: value.to_string(), unit: unit.map(|u| u.to_string()) }
}

fn igr(name: &str, quantity: Option<Quantity>) -> Ingredient {
    Ingredient {
        name: name.to_string(),
        display_name: name.to_string(),
        quantity,
        note: None,
        optional: false,
        listed: true,
        reference: None,
    }
}

fn recipe(sections: Vec<Section>, ingredients: Vec<Ingredient>, timers: Vec<Timer>) -> Recipe {
    Recipe { sections, ingredients, cookware: vec![], timers, inline_quantities: vec![] }
}

fn text(s: &str) -> Item {
    Item::Text(s.to_string())
}

fn empty_meta() -> Metadata {
    Metadata {
        emoji: None,
        tags: None,
        description: None,
        author: None,
        source: None,
        time: None,
        servings: None,
        extra: vec![],
        is_empty: true,
    }
}

#[test]
fn subscript_digits() {
    let mut s = String::from("x");
    write_subscript(&mut s, "1204");
    assert_eq!(s, "x₁₂₀₄");
    let mut t = String::new();
    write_subscript(&mut t, "a9");
    assert_eq!(t, "a₉");
}

#[test]
fn decimal_numbers() {
    assert_eq!(decimal_text(0), "0");
    assert_eq!(decimal_text(7), "7");
    assert_eq!(decimal_text(1090), "1090");
}

#[test]
fn repeated_ingredient_subscripts_and_legend() {
    let st = Step { number: 1, items: vec![text("Add "), Item::Ingredient(0), text(" and "), Item::Ingredient(1)] };
    let r = recipe(vec![], vec![igr("salt", None), igr("salt", Some(qty("1", Some("tsp"))))], vec![]);
    let section = Section { name: None, content: vec![] };
    let (narrative, legend) = step_text(&r, &section, &st, &styles());
    assert_eq!(narrative, "Add salt₁ and salt₂");
    assert_eq!(legend, format!("[salt₂: 1 {}]", it("tsp")));
}

#[test]
fn groups_keep_informative_members() {
    let st = Step {
        number: 1,
        items: vec![Item::Ingredient(0), Item::Ingredient(1), Item::Ingredient(2), Item::Ingredient(3)],
    };
    let r = recipe(
        vec![],
        vec![igr("salt", None), igr("egg", None), igr("salt", None), igr("egg", Some(qty("2", None)))],
        vec![],
    );
    let groups = build_step_igrs_dedup(&st, &r);
    assert_eq!(groups.len(), 2);
    assert_eq!(groups[0].name, "salt");
    assert_eq!(groups[0].all, vec![0, 2]);
    assert_eq!(groups[0].kept, vec![0]);
    assert_eq!(groups[1].name, "egg");
    assert_eq!(groups[1].all, vec![1, 3]);
    assert_eq!(groups[1].kept, vec![3]);
    for g in &groups {
        assert!(!g.kept.is_empty());
    }
}

#[test]
fn igr_count_only_for_repeated_names() {
    let st = Step { number: 1, items: vec![Item::Ingredient(0), Item::Ingredient(1), Item::Ingredient(2)] };
    let r = recipe(vec![], vec![igr("salt", None), igr("oil", None), igr("salt", None)], vec![]);
    let groups = build_step_igrs_dedup(&st, &r);
    let mut b = String::new();
    assert_eq!(write_igr_count(&mut b, &groups, 2, &"salt".to_string()), Some(2));
    assert_eq!(b, "₂");
    assert_eq!(write_igr_count(&mut b, &groups, 1, &"oil".to_string()), None);
    assert_eq!(b, "₂");
}

#[test]
fn subscripts_are_stable() {
    let st = Step { number: 3, items: vec![Item::Ingredient(0), text(", "), Item::Ingredient(1)] };
    let r = recipe(vec![], vec![igr("flour", Some(qty("100", Some("g")))), igr("flour", None)], vec![]);
    let section = Section { name: None, content: vec![] };
    let a = step_text(&r, &section, &st, &styles());
    let b = step_text(&r, &section, &st, &styles());
    assert_eq!(a, b);
    assert_eq!(a.0, "flour₁, flour₂");
    assert_eq!(a.1, format!("[flour₁: 100 {}]", it("g")));
}

#[test]
fn timers_inline() {
    let timers = vec![
        Timer { quantity: Some(qty("10", Some("min"))), name: None },
        Timer { quantity: None, name: Some("rest".to_string()) },
        Timer { quantity: Some(qty("10", Some("min"))), name: Some("rest".to_string()) },
    ];
    let r = recipe(vec![], vec![], timers);
    let section = Section { name: None, content: vec![] };
    let min = format!("10 {}", it("min"));
    for (i, want) in [min.clone(), "rest".to_string(), format!("{min} (rest)")].iter().enumerate() {
        let st = Step { number: 1, items: vec![Item::Timer(i)] };
        let (n, l) = step_text(&r, &section, &st, &styles());
        assert_eq!(&n, want);
        assert_eq!(l, "[-]");
    }
}

#[test]
fn legend_entry_fields_in_order() {
    let mut opt = igr("milk", Some(qty("200", Some("ml"))));
    opt.optional = true;
    let mut from_step = igr("dough", None);
    from_step.reference = Some((0, RefTarget::Step));
    let mut from_section = igr("sauce", None);
    from_section.reference = Some((1, RefTarget::Section));
    let first = Step { number: 4, items: vec![text("Knead.")] };
    let section = Section { name: None, content: vec![Content::Step(first)] };
    let r = Recipe {
        sections: vec![
            Section { name: None, content: vec![] },
            Section { name: None, content: vec![] },
        ],
        ingredients: vec![opt, from_step, from_section],
        cookware: vec![],
        timers: vec![],
        inline_quantities: vec![],
    };
    let st = Step { number: 5, items: vec![Item::Ingredient(0), Item::Ingredient(1), Item::Ingredient(2)] };
    let (_, legend) = step_text(&r, &section, &st, &styles());
    assert_eq!(legend, format!("[milk (opt): 200 {}, dough from step 4, sauce from section 2]", it("ml")));
    assert_eq!(inter_ref_text(&r, &r.ingredients[2], &section), Some("section 2".to_string()));
    assert_eq!(inter_ref_text(&r, &r.ingredients[0], &section), None);
}

#[test]
fn cookware_and_inline_quantity() {
    let r = Recipe {
        sections: vec![],
        ingredients: vec![],
        cookware: vec![Cookware {
            name: "pan".to_string(),
            display_name: "pan".to_string(),
            note: None,
            optional: false,
            listed: true,
            amounts: vec![],
        }],
        timers: vec![],
        inline_quantities: vec![qty("180", Some("°C"))],
    };
    let section = Section { name: None, content: vec![] };
    let st = Step { number: 1, items: vec![text("Heat the "), Item::Cookware(0), text(" to "), Item::InlineQuantity(0)] };
    let (n, l) = step_text(&r, &section, &st, &styles());
    assert_eq!(n, format!("Heat the pan to 180 {}", it("°C")));
    assert_eq!(l, "[-]");
}

#[test]
fn unit_is_painted() {
    let q = quantity_fmt(&qty("2", Some("cups")));
    assert!(q.starts_with("2 "));
    assert!(q.contains("cups"));
    assert_ne!(q, "2 cups");
}

#[test]
fn short_line_wraps_to_itself() {
    let mut out = Vec::new();
    print_wrapped(&mut out, "hello world", 80);
    assert_eq!(out, vec!["hello world".to_string()]);
    print_wrapped(&mut out, "", 80);
    assert_eq!(out.len(), 1);
}

#[test]
fn long_line_wraps_with_indent() {
    let mut out = Vec::new();
    print_wrapped_with_options(&mut out, " 1. aaa bbb ccc ddd", 10, "", "    ", false);
    assert!(out.len() > 1);
    for l in &out[1..] {
        assert!(l.starts_with("    "));
    }
    for l in &out {
        assert!(l.chars().count() <= 10);
    }
}

#[test]
fn legend_breaks_only_after_commas() {
    let mut out = Vec::new();
    print_wrapped_with_options(&mut out, "[big red apple, green pear]", 22, "     ", "     ", true);
    assert_eq!(out, vec!["     [big red apple, ".trim_end().to_string(), "     green pear]".to_string()]);
}

#[test]
fn tag_colors_are_fixed() {
    assert_eq!(tag_color(""), Color::Red);
    assert_eq!(tag_color("a"), Color::Red);
    assert_eq!(tag_color("ab"), Color::Red);
    assert_eq!(tag_color("abc"), Color::Cyan);
    // 'b' + 2 * 'c' + 3 * 'd' = 98 + 198 + 300 = 596, and 596 % 7 == 1
    assert_eq!(tag_color("abcd"), Color::Blue);
    assert_eq!(tag_color("dessert"), tag_color("dessert"));
}

#[test]
fn header_title_and_tags() {
    let mut m = empty_meta();
    m.emoji = Some("🍰".to_string());
    m.tags = Some(vec!["abc".to_string(), "ab".to_string()]);
    let mut out = Vec::new();
    header(&mut out, &m, "Cake", &styles(), 80);
    let tags = format!("{} {}", fg(yansi::Color::Cyan, "#abc"), fg(yansi::Color::Red, "#ab"));
    assert_eq!(out, vec![" 🍰 Cake ".to_string(), tags, String::new()]);
}

#[test]
fn metadata_lines() {
    let mut m = empty_meta();
    m.author = Some(NameAndUrl { name: None, url: Some("https://x.example".to_string()) });
    m.source = Some(NameAndUrl { name: None, url: None });
    m.time = Some(RecipeTime::Composed { prep_time: Some(30), cook_time: Some(90) });
    m.servings = Some(Servings { values: vec!["2".to_string(), "4".to_string()], selected: Some(1), unmet_target: None });
    m.extra = vec![("course".to_string(), "dinner".to_string())];
    m.is_empty = false;
    let mut out = Vec::new();
    metadata(&mut out, &m, &styles(), 80);
    assert_eq!(
        out,
        vec![
            "author: https://x.example".to_string(),
            "source: -".to_string(),
            "prep time: 30m".to_string(),
            "cook time: 1h 30m".to_string(),
            "total time: 2h".to_string(),
            "servings: 2|[4]".to_string(),
            "course: dinner".to_string(),
            String::new(),
        ]
    );
}

#[test]
fn servings_target_not_met() {
    let mut m = empty_meta();
    m.servings = Some(Servings { values: vec!["2".to_string()], selected: None, unmet_target: Some("3".to_string()) });
    m.is_empty = false;
    let mut out = Vec::new();
    metadata(&mut out, &m, &styles(), 80);
    let st = yansi::Style::new().dim().strike();
    let struck = format!("{}2{}", st.prefix(), st.suffix());
    assert_eq!(out[0], format!("servings: {} {} {}", struck, fg(yansi::Color::Red, "→"), fg(yansi::Color::Red, "3")));
}

fn grouped(index: usize, outcome: ScaleOutcome) -> GroupedIngredient {
    GroupedIngredient { index, quantities: vec![qty("1", Some("kg"))], outcome }
}

#[test]
fn fixed_rows_share_one_legend() {
    let r = recipe(vec![], vec![igr("flour", None), igr("sugar", None)], vec![]);
    let g = vec![grouped(0, ScaleOutcome::Fixed), grouped(1, ScaleOutcome::Fixed)];
    let mut out = Vec::new();
    ingredients(&mut out, &r, &g, &styles());
    assert_eq!(out[0], "Ingredients:");
    let amount = format!("{}{}", fg(yansi::Color::Yellow, &format!("1 {}", it("kg"))), fg(yansi::Color::Yellow, " \u{26a0}"));
    assert!(out[1].contains("flour") && out[1].contains(&amount));
    assert!(out[2].contains("sugar") && out[2].contains(&amount));
    let legend = &out[out.len() - 2];
    assert_eq!(legend, &format!("{} {}", fg(yansi::Color::Yellow, "\u{26a0}"), fg(yansi::Color::Yellow, "fixed value")));
    assert_eq!(out.iter().filter(|l| l.contains("fixed value")).count(), 1);
    assert_eq!(out[out.len() - 1], "");
}

#[test]
fn error_and_fixed_legend() {
    let mut hidden = igr("stock", None);
    hidden.listed = false;
    let r = recipe(vec![], vec![igr("flour", None), igr("sugar", None), hidden], vec![]);
    let g = vec![grouped(0, ScaleOutcome::Error), grouped(1, ScaleOutcome::Fixed), grouped(2, ScaleOutcome::Scaled)];
    let mut out = Vec::new();
    ingredients(&mut out, &r, &g, &styles());
    assert_eq!(out.len(), 6);
    assert!(!out.iter().any(|l| l.contains("stock")));
    let want = format!(
        "{} {} | {} {}",
        fg(yansi::Color::Yellow, "\u{26a0}"),
        fg(yansi::Color::Yellow, "fixed value"),
        fg(yansi::Color::Red, "\u{2bc3}"),
        fg(yansi::Color::Red, "error scaling")
    );
    assert_eq!(out[4], want);
}

#[test]
fn no_glyph_without_problems() {
    let mut o = igr("salt", None);
    o.optional = true;
    o.note = Some("fine".to_string());
    let r = recipe(vec![], vec![o], vec![]);
    let g = vec![grouped(0, ScaleOutcome::Scaled)];
    let mut out = Vec::new();
    ingredients(&mut out, &r, &g, &styles());
    assert_eq!(out.len(), 3);
    assert!(out[1].contains("(optional)") && out[1].contains("(fine)"));
    assert!(!out[1].contains('\u{26a0}'));
    let mut none = Vec::new();
    ingredients(&mut none, &recipe(vec![], vec![], vec![]), &vec![], &styles());
    assert!(none.is_empty());
}

#[test]
fn cookware_table() {
    let mut r = recipe(vec![], vec![], vec![]);
    r.cookware = vec![Cookware {
        name: "pot".to_string(),
        display_name: "pot".to_string(),
        note: Some("large".to_string()),
        optional: true,
        listed: true,
        amounts: vec!["1".to_string(), "2".to_string()],
    }];
    let mut out = Vec::new();
    cookware(&mut out, &r);
    assert_eq!(out[0], "Cookware:");
    assert!(out[1].contains("pot") && out[1].contains("(optional)") && out[1].contains("1, 2") && out[1].contains("(large)"));
    assert_eq!(out[out.len() - 1], "");
    assert_eq!(comma_join(&vec!["a".to_string(), "b".to_string()]), "a, b");
}

fn one_step_section(name: Option<&str>, n: usize) -> Section {
    Section {
        name: name.map(|s| s.to_string()),
        content: vec![Content::Step(Step { number: n, items: vec![text("Mix.")] })],
    }
}

#[test]
fn single_section_has_no_divider() {
    let r = recipe(vec![one_step_section(None, 1)], vec![], vec![]);
    let mut out = Vec::new();
    steps(&mut out, &r, &styles(), 80);
    assert_eq!(out, vec!["Steps:".to_string(), " 1. Mix.".to_string(), "     [-]".to_string()]);
    assert!(!out.iter().any(|l| l.contains('§')));
}

#[test]
fn sections_get_centered_dividers() {
    let r = recipe(vec![one_step_section(Some("Dough"), 1), one_step_section(None, 1)], vec![], vec![]);
    let mut out = Vec::new();
    steps(&mut out, &r, &styles(), 20);
    assert_eq!(out[1], "    ─── § 1 ───     ");
    assert_eq!(out[2], "Dough:");
    assert_eq!(out.iter().filter(|l| l.contains('§')).count(), 2);
    assert!(out.contains(&"    ─── § 2 ───     ".to_string()));
    assert_eq!(section_divider(3, 5), "─── § 3 ───");
}

#[test]
fn text_paragraph() {
    let s = Section { name: None, content: vec![Content::Text("  Enjoy!  ".to_string())] };
    let r = recipe(vec![s], vec![], vec![]);
    let mut out = Vec::new();
    steps(&mut out, &r, &styles(), 80);
    assert_eq!(out, vec!["Steps:".to_string(), String::new(), "  Enjoy!".to_string(), String::new()]);
}

#[test]
fn whole_document() {
    let st = Step { number: 1, items: vec![text("Add "), Item::Ingredient(0), text(".")] };
    let r = recipe(
        vec![Section { name: None, content: vec![Content::Step(st)] }],
        vec![igr("salt", Some(qty("1", Some("tsp"))))],
        vec![],
    );
    let lines = print_human(&r, &empty_meta(), &vec![grouped(0, ScaleOutcome::Scaled)], "Soup", &styles(), 80);
    assert_eq!(lines[0], " Soup ");
    assert_eq!(lines[1], "");
    assert_eq!(lines[2], "Ingredients:");
    let n = lines.len();
    assert_eq!(lines[n - 3], "Steps:");
    assert_eq!(lines[n - 2], " 1. Add salt.");
    assert_eq!(lines[n - 1], format!("     [salt: 1 {}]", it("tsp")));
}

#[test]
fn legend_words_end_after_commas() {
    assert_eq!(legend_words("[a b, c, d e]"), vec!["[a b, ", "c, ", "d e]"]);
    assert_eq!(legend_words("x, "), vec!["x, "]);
    assert_eq!(legend_words("a,b ,c"), vec!["a,b ,c"]);
    assert!(legend_words("").is_empty());
}

#[test]
fn trim_drops_unicode_white_space() {
    assert_eq!(trim("  \t a b \n"), "a b");
    assert_eq!(trim("\u{3000}x\u{a0}"), "x");
    assert_eq!(trim(" \r\n "), "");
    assert_eq!(trim("x_y"), "x_y");
}
