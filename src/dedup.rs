//! Grouping the ingredient occurrences of one step by name, and the
//! subscripts that tell repeated names apart.

use vstd::prelude::*;
use crate::model::{Item, Recipe, Step};
use crate::text::{decimal, subscript_of, write_subscript, decimal_text};

verus! {

/// The ingredients that a step names exist in the recipe.
pub open spec fn igr_indices_ok(recipe: &Recipe, items: Seq<Item>) -> bool {
    forall|k: int| 0 <= k < items.len() ==> match #[trigger] items[k] {
        Item::Ingredient(i) => i < recipe.ingredients@.len(),
        _ => true,
    }
}

/// The indices of the ingredient occurrences in `items` whose name is
/// `name`, in order of appearance.
pub open spec fn occurrences(recipe: &Recipe, items: Seq<Item>, name: Seq<char>) -> Seq<usize>
    decreases items.len(),
{
    if items.len() == 0 {
        seq![]
    } else {
        let prev = occurrences(recipe, items.drop_last(), name);
        match items.last() {
            Item::Ingredient(i) => if i < recipe.ingredients@.len()
                && recipe.ingredients@[i as int].name@ == name {
                prev.push(i)
            } else {
                prev
            },
            _ => prev,
        }
    }
}

/// An occurrence tells something of its own: an amount, or that it is the
/// result of an earlier section or step.
pub open spec fn informative(recipe: &Recipe, i: usize) -> bool {
    i < recipe.ingredients@.len() && (recipe.ingredients@[i as int].quantity is Some
        || recipe.ingredients@[i as int].reference is Some)
}

/// The informative members of `s`, in order.
pub open spec fn informative_members(recipe: &Recipe, s: Seq<usize>) -> Seq<usize>
    decreases s.len(),
{
    if s.len() == 0 {
        s
    } else {
        let prev = informative_members(recipe, s.drop_last());
        if informative(recipe, s.last()) {
            prev.push(s.last())
        } else {
            prev
        }
    }
}

/// What is left of a group for the legend: its informative members, or its
/// first member where none is.
pub open spec fn kept_of(recipe: &Recipe, all: Seq<usize>) -> Seq<usize> {
    let f = informative_members(recipe, all);
    if f.len() == 0 && all.len() > 0 {
        all.take(1)
    } else {
        f
    }
}

/// The position of the first `x` in `s`, or `s.len()` when there is none.
pub open spec fn first_index(s: Seq<usize>, x: usize) -> int
    decreases s.len(),
{
    if s.len() == 0 {
        0
    } else if s[0] == x {
        0
    } else {
        1 + first_index(s.drop_first(), x)
    }
}

/// The number written under an occurrence `index` of a group whose members
/// are `all`: its place in the group, counted from one, where the group has
/// more than one member.
pub open spec fn count_of(all: Seq<usize>, index: usize) -> Option<nat> {
    if all.len() <= 1 || !all.contains(index) {
        None
    } else {
        Some((first_index(all, index) + 1) as nat)
    }
}

/// The subscript text of a count.
pub open spec fn count_text(c: Option<nat>) -> Seq<char> {
    match c {
        Some(n) => subscript_of(decimal(n)),
        None => seq![],
    }
}

/// The occurrences of one ingredient name in a step: all of them, and those
/// that the legend shows.
pub struct IngredientGroup {
    pub name: String,
    pub all: Vec<usize>,
    pub kept: Vec<usize>,
}

pub open spec fn group_names(groups: Seq<IngredientGroup>) -> Seq<Seq<char>> {
    groups.map_values(|g: IngredientGroup| g.name@)
}

/// The groups are those of `items`: one for each name, with its
/// occurrences and its kept members.
pub open spec fn groups_of(recipe: &Recipe, items: Seq<Item>, groups: Seq<IngredientGroup>) -> bool {
    &&& forall|j: int| 0 <= j < groups.len() ==> {
        &&& (#[trigger] groups[j]).all@ == occurrences(recipe, items, groups[j].name@)
        &&& groups[j].all@.len() > 0
        &&& groups[j].kept@ == kept_of(recipe, groups[j].all@)
        }
    &&& forall|a: int, b: int| 0 <= a < b < groups.len() ==> (#[trigger] groups[a]).name@
        != (#[trigger] groups[b]).name@
    &&& forall|k: int| 0 <= k < items.len() && (#[trigger] items[k]) is Ingredient ==>
        group_names(groups).contains(recipe.ingredients@[items[k]->Ingredient_0 as int].name@)
}

proof fn lemma_occurrences_members(recipe: &Recipe, items: Seq<Item>, name: Seq<char>)
    ensures
        forall|m: int| 0 <= m < occurrences(recipe, items, name).len() ==> {
            let i = #[trigger] occurrences(recipe, items, name)[m];
            i < recipe.ingredients@.len() && recipe.ingredients@[i as int].name@ == name
        },
    decreases items.len(),
{
    if items.len() > 0 {
        lemma_occurrences_members(recipe, items.drop_last(), name);
    }
}

proof fn lemma_informative_members(recipe: &Recipe, s: Seq<usize>)
    ensures
        forall|m: int| 0 <= m < informative_members(recipe, s).len() ==> s.contains(
            #[trigger] informative_members(recipe, s)[m],
        ),
    decreases s.len(),
{
    if s.len() > 0 {
        lemma_informative_members(recipe, s.drop_last());
        let p = informative_members(recipe, s.drop_last());
        assert forall|m: int| 0 <= m < informative_members(recipe, s).len() implies s.contains(
            #[trigger] informative_members(recipe, s)[m],
        ) by {
            if m < p.len() {
                let j = choose|j: int| 0 <= j < s.drop_last().len() && s.drop_last()[j] == p[m];
                assert(s[j] == p[m]);
            } else {
                assert(s[s.len() - 1] == s.last());
            }
        }
    }
}

proof fn lemma_occurs_nonempty(recipe: &Recipe, items: Seq<Item>, k: int)
    requires
        0 <= k < items.len(),
        items[k] is Ingredient,
        items[k]->Ingredient_0 < recipe.ingredients@.len(),
    ensures
        occurrences(
            recipe,
            items,
            recipe.ingredients@[items[k]->Ingredient_0 as int].name@,
        ).contains(items[k]->Ingredient_0),
    decreases items.len(),
{
    let i = items[k]->Ingredient_0;
    let name = recipe.ingredients@[i as int].name@;
    if k == items.len() - 1 {
        let o = occurrences(recipe, items, name);
        assert(o.last() == i);
        assert(o[o.len() - 1] == i);
    } else {
        lemma_occurs_nonempty(recipe, items.drop_last(), k);
        let p = occurrences(recipe, items.drop_last(), name);
        let j = choose|j: int| 0 <= j < p.len() && p[j] == i;
        assert(occurrences(recipe, items, name)[j] == i);
    }
}

/// Every name that occurs in a step has a group whose kept part is not
/// empty, and every kept member is an occurrence of that name in the step.
pub proof fn lemma_kept_members(recipe: &Recipe, items: Seq<Item>, k: int)
    requires
        igr_indices_ok(recipe, items),
        0 <= k < items.len(),
        items[k] is Ingredient,
    ensures
        ({
            let name = recipe.ingredients@[items[k]->Ingredient_0 as int].name@;
            let all = occurrences(recipe, items, name);
            let kept = kept_of(recipe, all);
            &&& kept.len() >= 1
            &&& forall|m: int| 0 <= m < kept.len() ==> {
                &&& all.contains(#[trigger] kept[m])
                &&& recipe.ingredients@[kept[m] as int].name@ == name
            }
        }),
{
    let name = recipe.ingredients@[items[k]->Ingredient_0 as int].name@;
    let all = occurrences(recipe, items, name);
    assert(items[k] matches Item::Ingredient(i) && i < recipe.ingredients@.len());
    lemma_occurs_nonempty(recipe, items, k);
    lemma_occurrences_members(recipe, items, name);
    lemma_informative_members(recipe, all);
    let kept = kept_of(recipe, all);
    assert forall|m: int| 0 <= m < kept.len() implies {
        &&& all.contains(#[trigger] kept[m])
        &&& recipe.ingredients@[kept[m] as int].name@ == name
    } by {
        if informative_members(recipe, all).len() == 0 {
            assert(kept[m] == all[0]);
        }
        let j = choose|j: int| 0 <= j < all.len() && all[j] == kept[m];
    }
}


/// The group of `name`, if there is one.
pub fn find_group(groups: &Vec<IngredientGroup>, name: &String) -> (r: Option<usize>)
    ensures
        r matches Some(j) ==> j < groups@.len() && groups@[j as int].name@ == name@,
        r is None ==> !group_names(groups@).contains(name@),
{
    let mut j: usize = 0;
    while j < groups.len()
        invariant
            0 <= j <= groups@.len(),
            forall|a: int| 0 <= a < j ==> groups@[a].name@ != name@,
        decreases groups@.len() - j,
    {
        if groups[j].name == *name {
            return Some(j);
        }
        j = j + 1;
    }
    proof {
        if group_names(groups@).contains(name@) {
            let a = choose|a: int| 0 <= a < group_names(groups@).len() && group_names(groups@)[a] == name@;
            assert(groups@[a].name@ == name@);
        }
    }
    None
}

/// The occurrences of `name` among `items`.
fn collect_occurrences(recipe: &Recipe, items: &Vec<Item>, name: &String) -> (r: Vec<usize>)
    ensures
        r@ == occurrences(recipe, items@, name@),
{
    let mut r: Vec<usize> = Vec::new();
    let mut k: usize = 0;
    while k < items.len()
        invariant
            0 <= k <= items@.len(),
            r@ == occurrences(recipe, items@.take(k as int), name@),
        decreases items@.len() - k,
    {
        assert(items@.take(k + 1).drop_last() == items@.take(k as int));
        match &items[k] {
            Item::Ingredient(i) => {
                if *i < recipe.ingredients.len() && recipe.ingredients[*i].name == *name {
                    r.push(*i);
                }
            },
            _ => {},
        }
        k = k + 1;
    }
    assert(items@.take(items@.len() as int) == items@);
    r
}

/// The informative members of `all`, or its first one where none is.
fn keep_informative(recipe: &Recipe, all: &Vec<usize>) -> (r: Vec<usize>)
    ensures
        r@ == kept_of(recipe, all@),
{
    let mut r: Vec<usize> = Vec::new();
    let mut k: usize = 0;
    while k < all.len()
        invariant
            0 <= k <= all@.len(),
            r@ == informative_members(recipe, all@.take(k as int)),
        decreases all@.len() - k,
    {
        assert(all@.take(k + 1).drop_last() == all@.take(k as int));
        let i = all[k];
        if i < recipe.ingredients.len() && (recipe.ingredients[i].quantity.is_some()
            || recipe.ingredients[i].reference.is_some()) {
            r.push(i);
        }
        k = k + 1;
    }
    assert(all@.take(all@.len() as int) == all@);
    if r.len() == 0 && all.len() > 0 {
        r.push(all[0]);
        assert(r@ == all@.take(1));
    }
    r
}

/// Groups the ingredient occurrences of `step` by name, one group for each
/// name that occurs, each with the members that the legend keeps.
pub fn build_step_igrs_dedup(step: &Step, recipe: &Recipe) -> (r: Vec<IngredientGroup>)
    requires
        igr_indices_ok(recipe, step.items@),
    ensures
        groups_of(recipe, step.items@, r@),
{
    let items = &step.items;
    let mut r: Vec<IngredientGroup> = Vec::new();
    let mut k: usize = 0;
    while k < items.len()
        invariant
            items == step.items,
            igr_indices_ok(recipe, items@),
            0 <= k <= items@.len(),
            forall|j: int| 0 <= j < r@.len() ==> {
                &&& (#[trigger] r@[j]).all@ == occurrences(recipe, items@, r@[j].name@)
                &&& r@[j].all@.len() > 0
                &&& r@[j].kept@ == kept_of(recipe, r@[j].all@)
            },
            forall|a: int, b: int| 0 <= a < b < r@.len() ==> (#[trigger] r@[a]).name@
                != (#[trigger] r@[b]).name@,
            forall|m: int| 0 <= m < k && (#[trigger] items@[m]) is Ingredient ==>
                group_names(r@).contains(recipe.ingredients@[items@[m]->Ingredient_0 as int].name@),
        decreases items@.len() - k,
    {
        match &items[k] {
            Item::Ingredient(i) => {
                if *i < recipe.ingredients.len() {
                    let name = &recipe.ingredients[*i].name;
                    let found = find_group(&r, name);
                    if let Some(j) = found {
                        assert(group_names(r@)[j as int] == name@);
                    } else {
                        let all = collect_occurrences(recipe, items, name);
                        proof {
                            lemma_occurs_nonempty(recipe, items@, k as int);
                        }
                        let kept = keep_informative(recipe, &all);
                        let g = IngredientGroup { name: name.clone(), all, kept };
                        let ghost old_r = r@;
                        r.push(g);
                        proof {
                            assert(group_names(r@)[r@.len() - 1] == name@);
                            assert forall|m: int| 0 <= m < k + 1 && (#[trigger] items@[m]) is Ingredient implies
                                group_names(r@).contains(recipe.ingredients@[items@[m]->Ingredient_0 as int].name@) by {
                                if m < k {
                                    let nm = recipe.ingredients@[items@[m]->Ingredient_0 as int].name@;
                                    let a = choose|a: int| 0 <= a < group_names(old_r).len() && group_names(old_r)[a] == nm;
                                    assert(group_names(r@)[a] == nm);
                                }
                            }
                            assert forall|a: int, b: int| 0 <= a < b < r@.len() implies (#[trigger] r@[a]).name@
                                != (#[trigger] r@[b]).name@ by {
                                if b == r@.len() - 1 {
                                    assert(group_names(old_r)[a] == r@[a].name@);
                                }
                            }
                        }
                    }
                }
            },
            _ => {},
        }
        k = k + 1;
    }
    r
}

proof fn lemma_first_index(s: Seq<usize>, x: usize, p: int)
    requires
        0 <= p < s.len(),
        s[p] == x,
        forall|a: int| 0 <= a < p ==> s[a] != x,
    ensures
        first_index(s, x) == p,
    decreases p,
{
    if p > 0 {
        lemma_first_index(s.drop_first(), x, p - 1);
    }
}

/// Writes the subscript of occurrence `index` of `name` (see `count_of`)
/// and returns the number written, if any.
pub fn write_igr_count(
    buffer: &mut String,
    step_igrs: &Vec<IngredientGroup>,
    index: usize,
    name: &String,
) -> (r: Option<usize>)
    requires
        group_names(step_igrs@).contains(name@),
        forall|a: int, b: int| 0 <= a < b < step_igrs@.len() ==> (#[trigger] step_igrs@[a]).name@
            != (#[trigger] step_igrs@[b]).name@,
    ensures
        forall|j: int| 0 <= j < step_igrs@.len() && (#[trigger] step_igrs@[j]).name@ == name@ ==> {
            &&& (match r {
                Some(n) => count_of(step_igrs@[j].all@, index) == Some(n as nat),
                None => count_of(step_igrs@[j].all@, index) is None,
            })
            &&& final(buffer)@ == old(buffer)@ + count_text(count_of(step_igrs@[j].all@, index))
        },
{
    let found = find_group(step_igrs, name);
    let j = match found {
        Some(j) => j,
        None => {
            return None;
        },
    };
    let entries = &step_igrs[j].all;
    if entries.len() <= 1 {
        assert(old(buffer)@ + count_text(None) == old(buffer)@);
        return None;
    }
    let mut p: usize = 0;
    while p < entries.len()
        invariant
            0 <= p <= entries@.len(),
            forall|a: int| 0 <= a < p ==> entries@[a] != index,
            j < step_igrs@.len(),
            step_igrs@[j as int].name@ == name@,
            *entries == step_igrs@[j as int].all,
            entries@.len() > 1,
            buffer@ == old(buffer)@,
            forall|a: int, b: int| 0 <= a < b < step_igrs@.len() ==> (#[trigger] step_igrs@[a]).name@
                != (#[trigger] step_igrs@[b]).name@,
        decreases entries@.len() - p,
    {
        if entries[p] == index {
            proof {
                lemma_first_index(entries@, index, p as int);
                assert(entries@.contains(index));
                assert forall|j2: int| 0 <= j2 < step_igrs@.len()
                    && (#[trigger] step_igrs@[j2]).name@ == name@ implies j2 == j by {
                    if j2 < j {
                        assert(step_igrs@[j2].name@ != step_igrs@[j as int].name@);
                    } else if j2 > j {
                        assert(step_igrs@[j as int].name@ != step_igrs@[j2].name@);
                    }
                }
            }
            let pos = p + 1;
            write_subscript(buffer, decimal_text(pos).as_str());
            return Some(pos);
        }
        p = p + 1;
    }
    assert(!entries@.contains(index));
    assert(old(buffer)@ + count_text(None) == old(buffer)@);
    None
}

} // verus!
