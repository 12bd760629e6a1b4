//! The recipe as the renderer reads it: plain values, addressed by index.

use vstd::prelude::*;

verus! {

/// An amount: its value already written out, and an optional unit.
pub struct Quantity {
    pub value: String,
    pub unit: Option<String>,
}

/// What an intermediate reference points back to.
#[derive(Clone, Copy, PartialEq, Eq, Structural)]
pub enum RefTarget {
    Section,
    Step,
}

/// One occurrence of an ingredient in the recipe.
pub struct Ingredient {
    /// Identity key: occurrences with equal names are grouped in a step.
    pub name: String,
    pub display_name: String,
    pub quantity: Option<Quantity>,
    pub note: Option<String>,
    pub optional: bool,
    /// False for occurrences that the ingredient list leaves out.
    pub listed: bool,
    /// Set when the occurrence is the result of an earlier section or step:
    /// the target's index, and its kind.
    pub reference: Option<(usize, RefTarget)>,
}

/// One occurrence of a piece of cookware.
pub struct Cookware {
    pub name: String,
    pub display_name: String,
    pub note: Option<String>,
    pub optional: bool,
    pub listed: bool,
    /// The amounts of this item over the whole recipe, already combined.
    pub amounts: Vec<String>,
}

/// A timer: a duration, a name, or both.
pub struct Timer {
    pub quantity: Option<Quantity>,
    pub name: Option<String>,
}

/// One piece of a step, in reading order.
pub enum Item {
    Text(String),
    Ingredient(usize),
    Cookware(usize),
    Timer(usize),
    InlineQuantity(usize),
}

pub struct Step {
    /// The number shown before the step.
    pub number: usize,
    pub items: Vec<Item>,
}

pub enum Content {
    Step(Step),
    Text(String),
}

pub struct Section {
    pub name: Option<String>,
    pub content: Vec<Content>,
}

pub struct Recipe {
    pub sections: Vec<Section>,
    pub ingredients: Vec<Ingredient>,
    pub cookware: Vec<Cookware>,
    pub timers: Vec<Timer>,
    pub inline_quantities: Vec<Quantity>,
}

/// How scaling went for one entry of the ingredient list.
#[derive(Clone, Copy, PartialEq, Eq, Structural)]
pub enum ScaleOutcome {
    Scaled,
    /// The amount is fixed and could not follow the scale.
    Fixed,
    /// Scaling the amount failed.
    Error,
    NoQuantity,
}

/// An entry of the ingredient list over the whole recipe.
pub struct GroupedIngredient {
    /// The ingredient that stands for the entry.
    pub index: usize,
    pub quantities: Vec<Quantity>,
    pub outcome: ScaleOutcome,
}

impl Timer {
    pub open spec fn wf(&self) -> bool {
        self.quantity.is_some() || self.name.is_some()
    }
}

impl Recipe {
    /// Every index that an item of `step` carries is in range, every timer it
    /// names has a duration or a name, and every step reference of an
    /// ingredient it names points to a step of `section`.
    pub open spec fn step_ok(&self, section: &Section, step: &Step) -> bool {
        forall|k: int| 0 <= k < step.items@.len() ==> #[trigger] self.item_ok(section, step.items@[k])
    }

    pub open spec fn item_ok(&self, section: &Section, item: Item) -> bool {
        match item {
            Item::Text(_) => true,
            Item::Ingredient(i) => i < self.ingredients@.len() && self.ingredient_ref_ok(
                self.ingredients@[i as int],
                section,
            ),
            Item::Cookware(i) => i < self.cookware@.len(),
            Item::Timer(i) => i < self.timers@.len() && self.timers@[i as int].wf(),
            Item::InlineQuantity(i) => i < self.inline_quantities@.len(),
        }
    }

    /// A reference to a section points to a section of the recipe; one to a
    /// step, to a step of the same section.
    pub open spec fn ingredient_ref_ok(&self, igr: Ingredient, section: &Section) -> bool {
        match igr.reference {
            Some((t, RefTarget::Step)) => t < section.content@.len() && section.content@[t as int] is Step,
            Some((t, RefTarget::Section)) => t < self.sections@.len(),
            None => true,
        }
    }

    /// Every step of every section passes `step_ok`.
    pub open spec fn wf(&self) -> bool {
        forall|s: int, c: int|
            0 <= s < self.sections@.len() && 0 <= c < self.sections@[s].content@.len()
                ==> match #[trigger] self.sections@[s].content@[c] {
                Content::Step(st) => self.step_ok(&self.sections@[s], &st),
                Content::Text(_) => true,
            }
    }
}


/// A person or a place: a name, a link, or both.
pub struct NameAndUrl {
    pub name: Option<String>,
    pub url: Option<String>,
}

/// The time a recipe takes, in minutes.
pub enum RecipeTime {
    Total(u32),
    Composed { prep_time: Option<u32>, cook_time: Option<u32> },
}

/// The servings a recipe offers.
pub struct Servings {
    pub values: Vec<String>,
    /// Which value the recipe is scaled to, if any.
    pub selected: Option<usize>,
    /// The servings asked for, where scaling could not reach them exactly.
    pub unmet_target: Option<String>,
}

/// What the recipe says about itself.
pub struct Metadata {
    pub emoji: Option<String>,
    pub tags: Option<Vec<String>>,
    pub description: Option<String>,
    pub author: Option<NameAndUrl>,
    pub source: Option<NameAndUrl>,
    pub time: Option<RecipeTime>,
    pub servings: Option<Servings>,
    /// The other plain entries, in order.
    pub extra: Vec<(String, String)>,
    /// Whether the recipe has no metadata entry at all.
    pub is_empty: bool,
}

} // verus!
