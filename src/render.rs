//! The whole document.

use vstd::prelude::*;
use crate::document::{steps, steps_output};
use crate::header::{header, header_output};
use crate::metadata::{metadata, metadata_output};
use crate::model::{GroupedIngredient, Metadata, Recipe};
use crate::style::CookStyles;
use crate::tables::{cookware, cookware_output, ingredients, ingredients_output};
use crate::wrap::lines_of;

verus! {

/// The lines of the document: header, metadata, ingredients, cookware and
/// steps, in that order.
pub open spec fn document_output(
    recipe: &Recipe,
    meta: Metadata,
    grouped: Seq<GroupedIngredient>,
    name: Seq<char>,
    styles: CookStyles,
    width: usize,
) -> Seq<Seq<char>> {
    header_output(meta, name, styles, width) + metadata_output(meta, styles, width)
        + ingredients_output(recipe, styles, grouped) + cookware_output(recipe) + steps_output(recipe, styles, width)
}

/// Renders the recipe called `name` for a terminal `width` columns wide, as
/// lines; `grouped` is its ingredient list over the whole recipe.
pub fn print_human(
    recipe: &Recipe,
    meta: &Metadata,
    grouped: &Vec<GroupedIngredient>,
    name: &str,
    styles: &CookStyles,
    width: usize,
) -> (r: Vec<String>)
    requires
        recipe.wf(),
        forall|k: int| 0 <= k < grouped@.len() ==> (#[trigger] grouped@[k]).index < recipe.ingredients@.len(),
    ensures
        lines_of(r@) == document_output(recipe, *meta, grouped@, name@, *styles, width),
{
    let mut out: Vec<String> = Vec::new();
    header(&mut out, meta, name, styles, width);
    metadata(&mut out, meta, styles, width);
    ingredients(&mut out, recipe, grouped, styles);
    cookware(&mut out, recipe);
    steps(&mut out, recipe, styles, width);
    assert(lines_of(out@) =~= document_output(recipe, *meta, grouped@, name@, *styles, width));
    out
}

} // verus!
