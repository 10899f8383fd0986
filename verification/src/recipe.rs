//! Recipes: the named configuration bundles a subagent is built from, and
//! the lookup order for resolving a recipe name to file paths.

use vstd::prelude::*;

verus! {

/// Ghost view of a recipe.
pub struct RecipeV {
    pub title: Seq<char>,
    pub instructions: Option<Seq<char>>,
    pub extensions: Option<Seq<Seq<char>>>,
}

/// A recipe document: a title, optional instructions, and the names of the
/// extensions it declares. Loading and parsing the document is the recipe
/// loader's business; this type holds what the core reads of it.
#[derive(Clone, Debug, PartialEq, Eq)]
pub struct Recipe {
    pub title: String,
    pub instructions: Option<String>,
    pub extensions: Option<Vec<String>>,
}

impl View for Recipe {
    type V = RecipeV;

    open spec fn view(&self) -> RecipeV {
        RecipeV {
            title: self.title@,
            instructions: match self.instructions {
                Some(s) => Some(s@),
                None => None,
            },
            extensions: match self.extensions {
                Some(v) => Some(crate::text::texts(v@)),
                None => None,
            },
        }
    }
}

/// Whether `s` ends in `suffix`.
pub open spec fn ends_with_text(s: Seq<char>, suffix: Seq<char>) -> bool {
    s.len() >= suffix.len() && s.subrange(s.len() - suffix.len(), s.len() as int) == suffix
}

/// A recipe name with a recognized recipe-file extension is used verbatim;
/// any other name gets the default extension appended.
pub open spec fn resolved_recipe_file(name: Seq<char>) -> Seq<char> {
    if ends_with_text(name, ".yaml"@) || ends_with_text(name, ".yml"@) {
        name
    } else {
        name + ".yaml"@
    }
}

/// The paths probed for a recipe, in order: the resolved name itself, then
/// under `recipes/`, `./recipes/`, and `../recipes/`.
pub open spec fn candidate_paths(name: Seq<char>) -> Seq<Seq<char>> {
    let file = resolved_recipe_file(name);
    seq![
        file,
        "recipes/"@ + file,
        "./recipes/"@ + file,
        "../recipes/"@ + file,
    ]
}

/// Whether `s` ends in `suffix`, checked character by character.
pub fn str_ends_with(s: &str, suffix: &str) -> (r: bool)
    ensures
        r == ends_with_text(s@, suffix@),
{
    let n = s.unicode_len();
    let m = suffix.unicode_len();
    if n < m {
        return false;
    }
    let mut i: usize = 0;
    while i < m
        invariant
            i <= m,
            m <= n,
            n == s@.len(),
            m == suffix@.len(),
            forall|j: int| 0 <= j < i ==> s@[n - m + j] == suffix@[j],
        decreases m - i,
    {
        if s.get_char(n - m + i) != suffix.get_char(i) {
            assert(s@.subrange(n - m, n as int)[i as int] != suffix@[i as int]);
            return false;
        }
        i = i + 1;
    }
    assert(s@.subrange(n - m, n as int) =~= suffix@);
    true
}

/// The file name a recipe name resolves to.
pub fn recipe_file_name(name: &String) -> (r: String)
    ensures
        r@ == resolved_recipe_file(name@),
{
    if str_ends_with(name.as_str(), ".yaml") || str_ends_with(name.as_str(), ".yml") {
        name.clone()
    } else {
        name.clone().concat(".yaml")
    }
}

/// The paths to probe for a recipe name, in probe order.
pub fn recipe_candidate_paths(name: &String) -> (r: Vec<String>)
    ensures
        crate::text::texts(r@) =~= candidate_paths(name@),
{
    let file = recipe_file_name(name);
    let mut out: Vec<String> = Vec::new();
    out.push(file.clone());
    out.push(String::from_str("recipes/").concat(file.as_str()));
    out.push(String::from_str("./recipes/").concat(file.as_str()));
    out.push(String::from_str("../recipes/").concat(file.as_str()));
    out
}

} // verus!
