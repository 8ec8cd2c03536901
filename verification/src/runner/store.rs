//! The recipes store: where the recipes lie, and what a run of one is told.
//!
//! The recipe for an action on a site is the executable
//! `<root>/<site name>/<action>`. It is run without arguments, and learns of
//! the store and the site from its environment.

use crate::config::{AlkaneConfig, AlkaneConfigView};
use crate::path::{is_separator, join, join_path, separator};
use crate::runner::site::{Site, SiteView};
use crate::text::pairs_view;
use vstd::prelude::*;

verus! {

/// The store of the recipes.
#[derive(Debug)]
pub struct RecipesStore {
    root: String,
    separator: String,
}

/// The store, as text.
pub ghost struct RecipesView {
    pub root: Seq<char>,
    pub separator: Seq<char>,
}

/// A recipe to run: the executable, its arguments, and the variables to add
/// to its environment, each with its value.
#[derive(Debug)]
pub struct Recipe {
    pub command: String,
    pub args: Vec<String>,
    pub environment: Vec<(String, String)>,
}

/// A recipe to run, as text.
pub ghost struct RecipeView {
    pub command: Seq<char>,
    pub args: Seq<Seq<char>>,
    pub environment: Seq<(Seq<char>, Seq<char>)>,
}

impl View for RecipesStore {
    type V = RecipesView;

    closed spec fn view(&self) -> RecipesView {
        RecipesView { root: self.root@, separator: self.separator@ }
    }
}

impl View for Recipe {
    type V = RecipeView;

    open spec fn view(&self) -> RecipeView {
        RecipeView {
            command: self.command@,
            args: Seq::new(self.args@.len(), |i: int| self.args@[i]@),
            environment: pairs_view(self.environment@),
        }
    }
}

impl RecipesView {
    /// The store that a configuration points to, where it names one.
    pub open spec fn of_config(config: AlkaneConfigView) -> Option<RecipesView> {
        match config.root("recipes"@) {
            Some(root) => Some(RecipesView { root, separator: config.separator }),
            None => None,
        }
    }

    /// The executable for an action on a site.
    pub open spec fn recipe_path(self, site_name: Seq<char>, action: Seq<char>) -> Seq<char> {
        join_path(join_path(self.root, site_name, self.separator), action, self.separator)
    }

    /// What a recipe is told through its environment: the root of the
    /// store, the name and the directory of the site and, where the site
    /// has one, its context.
    pub open spec fn environment(self, site: SiteView) -> Seq<(Seq<char>, Seq<char>)> {
        let always = seq![
            ("ALKANE_RECIPES_PATH"@, self.root),
            ("ALKANE_SITE_NAME"@, site.name),
            ("ALKANE_SITE_PATH"@, site.path),
        ];
        match site.context {
            Some(context) => always.push(("ALKANE_SITE_CONTEXT"@, context)),
            None => always,
        }
    }

    /// The recipe for an action on a site.
    pub open spec fn recipe(self, site: SiteView, action: Seq<char>) -> RecipeView {
        RecipeView {
            command: self.recipe_path(site.name, action),
            args: Seq::<Seq<char>>::empty(),
            environment: self.environment(site),
        }
    }
}

impl RecipesStore {
    /// The store below `root`. Paths are parted as the machine that
    /// runs this parts them: by `/` or by `\`.
    pub fn new(root: &str) -> (store: Self)
        ensures
            store@.root == root@,
            is_separator(store@.separator),
    {
        let separator = separator();
        Self::with_separator(root, separator.as_str())
    }

    /// The store below `root`, whose paths are parted by the given
    /// separator.
    pub fn with_separator(root: &str, separator: &str) -> (store: Self)
        ensures
            store@ == (RecipesView { root: root@, separator: separator@ }),
    {
        RecipesStore { root: String::from_str(root), separator: String::from_str(separator) }
    }

    /// The store that the configuration points to. Its paths are parted as
    /// those of the configuration are.
    pub fn from_config(config: &AlkaneConfig) -> (store: Option<Self>)
        ensures
            store is Some == RecipesView::of_config(config@) is Some,
            store matches Some(found) ==> Some(found@) == RecipesView::of_config(config@),
    {
        match config.get_root("recipes") {
            Some(root) => Some(RecipesStore { root, separator: config.separator() }),
            None => None,
        }
    }

    /// The executable for an action on a site.
    pub fn get_recipe_path(&self, site_name: &str, action: &str) -> (path: String)
        ensures
            path@ == self@.recipe_path(site_name@, action@),
    {
        let directory = join(self.root.as_str(), site_name, self.separator.as_str());
        join(directory.as_str(), action, self.separator.as_str())
    }

    /// The recipe for an action on a site: the executable, no argument, and
    /// the environment that tells of the store and the site.
    pub fn run_recipe(&self, site: &Site, action: &str) -> (recipe: Recipe)
        ensures
            recipe@ == self@.recipe(site@, action@),
    {
        let command = self.get_recipe_path(site.name.as_str(), action);
        let environment = self.get_environment(site);
        let recipe = Recipe { command, args: Vec::new(), environment };
        assert(recipe@.args =~= Seq::<Seq<char>>::empty());
        recipe
    }

    /// What a recipe is told through its environment.
    pub fn get_environment(&self, site: &Site) -> (environment: Vec<(String, String)>)
        ensures
            pairs_view(environment@) == self@.environment(site@),
    {
        let mut environment: Vec<(String, String)> = Vec::new();
        environment.push((String::from_str("ALKANE_RECIPES_PATH"), self.root.clone()));
        environment.push((String::from_str("ALKANE_SITE_NAME"), site.name.clone()));
        environment.push((String::from_str("ALKANE_SITE_PATH"), site.path.clone()));
        match &site.context {
            Some(context) => {
                environment.push((String::from_str("ALKANE_SITE_CONTEXT"), context.clone()));
            },
            None => {},
        }
        assert(pairs_view(environment@) =~= self@.environment(site@));
        environment
    }
}

} // verus!
