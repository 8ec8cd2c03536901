//! A site: what a recipe is told about what it deploys.

use vstd::prelude::*;

verus! {

/// A site to deploy.
pub struct Site {
    /// The name of the site, a fully qualified domain name.
    pub name: String,
    /// The directory of the site.
    pub path: String,
    /// What the caller wants the recipe to know of this build; handed on as
    /// it is.
    pub context: Option<String>,
}

/// A site, as text.
pub ghost struct SiteView {
    pub name: Seq<char>,
    pub path: Seq<char>,
    pub context: Option<Seq<char>>,
}

/// The characters of a string that may be missing.
pub open spec fn option_view(text: Option<String>) -> Option<Seq<char>> {
    match text {
        Some(s) => Some(s@),
        None => None,
    }
}

impl View for Site {
    type V = SiteView;

    open spec fn view(&self) -> SiteView {
        SiteView { name: self.name@, path: self.path@, context: option_view(self.context) }
    }
}

} // verus!
