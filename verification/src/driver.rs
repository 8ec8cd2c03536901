//! What the library asks of the world, and what the world reports back.
//!
//! The library touches neither files nor processes. Where a decision needs
//! one of them, it hands out an `Effect`: a thing to do, for whoever drives
//! it. The driver does it and hands back the `Event` that tells how it went.

use crate::runner::store::{Recipe, RecipeView};
use crate::runner::ProcessOutcome;
use vstd::prelude::*;

verus! {

/// A thing to do.
#[derive(Debug)]
pub enum Effect<'a> {
    /// Find out whether anything exists at `path`.
    Probe { path: &'a str },
    /// Make sure that the directory which holds `path` exists.
    CreateParentDirectory { path: &'a str },
    /// Make sure that a file exists at `path`, an empty one if none is there.
    Touch { path: &'a str },
    /// Run the recipe and wait for its end.
    Run { recipe: &'a Recipe },
}

/// A thing to do, as text.
pub ghost enum EffectView {
    Probe { path: Seq<char> },
    CreateParentDirectory { path: Seq<char> },
    Touch { path: Seq<char> },
    Run { recipe: RecipeView },
}

impl<'a> View for Effect<'a> {
    type V = EffectView;

    open spec fn view(&self) -> EffectView {
        match *self {
            Effect::Probe { path } => EffectView::Probe { path: path@ },
            Effect::CreateParentDirectory { path } => EffectView::CreateParentDirectory {
                path: path@,
            },
            Effect::Touch { path } => EffectView::Touch { path: path@ },
            Effect::Run { recipe } => EffectView::Run { recipe: recipe@ },
        }
    }
}

/// A thing to do that may be missing, as text.
pub open spec fn effect_view(effect: Option<Effect>) -> Option<EffectView> {
    match effect {
        Some(found) => Some(found@),
        None => None,
    }
}

/// How a thing that was to be done went.
#[derive(Debug, Clone, Copy, PartialEq, Eq, Structural)]
pub enum Event {
    /// The answer to `Probe`.
    Probed { exists: bool },
    /// The answer to `CreateParentDirectory` and to `Touch`: whether what
    /// was to exist now does.
    Written { done: bool },
    /// The answer to `Run`.
    Ran { outcome: ProcessOutcome },
}

/// Whether an event is an answer to an effect.
pub open spec fn answers(event: Event, effect: EffectView) -> bool {
    match effect {
        EffectView::Probe { .. } => event is Probed,
        EffectView::CreateParentDirectory { .. } => event is Written,
        EffectView::Touch { .. } => event is Written,
        EffectView::Run { .. } => event is Ran,
    }
}

} // verus!
