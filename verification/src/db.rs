//! The database: which sites have been initialized.
//!
//! A site is recorded as initialized by a marker, the file
//! `<root>/initialized/<site name>`. That the file is there is all that the
//! record holds. Looking a marker up and setting it are tasks: each tells
//! the driver what to do next, and takes what came of it.

use crate::config::{AlkaneConfig, AlkaneConfigView};
use crate::driver::{answers, effect_view, Effect, EffectView, Event};
use crate::path::{is_separator, join, join_path, separator};
use vstd::prelude::*;

verus! {

/// The database.
#[derive(Debug)]
pub struct Database {
    root: String,
    separator: String,
}

/// The database, as text.
pub ghost struct DatabaseView {
    pub root: Seq<char>,
    pub separator: Seq<char>,
}

impl View for Database {
    type V = DatabaseView;

    closed spec fn view(&self) -> DatabaseView {
        DatabaseView { root: self.root@, separator: self.separator@ }
    }
}

impl DatabaseView {
    /// The database that a configuration points to, where it names one.
    pub open spec fn of_config(config: AlkaneConfigView) -> Option<DatabaseView> {
        match config.root("db"@) {
            Some(root) => Some(DatabaseView { root, separator: config.separator }),
            None => None,
        }
    }

    /// The marker of a site.
    pub open spec fn initialized_path(self, site_name: Seq<char>) -> Seq<char> {
        join_path(join_path(self.root, "initialized"@, self.separator), site_name, self.separator)
    }
}

/// A task on a marker, and how far it has come.
#[derive(Debug)]
pub enum MarkerTask {
    /// To tell whether the marker is there: it has to be probed.
    Looking { path: String },
    /// To set the marker: it has to be probed first.
    Probing { path: String },
    /// To set the marker: it was not there, its directory has to be made.
    Preparing { path: String },
    /// To set the marker: its directory is there, the file has to be made.
    Creating { path: String },
    /// The task is over. For a look-up `value` tells whether the marker is
    /// there, for a setting whether it now is.
    Done { value: bool },
}

/// A task on a marker, as text.
pub ghost enum MarkerTaskView {
    Looking { path: Seq<char> },
    Probing { path: Seq<char> },
    Preparing { path: Seq<char> },
    Creating { path: Seq<char> },
    Done { value: bool },
}

impl View for MarkerTask {
    type V = MarkerTaskView;

    open spec fn view(&self) -> MarkerTaskView {
        match *self {
            MarkerTask::Looking { path } => MarkerTaskView::Looking { path: path@ },
            MarkerTask::Probing { path } => MarkerTaskView::Probing { path: path@ },
            MarkerTask::Preparing { path } => MarkerTaskView::Preparing { path: path@ },
            MarkerTask::Creating { path } => MarkerTaskView::Creating { path: path@ },
            MarkerTask::Done { value } => MarkerTaskView::Done { value },
        }
    }
}

impl MarkerTaskView {
    /// What the driver has to do next; nothing when the task is over.
    pub open spec fn effect(self) -> Option<EffectView> {
        match self {
            MarkerTaskView::Looking { path } => Some(EffectView::Probe { path }),
            MarkerTaskView::Probing { path } => Some(EffectView::Probe { path }),
            MarkerTaskView::Preparing { path } => Some(
                EffectView::CreateParentDirectory { path },
            ),
            MarkerTaskView::Creating { path } => Some(EffectView::Touch { path }),
            MarkerTaskView::Done { .. } => None,
        }
    }

    /// The task after an event. A look-up ends with what the probe found. A
    /// setting ends at once, and well, where the marker is there already;
    /// else the directory is made, then the file, and the setting ends well
    /// if both could be made and badly as soon as one could not. An event
    /// that answers nothing the task has asked changes nothing.
    pub open spec fn step(self, event: Event) -> MarkerTaskView {
        match (self, event) {
            (MarkerTaskView::Looking { .. }, Event::Probed { exists }) => MarkerTaskView::Done {
                value: exists,
            },
            (MarkerTaskView::Probing { path }, Event::Probed { exists }) => if exists {
                MarkerTaskView::Done { value: true }
            } else {
                MarkerTaskView::Preparing { path }
            },
            (MarkerTaskView::Preparing { path }, Event::Written { done }) => if done {
                MarkerTaskView::Creating { path }
            } else {
                MarkerTaskView::Done { value: false }
            },
            (MarkerTaskView::Creating { .. }, Event::Written { done }) => MarkerTaskView::Done {
                value: done,
            },
            _ => self,
        }
    }

    /// The task is one of setting a marker, and not over.
    pub open spec fn is_setting(self) -> bool {
        self is Probing || self is Preparing || self is Creating
    }

    /// How many answers the task may still need.
    pub open spec fn steps_left(self) -> nat {
        match self {
            MarkerTaskView::Looking { .. } => 1,
            MarkerTaskView::Probing { .. } => 3,
            MarkerTaskView::Preparing { .. } => 2,
            MarkerTaskView::Creating { .. } => 1,
            MarkerTaskView::Done { .. } => 0,
        }
    }
}

impl Database {
    /// The database below `root`. Paths are parted as the machine that
    /// runs this parts them: by `/` or by `\`.
    pub fn new(root: &str) -> (db: Self)
        ensures
            db@.root == root@,
            is_separator(db@.separator),
    {
        let separator = separator();
        Self::with_separator(root, separator.as_str())
    }

    /// The database below `root`, whose paths are parted by the given
    /// separator.
    pub fn with_separator(root: &str, separator: &str) -> (db: Self)
        ensures
            db@ == (DatabaseView { root: root@, separator: separator@ }),
    {
        Database { root: String::from_str(root), separator: String::from_str(separator) }
    }

    /// The database that the configuration points to. Its paths are parted
    /// as those of the configuration are.
    pub fn from_config(config: &AlkaneConfig) -> (db: Option<Self>)
        ensures
            db is Some == DatabaseView::of_config(config@) is Some,
            db matches Some(found) ==> Some(found@) == DatabaseView::of_config(config@),
    {
        match config.get_root("db") {
            Some(root) => Some(Database { root, separator: config.separator() }),
            None => None,
        }
    }

    /// The task of telling whether a site has been initialized: its marker
    /// has to be probed.
    pub fn is_initialized(&self, site_name: &str) -> (task: MarkerTask)
        ensures
            task@ == (MarkerTaskView::Looking { path: self@.initialized_path(site_name@) }),
    {
        MarkerTask::Looking { path: self.get_initialized_path(site_name) }
    }

    /// The task of recording a site as initialized: its marker has to be
    /// probed, and made if it is not there.
    pub fn set_initialized(&self, site_name: &str) -> (task: MarkerTask)
        ensures
            task@ == (MarkerTaskView::Probing { path: self@.initialized_path(site_name@) }),
    {
        MarkerTask::Probing { path: self.get_initialized_path(site_name) }
    }

    /// The marker of a site.
    pub fn get_initialized_path(&self, site_name: &str) -> (path: String)
        ensures
            path@ == self@.initialized_path(site_name@),
    {
        let directory = join(self.root.as_str(), "initialized", self.separator.as_str());
        join(directory.as_str(), site_name, self.separator.as_str())
    }
}

impl MarkerTask {
    /// What the driver has to do next; nothing when the task is over.
    pub fn effect(&self) -> (effect: Option<Effect<'_>>)
        ensures
            effect_view(effect) == self@.effect(),
    {
        match self {
            MarkerTask::Looking { path } => Some(Effect::Probe { path: path.as_str() }),
            MarkerTask::Probing { path } => Some(Effect::Probe { path: path.as_str() }),
            MarkerTask::Preparing { path } => Some(
                Effect::CreateParentDirectory { path: path.as_str() },
            ),
            MarkerTask::Creating { path } => Some(Effect::Touch { path: path.as_str() }),
            MarkerTask::Done { .. } => None,
        }
    }

    /// The task after an event.
    pub fn step(self, event: Event) -> (next: MarkerTask)
        ensures
            next@ == self@.step(event),
    {
        match self {
            MarkerTask::Looking { path } => match event {
                Event::Probed { exists } => MarkerTask::Done { value: exists },
                _ => MarkerTask::Looking { path },
            },
            MarkerTask::Probing { path } => match event {
                Event::Probed { exists } => if exists {
                    MarkerTask::Done { value: true }
                } else {
                    MarkerTask::Preparing { path }
                },
                _ => MarkerTask::Probing { path },
            },
            MarkerTask::Preparing { path } => match event {
                Event::Written { done } => if done {
                    MarkerTask::Creating { path }
                } else {
                    MarkerTask::Done { value: false }
                },
                _ => MarkerTask::Preparing { path },
            },
            MarkerTask::Creating { path } => match event {
                Event::Written { done } => MarkerTask::Done { value: done },
                _ => MarkerTask::Creating { path },
            },
            MarkerTask::Done { value } => MarkerTask::Done { value },
        }
    }

    /// What the task found or did, once it is over.
    pub fn result(&self) -> (value: Option<bool>)
        ensures
            value == match self@ {
                MarkerTaskView::Done { value } => Some(value),
                _ => None::<bool>,
            },
    {
        match self {
            MarkerTask::Done { value } => Some(*value),
            _ => None,
        }
    }
}

/// Looking a marker up probes it and ends with what the probe found: with
/// `false` where nothing is there, with `true` where something is.
pub proof fn lemma_lookup(db: DatabaseView, site_name: Seq<char>, exists: bool)
    ensures
        ({
            let path = db.initialized_path(site_name);
            let task = MarkerTaskView::Looking { path };
            &&& task.effect() == Some(EffectView::Probe { path })
            &&& task.step(Event::Probed { exists }) == (MarkerTaskView::Done { value: exists })
        }),
{
}

/// Setting a marker probes the very path that a look-up probes. Where the
/// marker is there, the setting ends well and asks for nothing more: done
/// again, it changes nothing. Where it is not there, the setting has the
/// directory made and then the file, at that path, and ends well if both
/// could be made; a later look-up then finds the file. It ends badly, and
/// asks for nothing more, as soon as one of the two could not be made.
pub proof fn lemma_setting(db: DatabaseView, site_name: Seq<char>)
    ensures
        ({
            let path = db.initialized_path(site_name);
            let task = MarkerTaskView::Probing { path };
            let absent = task.step(Event::Probed { exists: false });
            let prepared = absent.step(Event::Written { done: true });
            &&& task.effect() == Some(EffectView::Probe { path })
            &&& task.step(Event::Probed { exists: true }) == (MarkerTaskView::Done { value: true })
            &&& absent.effect() == Some(EffectView::CreateParentDirectory { path })
            &&& absent.step(Event::Written { done: false }) == (MarkerTaskView::Done {
                value: false,
            })
            &&& prepared.effect() == Some(EffectView::Touch { path })
            &&& prepared.step(Event::Written { done: true }) == (MarkerTaskView::Done {
                value: true,
            })
            &&& prepared.step(Event::Written { done: false }) == (MarkerTaskView::Done {
                value: false,
            })
        }),
{
}

/// A task asks for something until it is over, and every answer to what it
/// asks brings it nearer to its end: after three answers at most it is over.
pub proof fn lemma_marker_task_ends(task: MarkerTaskView, event: Event)
    ensures
        task.effect() is None <==> task is Done,
        task.steps_left() <= 3,
        task.effect() matches Some(effect) && answers(event, effect) ==> task.step(
            event,
        ).steps_left() < task.steps_left(),
{
}

} // verus!
