//! Deployments: which recipe a site needs, and what follows from its end.
//!
//! A site that has not been initialized is initialized, one that has been is
//! updated. A deployment first finds out which of the two it is to be,
//! unless the caller has said so, then has the recipe run, and records the
//! site as initialized when the recipe that initializes it has succeeded.
//!
//! A deployment is a value that goes through these stages. At each stage it
//! tells the driver what to do, and the driver hands back what came of it.

use crate::config::{AlkaneConfig, AlkaneConfigView};
use crate::db::{Database, DatabaseView, MarkerTask, MarkerTaskView};
use crate::deploy::{AlkaneDeployError, AlkaneDeployErrorView, DeployError, DeployErrorView};
use crate::driver::{answers, effect_view, Effect, EffectView, Event};
use crate::runner::site::option_view;
use crate::runner::store::{Recipe, RecipeView, RecipesStore, RecipesView};
use crate::runner::{status_of_outcome, ProcessOutcome, RecipeStatus};
use crate::services::tld::SuffixTable;
use vstd::prelude::*;

verus! {

/// What a deployment does to a site.
#[derive(Debug, Clone, Copy, PartialEq, Eq, Structural)]
pub enum DeploymentAction {
    /// The site is set up for the first time.
    Init,
    /// The site is brought up to date.
    Update,
}

/// The name of an action, which is also the name of its recipe.
pub open spec fn action_name(action: DeploymentAction) -> Seq<char> {
    match action {
        DeploymentAction::Init => "init"@,
        DeploymentAction::Update => "update"@,
    }
}

/// The action that a site needs: an update where its marker is there, else
/// its initialization.
pub open spec fn action_for(initialized: bool) -> DeploymentAction {
    if initialized {
        DeploymentAction::Update
    } else {
        DeploymentAction::Init
    }
}

impl DeploymentAction {
    /// The name of the action.
    pub fn name(&self) -> (name: &'static str)
        ensures
            name@ == action_name(*self),
    {
        match self {
            DeploymentAction::Init => "init",
            DeploymentAction::Update => "update",
        }
    }

    /// The action that a site needs.
    pub fn needed(initialized: bool) -> (action: DeploymentAction)
        ensures
            action == action_for(initialized),
    {
        if initialized {
            DeploymentAction::Update
        } else {
            DeploymentAction::Init
        }
    }
}

/// What an action on a site comes to before anything is run: the recipe to
/// run and the task that records the site, or the reason why there is none.
#[derive(Debug)]
pub enum Launch {
    Ready { recipe: Recipe, record: MarkerTask },
    Refused { error: DeployError },
}

/// A launch, as text.
pub ghost enum LaunchView {
    Ready { recipe: RecipeView, record: MarkerTaskView },
    Refused { error: DeployErrorView },
}

impl View for Launch {
    type V = LaunchView;

    open spec fn view(&self) -> LaunchView {
        match *self {
            Launch::Ready { recipe, record } => LaunchView::Ready {
                recipe: recipe@,
                record: record@,
            },
            Launch::Refused { error } => LaunchView::Refused { error: error@ },
        }
    }
}

impl LaunchView {
    /// A launch in good order records its site by a task that sets a
    /// marker and has not begun. The launches that this module hands out
    /// are in good order.
    pub open spec fn wf(self) -> bool {
        match self {
            LaunchView::Ready { record, .. } => record is Probing,
            LaunchView::Refused { .. } => true,
        }
    }
}

/// The launch that is refused for the given reason.
pub open spec fn refusal(
    message: Seq<char>,
    site_name: Seq<char>,
    action: DeploymentAction,
) -> LaunchView {
    LaunchView::Refused {
        error: DeployErrorView::Alkane(
            AlkaneDeployErrorView { message, site_name, action: action_name(action) },
        ),
    }
}

/// The launch of an action on a site. It is refused where the
/// configuration names no database or no recipes store, and where the
/// directory of the site cannot be told, in that order. Else it holds the
/// recipe of the action for the site, and the task of setting the marker
/// of the site.
pub open spec fn launch_of(
    config: AlkaneConfigView,
    suffixes: Seq<Seq<char>>,
    site_name: Seq<char>,
    context: Option<Seq<char>>,
    action: DeploymentAction,
) -> LaunchView {
    match DatabaseView::of_config(config) {
        None => refusal("Can't initialize database"@, site_name, action),
        Some(db) => match RecipesView::of_config(config) {
            None => refusal("Can't initialize recipes store"@, site_name, action),
            Some(recipes) => match config.site(suffixes, site_name, context) {
                None => refusal("Can't resolve site path"@, site_name, action),
                Some(site) => LaunchView::Ready {
                    recipe: recipes.recipe(site, action_name(action)),
                    record: MarkerTaskView::Probing { path: db.initialized_path(site.name) },
                },
            },
        },
    }
}

/// The look-up that tells whether a site is present: that of its marker,
/// which is over at once, with `false`, where the configuration names no
/// database.
pub open spec fn presence_of(config: AlkaneConfigView, site_name: Seq<char>) -> MarkerTaskView {
    match DatabaseView::of_config(config) {
        Some(db) => MarkerTaskView::Looking { path: db.initialized_path(site_name) },
        None => MarkerTaskView::Done { value: false },
    }
}

/// A deployment, and how far it has come.
#[derive(Debug)]
pub enum Deployment {
    /// The marker of the site is being looked up, to choose the action.
    Choosing { lookup: MarkerTask, absent: Launch, present: Launch },
    /// The recipe has to be run.
    Running { action: DeploymentAction, recipe: Recipe, record: MarkerTask },
    /// The recipe has initialized the site, which is being recorded.
    Recording { status: RecipeStatus, record: MarkerTask },
    /// The deployment is over: with the status of the recipe, or with the
    /// reason why none was run.
    Finished { result: Result<RecipeStatus, DeployError> },
}

/// A deployment, as text.
pub ghost enum DeploymentView {
    Choosing { lookup: MarkerTaskView, absent: LaunchView, present: LaunchView },
    Running { action: DeploymentAction, recipe: RecipeView, record: MarkerTaskView },
    Recording { status: RecipeStatus, record: MarkerTaskView },
    Finished { result: Result<RecipeStatus, DeployErrorView> },
}

/// The end of a deployment, as text.
pub open spec fn result_view(result: Result<RecipeStatus, DeployError>) -> Result<
    RecipeStatus,
    DeployErrorView,
> {
    match result {
        Ok(status) => Ok(status),
        Err(error) => Err(error@),
    }
}

impl View for Deployment {
    type V = DeploymentView;

    open spec fn view(&self) -> DeploymentView {
        match *self {
            Deployment::Choosing { lookup, absent, present } => DeploymentView::Choosing {
                lookup: lookup@,
                absent: absent@,
                present: present@,
            },
            Deployment::Running { action, recipe, record } => DeploymentView::Running {
                action,
                recipe: recipe@,
                record: record@,
            },
            Deployment::Recording { status, record } => DeploymentView::Recording {
                status,
                record: record@,
            },
            Deployment::Finished { result } => DeploymentView::Finished {
                result: result_view(result),
            },
        }
    }
}

impl DeploymentView {
    /// The deployment that a launch begins: it runs the recipe, or is over
    /// at once with the reason for which the launch was refused.
    pub open spec fn start(action: DeploymentAction, launch: LaunchView) -> DeploymentView {
        match launch {
            LaunchView::Ready { recipe, record } => DeploymentView::Running {
                action,
                recipe,
                record,
            },
            LaunchView::Refused { error } => DeploymentView::Finished { result: Err(error) },
        }
    }

    /// The deployment that chooses its action by a look-up: as soon as the
    /// look-up is over, it begins the update where the marker is there, and
    /// the initialization where it is not.
    pub open spec fn decide(
        lookup: MarkerTaskView,
        absent: LaunchView,
        present: LaunchView,
    ) -> DeploymentView {
        match lookup {
            MarkerTaskView::Done { value } => if value {
                Self::start(DeploymentAction::Update, present)
            } else {
                Self::start(DeploymentAction::Init, absent)
            },
            _ => DeploymentView::Choosing { lookup, absent, present },
        }
    }

    /// The deployment that records its site: it is over, with the status
    /// of the recipe, as soon as the record is, however the record ended.
    pub open spec fn settle(status: RecipeStatus, record: MarkerTaskView) -> DeploymentView {
        match record {
            MarkerTaskView::Done { .. } => DeploymentView::Finished { result: Ok(status) },
            _ => DeploymentView::Recording { status, record },
        }
    }

    /// The deployment after the recipe has ended: the site is recorded
    /// where the recipe was to initialize it and has succeeded; else the
    /// deployment is over, with the status of the recipe.
    pub open spec fn after_run(
        action: DeploymentAction,
        status: RecipeStatus,
        record: MarkerTaskView,
    ) -> DeploymentView {
        if action == DeploymentAction::Init && status == RecipeStatus::Success {
            Self::settle(status, record)
        } else {
            DeploymentView::Finished { result: Ok(status) }
        }
    }

    /// The deployment after an event. An event that answers nothing the
    /// deployment has asked changes nothing.
    pub open spec fn step(self, event: Event) -> DeploymentView {
        match self {
            DeploymentView::Choosing { lookup, absent, present } => Self::decide(
                lookup.step(event),
                absent,
                present,
            ),
            DeploymentView::Running { action, recipe, record } => match event {
                Event::Ran { outcome } => Self::after_run(
                    action,
                    status_of_outcome(outcome),
                    record,
                ),
                _ => self,
            },
            DeploymentView::Recording { status, record } => Self::settle(
                status,
                record.step(event),
            ),
            DeploymentView::Finished { .. } => self,
        }
    }

    /// What the driver has to do next; nothing when the deployment is over.
    pub open spec fn effect(self) -> Option<EffectView> {
        match self {
            DeploymentView::Choosing { lookup, .. } => lookup.effect(),
            DeploymentView::Running { recipe, .. } => Some(EffectView::Run { recipe }),
            DeploymentView::Recording { record, .. } => record.effect(),
            DeploymentView::Finished { .. } => None,
        }
    }

    /// A deployment in good order chooses by a look-up that is not over,
    /// and records by a task that sets a marker and is not over. The
    /// deployments that this module hands out are in good order, and stay
    /// so.
    pub open spec fn wf(self) -> bool {
        match self {
            DeploymentView::Choosing { lookup, absent, present } => lookup is Looking
                && absent.wf() && present.wf(),
            DeploymentView::Running { record, .. } => record.is_setting(),
            DeploymentView::Recording { record, .. } => record.is_setting(),
            DeploymentView::Finished { .. } => true,
        }
    }

    /// How many answers the deployment may still need.
    pub open spec fn steps_left(self) -> nat {
        match self {
            DeploymentView::Choosing { lookup, .. } => lookup.steps_left() + 4,
            DeploymentView::Running { .. } => 4,
            DeploymentView::Recording { record, .. } => record.steps_left(),
            DeploymentView::Finished { .. } => 0,
        }
    }
}

/// What the action comes to for the site, before anything is run.
pub fn run_deployment_action(
    site_name: &str,
    context: Option<String>,
    config: &AlkaneConfig,
    suffixes: &SuffixTable,
    action: DeploymentAction,
) -> (launch: Launch)
    ensures
        launch@ == launch_of(config@, suffixes@, site_name@, option_view(context), action),
        launch@.wf(),
{
    let db = match Database::from_config(config) {
        Some(db) => db,
        None => {
            return refuse("Can't initialize database", site_name, action);
        },
    };
    let recipes = match RecipesStore::from_config(config) {
        Some(recipes) => recipes,
        None => {
            return refuse("Can't initialize recipes store", site_name, action);
        },
    };
    let site = match config.get_site(site_name, context, suffixes) {
        Some(site) => site,
        None => {
            return refuse("Can't resolve site path", site_name, action);
        },
    };
    let recipe = recipes.run_recipe(&site, action.name());
    let record = db.set_initialized(site.name.as_str());
    Launch::Ready { recipe, record }
}

/// The launch that is refused for the given reason.
fn refuse(message: &str, site_name: &str, action: DeploymentAction) -> (launch: Launch)
    ensures
        launch@ == refusal(message@, site_name@, action),
{
    Launch::Refused {
        error: DeployError::Alkane(AlkaneDeployError::new(message, site_name, action.name())),
    }
}

/// A copy of a context.
fn copy_context(context: &Option<String>) -> (copy: Option<String>)
    ensures
        option_view(copy) == option_view(*context),
{
    match context {
        Some(text) => Some(text.clone()),
        None => None,
    }
}

/// The deployment that initializes the site, whether or not it has been
/// initialized before.
pub fn initialize(
    site_name: &str,
    context: Option<String>,
    config: &AlkaneConfig,
    suffixes: &SuffixTable,
) -> (deployment: Deployment)
    ensures
        deployment@ == DeploymentView::start(
            DeploymentAction::Init,
            launch_of(
                config@,
                suffixes@,
                site_name@,
                option_view(context),
                DeploymentAction::Init,
            ),
        ),
        deployment@.wf(),
{
    Deployment::start(
        DeploymentAction::Init,
        run_deployment_action(site_name, context, config, suffixes, DeploymentAction::Init),
    )
}

/// The deployment that updates the site, whether or not it has been
/// initialized.
pub fn update(
    site_name: &str,
    context: Option<String>,
    config: &AlkaneConfig,
    suffixes: &SuffixTable,
) -> (deployment: Deployment)
    ensures
        deployment@ == DeploymentView::start(
            DeploymentAction::Update,
            launch_of(
                config@,
                suffixes@,
                site_name@,
                option_view(context),
                DeploymentAction::Update,
            ),
        ),
        deployment@.wf(),
{
    Deployment::start(
        DeploymentAction::Update,
        run_deployment_action(site_name, context, config, suffixes, DeploymentAction::Update),
    )
}

/// The deployment that initializes the site if it has not been
/// initialized, and updates it if it has.
pub fn deploy(
    site_name: &str,
    context: Option<String>,
    config: &AlkaneConfig,
    suffixes: &SuffixTable,
) -> (deployment: Deployment)
    ensures
        deployment@ == DeploymentView::decide(
            presence_of(config@, site_name@),
            launch_of(
                config@,
                suffixes@,
                site_name@,
                option_view(context),
                DeploymentAction::Init,
            ),
            launch_of(
                config@,
                suffixes@,
                site_name@,
                option_view(context),
                DeploymentAction::Update,
            ),
        ),
        deployment@.wf(),
{
    let lookup = is_present(site_name, config);
    let again = copy_context(&context);
    let absent = run_deployment_action(
        site_name,
        context,
        config,
        suffixes,
        DeploymentAction::Init,
    );
    let present = run_deployment_action(
        site_name,
        again,
        config,
        suffixes,
        DeploymentAction::Update,
    );
    Deployment::decide(lookup, absent, present)
}

/// The look-up that tells whether the site is present: whether it has been
/// initialized. It is over at once, with `false`, where the configuration
/// names no database.
pub fn is_present(site_name: &str, config: &AlkaneConfig) -> (lookup: MarkerTask)
    ensures
        lookup@ == presence_of(config@, site_name@),
{
    match Database::from_config(config) {
        Some(db) => db.is_initialized(site_name),
        None => MarkerTask::Done { value: false },
    }
}

impl Deployment {
    /// The deployment that a launch begins.
    pub fn start(action: DeploymentAction, launch: Launch) -> (deployment: Deployment)
        ensures
            deployment@ == DeploymentView::start(action, launch@),
            launch@.wf() ==> deployment@.wf(),
    {
        match launch {
            Launch::Ready { recipe, record } => Deployment::Running { action, recipe, record },
            Launch::Refused { error } => Deployment::Finished { result: Err(error) },
        }
    }

    /// The deployment that chooses its action by a look-up.
    pub fn decide(lookup: MarkerTask, absent: Launch, present: Launch) -> (deployment: Deployment)
        ensures
            deployment@ == DeploymentView::decide(lookup@, absent@, present@),
            (lookup@ is Looking || lookup@ is Done) && absent@.wf() && present@.wf()
                ==> deployment@.wf(),
    {
        match lookup.result() {
            Some(initialized) => if initialized {
                Deployment::start(DeploymentAction::Update, present)
            } else {
                Deployment::start(DeploymentAction::Init, absent)
            },
            None => Deployment::Choosing { lookup, absent, present },
        }
    }

    /// The deployment that records its site.
    fn settle(status: RecipeStatus, record: MarkerTask) -> (deployment: Deployment)
        ensures
            deployment@ == DeploymentView::settle(status, record@),
            record@.is_setting() || record@ is Done ==> deployment@.wf(),
    {
        match record.result() {
            Some(_) => Deployment::Finished { result: Ok(status) },
            None => Deployment::Recording { status, record },
        }
    }

    /// What the driver has to do next; nothing when the deployment is over.
    pub fn effect(&self) -> (effect: Option<Effect<'_>>)
        ensures
            effect_view(effect) == self@.effect(),
    {
        match self {
            Deployment::Choosing { lookup, .. } => lookup.effect(),
            Deployment::Running { recipe, .. } => Some(Effect::Run { recipe }),
            Deployment::Recording { record, .. } => record.effect(),
            Deployment::Finished { .. } => None,
        }
    }

    /// The deployment after an event.
    pub fn step(self, event: Event) -> (next: Deployment)
        ensures
            next@ == self@.step(event),
            self@.wf() ==> next@.wf(),
    {
        match self {
            Deployment::Choosing { lookup, absent, present } => Deployment::decide(
                lookup.step(event),
                absent,
                present,
            ),
            Deployment::Running { action, recipe, record } => match event {
                Event::Ran { outcome } => {
                    let status = RecipeStatus::from_outcome(outcome);
                    if action == DeploymentAction::Init && status == RecipeStatus::Success {
                        Deployment::settle(status, record)
                    } else {
                        Deployment::Finished { result: Ok(status) }
                    }
                },
                _ => Deployment::Running { action, recipe, record },
            },
            Deployment::Recording { status, record } => Deployment::settle(
                status,
                record.step(event),
            ),
            Deployment::Finished { result } => Deployment::Finished { result },
        }
    }

    /// Whether the deployment is over.
    pub fn is_finished(&self) -> (over: bool)
        ensures
            over == self@ is Finished,
    {
        match self {
            Deployment::Finished { .. } => true,
            _ => false,
        }
    }

    /// How the deployment ended, once it is over.
    pub fn into_result(self) -> (end: Option<Result<RecipeStatus, DeployError>>)
        ensures
            match end {
                Some(result) => self@ == (DeploymentView::Finished {
                    result: result_view(result),
                }),
                None => !(self@ is Finished),
            },
    {
        match self {
            Deployment::Finished { result } => Some(result),
            _ => None,
        }
    }
}

/// A deployment in good order asks for something until it is over, and
/// every answer to what it asks brings it nearer to its end: after five
/// answers at most it is over. A deployment whose launch was refused is
/// over from the start, and asks for nothing.
pub proof fn lemma_deployment_ends(deployment: DeploymentView, event: Event)
    requires
        deployment.wf(),
    ensures
        deployment.effect() is None <==> deployment is Finished,
        deployment.steps_left() <= 5,
        deployment.step(event).wf(),
        deployment.effect() matches Some(effect) && answers(event, effect) ==> deployment.step(
            event,
        ).steps_left() < deployment.steps_left(),
{
}

/// A marker is made only for a site that a recipe has just initialized. A
/// deployment comes to record its site only from the run of a recipe that
/// was to initialize the site and has succeeded, and only while it records
/// does it ask for a directory or a file to be made. No deployment asks
/// for anything to be removed.
pub proof fn lemma_marker_follows_init(deployment: DeploymentView, event: Event)
    requires
        deployment.wf(),
    ensures
        deployment.step(event) is Recording && !(deployment is Recording) ==> {
            &&& deployment matches DeploymentView::Running { action, .. }
            &&& action == DeploymentAction::Init
            &&& event matches Event::Ran { outcome }
            &&& status_of_outcome(outcome) == RecipeStatus::Success
        },
        deployment.effect() matches Some(effect) && (effect is Touch
            || effect is CreateParentDirectory) ==> deployment is Recording,
{
}

/// A site that resolves is initialized by its first deployment and updated
/// by the next. The deployment probes the marker of the site. Where the
/// marker is not there, it runs the recipe that initializes the site; when
/// that recipe has left with code 0, it probes the marker again, has its
/// directory and then the file made, at the very path that it probed, and
/// ends with `Success` once both are made. Where the marker is there, the
/// deployment runs the recipe that updates the site.
pub proof fn lemma_deploy_initializes_then_updates(
    config: AlkaneConfigView,
    suffixes: Seq<Seq<char>>,
    site_name: Seq<char>,
    context: Option<Seq<char>>,
)
    requires
        config.site(suffixes, site_name, context) is Some,
    ensures
        ({
            let db = DatabaseView::of_config(config)->0;
            let recipes = RecipesView::of_config(config)->0;
            let site = config.site(suffixes, site_name, context)->0;
            let marker = db.initialized_path(site_name);
            let fresh = DeploymentView::decide(
                presence_of(config, site_name),
                launch_of(config, suffixes, site_name, context, DeploymentAction::Init),
                launch_of(config, suffixes, site_name, context, DeploymentAction::Update),
            );
            let first = fresh.step(Event::Probed { exists: false });
            let ran = first.step(Event::Ran { outcome: ProcessOutcome::Exited { code: 0 } });
            let probed = ran.step(Event::Probed { exists: false });
            let prepared = probed.step(Event::Written { done: true });
            let recorded = prepared.step(Event::Written { done: true });
            let second = fresh.step(Event::Probed { exists: true });
            &&& fresh.effect() == Some(EffectView::Probe { path: marker })
            &&& first.effect() == Some(
                EffectView::Run { recipe: recipes.recipe(site, "init"@) },
            )
            &&& ran.effect() == Some(EffectView::Probe { path: marker })
            &&& probed.effect() == Some(EffectView::CreateParentDirectory { path: marker })
            &&& prepared.effect() == Some(EffectView::Touch { path: marker })
            &&& recorded == (DeploymentView::Finished { result: Ok(RecipeStatus::Success) })
            &&& second.effect() == Some(
                EffectView::Run { recipe: recipes.recipe(site, "update"@) },
            )
        }),
{
    crate::config::lemma_known_roots_resolve(config);
}

/// A recipe that does not succeed leaves no record, and neither does an
/// update: the deployment is over when the recipe has ended, with the
/// status of the recipe.
pub proof fn lemma_no_record_without_success(
    action: DeploymentAction,
    recipe: RecipeView,
    record: MarkerTaskView,
    outcome: ProcessOutcome,
)
    requires
        action == DeploymentAction::Update || status_of_outcome(outcome) != RecipeStatus::Success,
    ensures
        (DeploymentView::Running { action, recipe, record }).step(Event::Ran { outcome }) == (
        DeploymentView::Finished { result: Ok(status_of_outcome(outcome)) }),
{
}

} // verus!
