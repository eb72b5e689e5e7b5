//! Syncing stored providers into live configurations: what is written for one
//! application, and the order in which all of them are gone through.

use vstd::prelude::*;

use crate::error::AppError;
use crate::provider::{AppType, Provider};
use crate::text::same_text;

verus! {

use crate::common_config::optional_str;
use crate::error::ErrorView;
use crate::provider::ProviderView;

/// Whether a provider's entry in an additive live configuration is kept up: unless it
/// says that it is not.
pub open spec fn kept_up(provider: ProviderView) -> bool {
    match provider.meta {
        Some(meta) => meta.live_config_managed != Some(false),
        None => true,
    }
}

/// The places of the first `n` providers that are kept up.
pub open spec fn kept_up_places(providers: Seq<Provider>, n: nat) -> Seq<usize>
    decreases n,
{
    if n == 0 {
        Seq::empty()
    } else {
        let before = kept_up_places(providers, (n - 1) as nat);
        if kept_up(providers[n - 1]@) {
            before.push((n - 1) as usize)
        } else {
            before
        }
    }
}

/// The places of the providers to write to an additive live configuration, in order.
/// One that cannot be written does not keep the others from being written.
pub fn sync_all_providers_to_live(providers: &Vec<Provider>) -> (result: Vec<usize>)
    ensures
        result@ == kept_up_places(providers@, providers@.len()),
{
    let mut result: Vec<usize> = Vec::new();
    let mut i: usize = 0;
    while i < providers.len()
        invariant
            i <= providers.len(),
            result@ == kept_up_places(providers@, i as nat),
        decreases providers.len() - i,
    {
        let managed = match &providers[i].meta {
            Some(meta) => match meta.live_config_managed {
                Some(managed) => managed,
                None => true,
            },
            None => true,
        };
        if managed {
            result.push(i);
        }
        i += 1;
    }
    result
}

/// The place of the provider with an id, the first one, if there are more.
pub open spec fn place_of(providers: Seq<Provider>, id: Seq<char>, i: int) -> bool {
    &&& 0 <= i < providers.len()
    &&& providers[i]@.id == id
    &&& forall|j: int| 0 <= j < i ==> (#[trigger] providers[j])@.id != id
}

/// Whether a provider has an id.
pub open spec fn is_stored(providers: Seq<Provider>, id: Seq<char>) -> bool {
    exists|i: int| place_of(providers, id, i)
}

fn find_provider(providers: &Vec<Provider>, id: &str) -> (result: Option<usize>)
    ensures
        match result {
            Some(i) => place_of(providers@, id@, i as int),
            None => forall|i: int| !place_of(providers@, id@, i),
        },
{
    let mut i: usize = 0;
    while i < providers.len()
        invariant
            i <= providers.len(),
            forall|j: int| 0 <= j < i ==> (#[trigger] providers@[j])@.id != id@,
        decreases providers.len() - i,
    {
        if same_text(providers[i].id.as_str(), id) {
            return Some(i);
        }
        i += 1;
    }
    None
}

/// What is written to sync one application.
#[derive(Debug, Clone, Copy, PartialEq, Eq, Structural)]
pub enum AppSync {
    /// All providers that are kept up, then the MCP servers.
    All,
    /// The provider at this place, then the MCP servers.
    Current(usize),
    /// The MCP servers.
    McpOnly,
    /// Nothing.
    Nothing,
}

/// What is written to sync one application: all its providers, if it is additive, and
/// else the current one. Where none is current, nothing is written, and where the
/// current one is not stored, only the MCP servers are.
pub fn sync_current_provider_for_app_to_live(
    app_type: &AppType,
    current_id: Option<&str>,
    providers: &Vec<Provider>,
) -> (result: AppSync)
    ensures
        if app_type.additive() {
            result is All
        } else {
            match optional_str(current_id) {
                None => result is Nothing,
                Some(id) => if is_stored(providers@, id) {
                    result is Current && place_of(providers@, id, result->Current_0 as int)
                } else {
                    result is McpOnly
                },
            }
        },
{
    if app_type.is_additive_mode() {
        return AppSync::All;
    }
    match current_id {
        None => AppSync::Nothing,
        Some(id) => match find_provider(providers, id) {
            Some(i) => AppSync::Current(i),
            None => AppSync::McpOnly,
        },
    }
}

/// What is written for the current provider of an application whose live configuration
/// the proxy may have taken over.
#[derive(Debug, Clone, Copy, PartialEq, Eq, Structural)]
pub enum TakeoverSync {
    /// Nothing.
    Nothing,
    /// The provider at this place goes into the live configuration.
    Live(usize),
    /// The provider at this place goes into the backup that the proxy restores later.
    Backup(usize),
}

/// What is written for the current provider of an application. While the proxy has
/// taken the live configuration over, which a backup or its placeholder shows, the
/// provider goes into the backup instead; the desktop assistant's profile is written
/// all the same.
pub fn sync_current_provider_for_app_respecting_takeover(
    app_type: &AppType,
    current_id: Option<&str>,
    providers: &Vec<Provider>,
    has_live_backup: bool,
    live_taken_over: bool,
) -> (result: TakeoverSync)
    ensures
        match optional_str(current_id) {
            None => result is Nothing,
            Some(id) => if is_stored(providers@, id) {
                if (has_live_backup || live_taken_over) && !(*app_type is ClaudeDesktop) {
                    result is Backup && place_of(providers@, id, result->Backup_0 as int)
                } else {
                    result is Live && place_of(providers@, id, result->Live_0 as int)
                }
            } else {
                result is Nothing
            },
        },
{
    let id = match current_id {
        Some(id) => id,
        None => {
            return TakeoverSync::Nothing;
        },
    };
    match find_provider(providers, id) {
        Some(i) => if (has_live_backup || live_taken_over) && !matches!(
            app_type,
            AppType::ClaudeDesktop
        ) {
            TakeoverSync::Backup(i)
        } else {
            TakeoverSync::Live(i)
        },
        None => TakeoverSync::Nothing,
    }
}

/// A step of syncing everything.
pub enum SyncAction {
    /// Sync the providers of this application: all of them, or the current one with
    /// regard to a takeover.
    Providers { app_type: AppType, all: bool },
    /// Sync the MCP servers of all applications.
    Mcp,
    /// Sync the skills of this application.
    Skills(AppType),
    /// Done, with this outcome.
    Done(Result<(), AppError>),
}

/// How far syncing everything has come.
pub struct LiveSync {
    /// How many steps have been taken: one for the providers of each application, one
    /// for the MCP servers, one for the skills of each application.
    pub steps: usize,
    /// The outcome of the MCP servers, once they have been synced.
    pub mcp_error: Option<AppError>,
}

/// The mathematical value of a [`LiveSync`].
pub struct SyncView {
    pub steps: nat,
    pub mcp_error: Option<ErrorView>,
}

/// The mathematical value of a [`SyncAction`].
pub enum ActionView {
    Providers { app_type: AppType, all: bool },
    Mcp,
    Skills(AppType),
    Done(Option<ErrorView>),
}

impl View for LiveSync {
    type V = SyncView;

    open spec fn view(&self) -> SyncView {
        SyncView {
            steps: self.steps as nat,
            mcp_error: match self.mcp_error {
                Some(error) => Some(error@),
                None => None,
            },
        }
    }
}

impl View for SyncAction {
    type V = ActionView;

    open spec fn view(&self) -> ActionView {
        match self {
            SyncAction::Providers { app_type, all } => ActionView::Providers {
                app_type: *app_type,
                all: *all,
            },
            SyncAction::Mcp => ActionView::Mcp,
            SyncAction::Skills(app_type) => ActionView::Skills(*app_type),
            SyncAction::Done(Ok(_)) => ActionView::Done(None),
            SyncAction::Done(Err(error)) => ActionView::Done(Some(error@)),
        }
    }
}

/// How many steps there are for the providers.
pub open spec fn provider_steps() -> nat {
    AppType::order().len()
}

/// The step to take after so many.
pub open spec fn action_at(state: SyncView) -> ActionView {
    let apps = AppType::order();
    if state.steps < apps.len() {
        ActionView::Providers {
            app_type: apps[state.steps as int],
            all: apps[state.steps as int].additive(),
        }
    } else if state.steps == apps.len() {
        ActionView::Mcp
    } else if state.steps <= 2 * apps.len() {
        ActionView::Skills(apps[state.steps - apps.len() - 1])
    } else {
        ActionView::Done(state.mcp_error)
    }
}

/// Where syncing everything stands when a step has come out so: `None` for success.
/// A failure among the providers ends it at once; that of the MCP servers is kept for
/// the end; that of an application's skills is passed over.
pub open spec fn sync_step(state: SyncView, failed: Option<ErrorView>) -> (SyncView, ActionView) {
    if state.steps < provider_steps() && failed is Some {
        (state, ActionView::Done(failed))
    } else if state.steps > 2 * provider_steps() {
        (state, action_at(state))
    } else {
        let next = SyncView {
            steps: state.steps + 1,
            mcp_error: if state.steps == provider_steps() {
                failed
            } else {
                state.mcp_error
            },
        };
        (next, action_at(next))
    }
}

/// What failed, if anything did.
pub open spec fn failure(outcome: Result<(), AppError>) -> Option<ErrorView> {
    match outcome {
        Ok(_) => None,
        Err(error) => Some(error@),
    }
}

fn sync_action(state: LiveSync) -> (result: (LiveSync, SyncAction))
    requires
        state.steps <= 2 * provider_steps() + 1,
    ensures
        result.1@ == action_at(state@),
        result.1 is Done || result.0@ == state@,
        result.0.steps == state.steps,
{
    let apps = AppType::all();
    let count: usize = apps.len();
    if state.steps < count {
        let app_type = apps[state.steps];
        let all = app_type.is_additive_mode();
        (state, SyncAction::Providers { app_type, all })
    } else if state.steps == count {
        (state, SyncAction::Mcp)
    } else if state.steps <= 2 * count {
        let app_type = apps[state.steps - count - 1];
        (state, SyncAction::Skills(app_type))
    } else {
        let steps: usize = state.steps;
        let outcome = match state.mcp_error {
            Some(error) => Err(error),
            None => Ok(()),
        };
        (LiveSync { steps, mcp_error: None }, SyncAction::Done(outcome))
    }
}

/// Begins to sync everything: the first step.
pub fn start_live_sync() -> (result: (LiveSync, SyncAction))
    ensures
        result.0@ == (SyncView { steps: 0, mcp_error: None }),
        result.1@ == action_at(result.0@),
{
    sync_action(LiveSync { steps: 0, mcp_error: None })
}

/// The step to take next, when the last one has come out so.
pub fn sync_current_to_live(state: LiveSync, outcome: Result<(), AppError>) -> (result: (
    LiveSync,
    SyncAction,
))
    requires
        state@.steps <= 2 * provider_steps(),
    ensures
        result.1@ == sync_step(state@, failure(outcome)).1,
        result.1 is Done || result.0@ == sync_step(state@, failure(outcome)).0,
{
    let count: usize = AppType::all().len();
    let mut state = state;
    if state.steps < count {
        match outcome {
            Ok(_) => {},
            Err(error) => {
                return (state, SyncAction::Done(Err(error)));
            },
        }
    } else if state.steps == count {
        state.mcp_error = match outcome {
            Ok(_) => None,
            Err(error) => Some(error),
        };
    }
    state.steps = state.steps + 1;
    sync_action(state)
}

/// Where syncing everything stands after steps with these outcomes.
pub open spec fn sync_run(state: SyncView, outcomes: Seq<Option<ErrorView>>) -> (SyncView, ActionView)
    decreases outcomes.len(),
{
    if outcomes.len() == 0 {
        (state, action_at(state))
    } else {
        let (before, action) = sync_run(state, outcomes.drop_last());
        match action {
            ActionView::Done(_) => (before, action),
            _ => sync_step(before, outcomes.last()),
        }
    }
}

/// Law: from the start, the providers of every application are synced, one application
/// after the other in their order, and then the MCP servers, as long as nothing fails.
pub proof fn law_providers_in_order(outcomes: Seq<Option<ErrorView>>)
    requires
        outcomes.len() <= AppType::order().len(),
        forall|i: int| 0 <= i < outcomes.len() ==> (#[trigger] outcomes[i]) is None,
    ensures
        ({
            let apps = AppType::order();
            let after = SyncView { steps: outcomes.len(), mcp_error: None };
            &&& sync_run(SyncView { steps: 0, mcp_error: None }, outcomes) == (
                after,
                action_at(after),
            )
            &&& action_at(after) == if outcomes.len() < apps.len() {
                ActionView::Providers {
                    app_type: apps[outcomes.len() as int],
                    all: apps[outcomes.len() as int].additive(),
                }
            } else {
                ActionView::Mcp
            }
        }),
    decreases outcomes.len(),
{
    if outcomes.len() > 0 {
        let before = outcomes.drop_last();
        assert forall|i: int| 0 <= i < before.len() implies (#[trigger] before[i]) is None by {
            assert(outcomes[i] is None);
        }
        law_providers_in_order(before);
        assert(outcomes.last() is None);
    }
}

/// Law: whatever comes of the MCP servers, the skills of every application are synced
/// after them, whatever comes of those, and the outcome is that of the MCP servers.
pub proof fn law_mcp_failure_keeps_skills(
    mcp: Option<ErrorView>,
    skills: Seq<Option<ErrorView>>,
    earlier: Option<ErrorView>,
)
    requires
        skills.len() <= AppType::order().len(),
    ensures
        ({
            let apps = AppType::order();
            let at_mcp = SyncView { steps: apps.len(), mcp_error: earlier };
            let end = sync_run(at_mcp, seq![mcp] + skills);
            if skills.len() < apps.len() {
                end.1 == ActionView::Skills(apps[skills.len() as int])
            } else {
                end.1 == ActionView::Done(mcp)
            }
        }),
    decreases skills.len(),
{
    lemma_skills_run(mcp, skills, earlier);
}

proof fn lemma_skills_run(
    mcp: Option<ErrorView>,
    skills: Seq<Option<ErrorView>>,
    earlier: Option<ErrorView>,
)
    requires
        skills.len() <= AppType::order().len(),
    ensures
        ({
            let apps = AppType::order();
            let at_mcp = SyncView { steps: apps.len(), mcp_error: earlier };
            let after = SyncView { steps: apps.len() + 1 + skills.len(), mcp_error: mcp };
            sync_run(at_mcp, seq![mcp] + skills) == (after, action_at(after))
        }),
    decreases skills.len(),
{
    let apps = AppType::order();
    let at_mcp = SyncView { steps: apps.len(), mcp_error: earlier };
    let outcomes = seq![mcp] + skills;
    if skills.len() == 0 {
        assert(outcomes.drop_last() =~= Seq::empty());
        assert(outcomes.last() == mcp);
        assert(sync_run(at_mcp, Seq::empty()) == (at_mcp, action_at(at_mcp)));
    } else {
        lemma_skills_run(mcp, skills.drop_last(), earlier);
        assert(outcomes.drop_last() =~= seq![mcp] + skills.drop_last());
        assert(outcomes.last() == skills.last());
    }
}

/// Law: a failure among the providers ends the syncing with that failure, and nothing
/// more is synced.
pub proof fn law_provider_failure_ends(state: SyncView, error: ErrorView)
    requires
        state.steps < AppType::order().len(),
    ensures
        sync_step(state, Some(error)).1 == ActionView::Done(Some(error)),
{
}

/// Law: every application is gone through once. OpenCode, OpenClaw and Hermes have all providers
/// side by side, and no other application does.
pub proof fn law_every_application_once(app_type: AppType)
    ensures
        AppType::order().len() == 8,
        exists|i: int| 0 <= i < AppType::order().len() && #[trigger] AppType::order()[i] == app_type,
        forall|i: int, j: int|
            0 <= i < j < AppType::order().len() ==> #[trigger] AppType::order()[i]
                != #[trigger] AppType::order()[j],
        app_type.additive() <==> app_type is OpenCode || app_type is OpenClaw || app_type is Hermes,
{
    let apps = AppType::order();
    assert(apps[0] == AppType::Claude);
    assert(apps[1] == AppType::ClaudeDesktop);
    assert(apps[2] == AppType::Codex);
    assert(apps[3] == AppType::Gemini);
    assert(apps[4] == AppType::GrokBuild);
    assert(apps[5] == AppType::OpenCode);
    assert(apps[6] == AppType::OpenClaw);
    assert(apps[7] == AppType::Hermes);
}

/// Law: the providers that are written to an additive configuration are those that do not say
/// that they are not kept up, each once, in their order.
pub proof fn law_all_kept_up_providers_are_written(
    providers: &Vec<Provider>,
    result: Vec<usize>,
    place: usize,
)
    requires
        call_ensures(sync_all_providers_to_live, (providers,), result),
    ensures
        result@.contains(place) <==> place < providers@.len() && !(
        providers@[place as int]@.meta matches Some(meta) && meta.live_config_managed == Some(
            false,
        )),
        forall|i: int, j: int| 0 <= i < j < result@.len() ==> result@[i] < result@[j],
{
    assert(providers@.len() == providers.len());
    lemma_kept_up_places(providers@, providers@.len(), place);
}

proof fn lemma_kept_up_places(providers: Seq<Provider>, n: nat, place: usize)
    requires
        n <= providers.len() <= usize::MAX,
    ensures
        kept_up_places(providers, n).contains(place) <==> place < n && kept_up(
            providers[place as int]@,
        ),
        forall|i: int|
            0 <= i < kept_up_places(providers, n).len() ==> #[trigger] kept_up_places(
                providers,
                n,
            )[i] < n,
        forall|i: int, j: int|
            0 <= i < j < kept_up_places(providers, n).len() ==> kept_up_places(providers, n)[i]
                < kept_up_places(providers, n)[j],
    decreases n,
{
    if n > 0 {
        let m = (n - 1) as nat;
        lemma_kept_up_places(providers, m, place);
        let before = kept_up_places(providers, m);
        let after = kept_up_places(providers, n);
        if kept_up(providers[m as int]@) {
            assert(after[after.len() - 1] == m as usize);
            if place < m && before.contains(place) {
                let k = choose|k: int| 0 <= k < before.len() && before[k] == place;
                assert(after[k] == place);
            }
            if after.contains(place) && place != m {
                let k = choose|k: int| 0 <= k < after.len() && after[k] == place;
                assert(before[k] == place);
            }
        }
    }
}

/// Law: an additive application has all its providers synced, and any other the one whose id is
/// current, the first of them; where no provider has that id the MCP servers alone are synced, and
/// where none is current nothing is.
pub proof fn law_current_provider_is_synced(
    app_type: &AppType,
    current_id: Option<&str>,
    providers: &Vec<Provider>,
    result: AppSync,
)
    requires
        call_ensures(
            sync_current_provider_for_app_to_live,
            (app_type, current_id, providers),
            result,
        ),
    ensures
        *app_type is OpenCode || *app_type is OpenClaw || *app_type is Hermes <==> result is All,
        result matches AppSync::Current(place) ==> {
            &&& place < providers@.len()
            &&& current_id matches Some(id) && providers@[place as int]@.id == id@
            &&& forall|j: int|
                0 <= j < place ==> (#[trigger] providers@[j])@.id != providers@[place as int]@.id
        },
        !(result is All) && current_id is None ==> result is Nothing,
        !(result is All) && current_id is Some ==> {
            &&& !(result is Nothing)
            &&& result is McpOnly <==> forall|i: int|
                0 <= i < providers@.len() ==> (#[trigger] providers@[i])@.id != current_id->0@
        },
{
    if let Some(id) = current_id {
        lemma_is_stored(providers@, id@);
    }
}

/// A provider with an id has a first place.
proof fn lemma_is_stored(providers: Seq<Provider>, id: Seq<char>)
    ensures
        is_stored(providers, id) <==> exists|i: int|
            0 <= i < providers.len() && (#[trigger] providers[i])@.id == id,
{
    if is_stored(providers, id) {
        let first = choose|first: int| place_of(providers, id, first);
        assert(providers[first]@.id == id);
    }
    if exists|i: int| 0 <= i < providers.len() && (#[trigger] providers[i])@.id == id {
        let i = choose|i: int| 0 <= i < providers.len() && (#[trigger] providers[i])@.id == id;
        let first = lemma_first_place(providers, id, 0, i);
        assert(place_of(providers, id, first));
    }
}

proof fn lemma_first_place(providers: Seq<Provider>, id: Seq<char>, from: int, place: int) -> (first:
    int)
    requires
        0 <= from <= place < providers.len(),
        providers[place]@.id == id,
        forall|j: int| 0 <= j < from ==> (#[trigger] providers[j])@.id != id,
    ensures
        place_of(providers, id, first),
    decreases place - from,
{
    if providers[from]@.id == id {
        from
    } else {
        lemma_first_place(providers, id, from + 1, place)
    }
}

/// Law: the current provider goes into the live configuration, or, while the proxy has taken that
/// over, into the backup; the desktop assistant's profile is written in either case. Where none is
/// current, or no provider has the id, nothing is written.
pub proof fn law_takeover_is_respected(
    app_type: &AppType,
    current_id: Option<&str>,
    providers: &Vec<Provider>,
    has_live_backup: bool,
    live_taken_over: bool,
    result: TakeoverSync,
)
    requires
        call_ensures(
            sync_current_provider_for_app_respecting_takeover,
            (app_type, current_id, providers, has_live_backup, live_taken_over),
            result,
        ),
    ensures
        result is Nothing <==> current_id is None || forall|i: int|
            0 <= i < providers@.len() ==> (#[trigger] providers@[i])@.id != current_id->0@,
        result is Backup ==> has_live_backup || live_taken_over,
        result is Backup ==> !(*app_type is ClaudeDesktop),
        result is Live && (has_live_backup || live_taken_over) ==> *app_type is ClaudeDesktop,
        result matches TakeoverSync::Live(place) ==> place < providers@.len()
            && providers@[place as int]@.id == current_id->0@,
        result matches TakeoverSync::Backup(place) ==> place < providers@.len()
            && providers@[place as int]@.id == current_id->0@,
{
    if let Some(id) = current_id {
        lemma_is_stored(providers@, id@);
    }
}

} // verus!
