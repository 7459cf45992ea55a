//! The popup: which snapshot of the panes it shows, what a key does, and when it
//! closes.

use vstd::prelude::*;
use crate::app::cycle;
use crate::app::cycle::find_pane;
use crate::app::popup_log::LoggedPopup;
use crate::config;
use crate::config::{LaunchProfile, PermissionPreset, ProfileModel};
use crate::domain::{
    CodexExecutable, Exchange, InvocationContext, Pane, PaneId, ThemeId, TmuxCommandRunner,
};
use crate::error;
use crate::error::{command_error, ErrorModel, MuxError};
use crate::launch;
use crate::launch::LaunchKind;
use crate::text;
use crate::tmux::actions;
use crate::tmux::actions::TmuxActions;

verus! {

// ---------------------------------------------------------------------------
// Snapshots of the panes
// ---------------------------------------------------------------------------

/// How long the refresh worker waits for a request before it looks again.
pub const REFRESH_INTERVAL_MILLIS: u64 = 1000;

/// How long the popup waits for a key before it looks at the workers again.
pub const INPUT_POLL_INTERVAL_MILLIS: u64 = 16;

/// What the refresh worker is told.
#[derive(Clone, Copy, Debug, PartialEq, Eq, Structural)]
pub enum RefreshCommand {
    /// Snapshots have to be at least this new.
    Request(u64),
    Stop,
}

/// The newest generation among a first one and the requests.
pub open spec fn newest(generation: u64, commands: Seq<RefreshCommand>) -> u64
    decreases commands.len(),
{
    if commands.len() == 0 {
        generation
    } else {
        let rest = newest(generation, commands.drop_last());
        match commands.last() {
            RefreshCommand::Request(next) => if next > rest {
                next
            } else {
                rest
            },
            RefreshCommand::Stop => rest,
        }
    }
}

/// The generation of the next snapshot after some commands at once, `None` where
/// one of them stops the worker.
pub fn coalesce_requests(generation: u64, commands: &Vec<RefreshCommand>) -> (r: Option<u64>)
    ensures
        r == if commands@.contains(RefreshCommand::Stop) {
            None
        } else {
            Some(newest(generation, commands@))
        },
{
    let mut current: u64 = generation;
    let mut i: usize = 0;
    assert(commands@.take(0) =~= Seq::empty());
    while i < commands.len()
        invariant
            i <= commands.len(),
            current == newest(generation, commands@.take(i as int)),
            forall|j: int| 0 <= j < i ==> #[trigger] commands@[j] != RefreshCommand::Stop,
        decreases commands.len() - i,
    {
        proof {
            assert(commands@.take(i + 1).drop_last() =~= commands@.take(i as int));
            assert(commands@.take(i + 1).last() == commands@[i as int]);
        }
        match commands[i] {
            RefreshCommand::Request(next) => {
                if next > current {
                    current = next;
                }
            },
            RefreshCommand::Stop => {
                assert(commands@[i as int] == RefreshCommand::Stop);
                return None;
            },
        }
        i += 1;
    }
    assert(commands@.take(commands@.len() as int) =~= commands@);
    Some(current)
}

/// A snapshot is never older than the one before it nor than any request, and
/// only a request makes it newer.
pub proof fn requests_are_coalesced(generation: u64, commands: Seq<RefreshCommand>)
    ensures
        newest(generation, commands) >= generation,
        forall|i: int|
            0 <= i < commands.len() ==> (#[trigger] commands[i] matches RefreshCommand::Request(g)
                ==> g <= newest(generation, commands)),
        newest(generation, commands) == generation || commands.contains(
            RefreshCommand::Request(newest(generation, commands)),
        ),
    decreases commands.len(),
{
    if commands.len() > 0 {
        let front = commands.drop_last();
        requests_are_coalesced(generation, front);
        let rest = newest(generation, front);
        assert forall|i: int| 0 <= i < commands.len() implies (#[trigger] commands[i] matches RefreshCommand::Request(
            g,
        ) ==> g <= newest(generation, commands)) by {
            if i < front.len() {
                assert(front[i] == commands[i]);
            }
        }
        if newest(generation, commands) == rest && rest != generation {
            let k = choose|k: int|
                0 <= k < front.len() && front[k] == RefreshCommand::Request(rest);
            assert(commands[k] == RefreshCommand::Request(rest));
        } else if newest(generation, commands) != rest {
            assert(commands[commands.len() - 1] == RefreshCommand::Request(
                newest(generation, commands),
            ));
        }
    }
}

/// The last of some snapshots that is new enough, by its generation.
pub open spec fn shown_snapshot(generations: Seq<u64>, minimum: u64) -> Option<int>
    decreases generations.len(),
{
    if generations.len() == 0 {
        None
    } else if generations.last() >= minimum {
        Some(generations.len() - 1)
    } else {
        shown_snapshot(generations.drop_last(), minimum)
    }
}

/// Chooses the snapshot that is shown. One from before the last change of the
/// panes is not shown at all.
pub fn newest_snapshot(generations: &Vec<u64>, minimum: u64) -> (r: Option<usize>)
    ensures
        match r {
            Some(i) => i < generations@.len() && shown_snapshot(generations@, minimum) == Some(
                i as int,
            ) && generations@[i as int] >= minimum,
            None => shown_snapshot(generations@, minimum) is None && forall|i: int|
                0 <= i < generations@.len() ==> (#[trigger] generations@[i]) < minimum,
        },
{
    let mut n: usize = generations.len();
    assert(generations@.take(n as int) =~= generations@);
    while n > 0
        invariant
            n <= generations@.len(),
            shown_snapshot(generations@, minimum) == shown_snapshot(
                generations@.take(n as int),
                minimum,
            ),
            forall|i: int|
                n <= i < generations@.len() ==> (#[trigger] generations@[i]) < minimum,
        decreases n,
    {
        proof {
            assert(generations@.take(n as int).drop_last() =~= generations@.take(n - 1));
            assert(generations@.take(n as int).last() == generations@[n - 1]);
        }
        if generations[n - 1] >= minimum {
            return Some(n - 1);
        }
        n -= 1;
    }
    None
}

// ---------------------------------------------------------------------------
// The state of the popup
// ---------------------------------------------------------------------------

/// What the popup remembers between two keys.
#[derive(Clone, Copy, Debug, PartialEq, Eq, Structural)]
pub struct PopupState {
    /// The invoking pane has not been selected yet.
    pub initial_selection_pending: bool,
    /// Older snapshots are not shown.
    pub minimum_refresh_generation: u64,
    /// The naming worker is being stopped.
    pub shutdown_pending: bool,
    /// Something changed since the last frame.
    pub dirty: bool,
}

pub open spec fn opened() -> PopupState {
    PopupState {
        initial_selection_pending: true,
        minimum_refresh_generation: 0,
        shutdown_pending: false,
        dirty: true,
    }
}

impl PopupState {
    /// The state of a popup that was just opened.
    pub fn new() -> (r: PopupState)
        ensures
            r == opened(),
    {
        PopupState {
            initial_selection_pending: true,
            minimum_refresh_generation: 0,
            shutdown_pending: false,
            dirty: true,
        }
    }

    /// Takes a snapshot in; the result tells whether the invoking pane is to be
    /// selected, which happens with the first list of panes only.
    pub fn snapshot_arrived(&mut self, listed: bool) -> (r: bool)
        ensures
            *final(self) == (PopupState {
                initial_selection_pending: old(self).initial_selection_pending && !listed,
                dirty: true,
                ..*old(self)
            }),
            r == (listed && old(self).initial_selection_pending),
    {
        let selects = listed && self.initial_selection_pending;
        if listed {
            self.initial_selection_pending = false;
        }
        self.dirty = true;
        selects
    }

    /// A frame was drawn.
    pub fn drawn(&mut self)
        ensures
            *final(self) == (PopupState { dirty: false, ..*old(self) }),
    {
        self.dirty = false;
    }

    /// A key or another event came in.
    pub fn input_arrived(&mut self)
        ensures
            *final(self) == (PopupState { dirty: true, ..*old(self) }),
    {
        self.dirty = true;
    }

    fn require_refresh(&mut self) -> (r: u64)
        ensures
            *final(self) == (PopupState {
                minimum_refresh_generation: after(old(self).minimum_refresh_generation),
                ..*old(self)
            }),
            r == final(self).minimum_refresh_generation,
    {
        if self.minimum_refresh_generation < u64::MAX {
            self.minimum_refresh_generation = self.minimum_refresh_generation + 1;
        }
        self.minimum_refresh_generation
    }
}

/// The next generation.
pub open spec fn after(generation: u64) -> u64 {
    if generation < u64::MAX {
        (generation + 1) as u64
    } else {
        u64::MAX
    }
}

/// What became of stopping the naming worker so far.
#[derive(Debug)]
pub enum ShutdownReply {
    /// Nothing yet.
    Waiting,
    Stopped,
    Failed(String),
    /// Nothing will come any more.
    Lost,
}

/// What the popup shows of it.
#[derive(Debug)]
pub enum UiUpdate {
    LaunchFailed(String),
    ProfilesSaved,
    ProfileSaveFailed(String),
    SmartNamingSaved(bool),
    SmartNamingSaveFailed(String),
    SmartNamingRuntimeFailed(String),
    SmartNamingStopping,
    SmartNamingShutdownFailed(String),
    PaneClosed(PaneId),
    AutoNameFailed(String),
}

#[verifier::ext_equal]
pub enum UpdateModel {
    LaunchFailed(Seq<char>),
    ProfilesSaved,
    ProfileSaveFailed(Seq<char>),
    SmartNamingSaved(bool),
    SmartNamingSaveFailed(Seq<char>),
    SmartNamingRuntimeFailed(Seq<char>),
    SmartNamingStopping,
    SmartNamingShutdownFailed(Seq<char>),
    PaneClosed(Seq<char>),
    AutoNameFailed(Seq<char>),
}

impl View for UiUpdate {
    type V = UpdateModel;

    open spec fn view(&self) -> UpdateModel {
        match self {
            UiUpdate::LaunchFailed(m) => UpdateModel::LaunchFailed(m@),
            UiUpdate::ProfilesSaved => UpdateModel::ProfilesSaved,
            UiUpdate::ProfileSaveFailed(m) => UpdateModel::ProfileSaveFailed(m@),
            UiUpdate::SmartNamingSaved(b) => UpdateModel::SmartNamingSaved(*b),
            UiUpdate::SmartNamingSaveFailed(m) => UpdateModel::SmartNamingSaveFailed(m@),
            UiUpdate::SmartNamingRuntimeFailed(m) => UpdateModel::SmartNamingRuntimeFailed(m@),
            UiUpdate::SmartNamingStopping => UpdateModel::SmartNamingStopping,
            UiUpdate::SmartNamingShutdownFailed(m) => UpdateModel::SmartNamingShutdownFailed(m@),
            UiUpdate::PaneClosed(id) => UpdateModel::PaneClosed(id@),
            UiUpdate::AutoNameFailed(m) => UpdateModel::AutoNameFailed(m@),
        }
    }
}

pub open spec fn update_list(v: Seq<UiUpdate>) -> Seq<UpdateModel> {
    Seq::new(v.len(), |i: int| v[i]@)
}

/// What a reply of the shutdown changes.
pub open spec fn shutdown_update(reply: ShutdownReply) -> Option<UpdateModel> {
    match reply {
        ShutdownReply::Waiting => None,
        ShutdownReply::Stopped => Some(UpdateModel::SmartNamingSaved(false)),
        ShutdownReply::Failed(m) => Some(UpdateModel::SmartNamingShutdownFailed(m@)),
        ShutdownReply::Lost => Some(
            UpdateModel::SmartNamingShutdownFailed("smart-naming shutdown channel closed"@),
        ),
    }
}

impl PopupState {
    /// Takes the reply of a shutdown in, where one is under way.
    pub fn shutdown_replied(&mut self, reply: ShutdownReply) -> (r: Option<UiUpdate>)
        ensures
            old(self).shutdown_pending ==> match shutdown_update(reply) {
                Some(u) => r is Some && r->0@ == u && *final(self) == (PopupState {
                    shutdown_pending: false,
                    dirty: true,
                    ..*old(self)
                }),
                None => r is None && *final(self) == *old(self),
            },
            !old(self).shutdown_pending ==> r is None && *final(self) == *old(self),
    {
        if !self.shutdown_pending {
            return None;
        }
        let update = match reply {
            ShutdownReply::Waiting => return None,
            ShutdownReply::Stopped => UiUpdate::SmartNamingSaved(false),
            ShutdownReply::Failed(m) => UiUpdate::SmartNamingShutdownFailed(m),
            ShutdownReply::Lost => UiUpdate::SmartNamingShutdownFailed(
                "smart-naming shutdown channel closed".to_owned(),
            ),
        };
        self.shutdown_pending = false;
        self.dirty = true;
        Some(update)
    }
}

// ---------------------------------------------------------------------------
// What a key does
// ---------------------------------------------------------------------------

/// What the user asked for.
#[derive(Debug)]
pub enum Action {
    Activate(PaneId),
    New,
    LaunchProfile(LaunchProfile),
    PersistProfiles(Vec<LaunchProfile>),
    PersistSmartNaming(bool),
    Resume,
    Close(PaneId),
    Rename(PaneId, String),
    Unpin(PaneId),
    AutoName(PaneId),
    PersistTheme(ThemeId),
    Quit,
}

/// The outside work of the popup beside tmux.
pub trait PopupHost {
    fn save_profiles(&mut self, profiles: &Vec<LaunchProfile>) -> Result<(), MuxError>;

    fn save_smart_naming(&mut self, enabled: bool) -> Result<(), MuxError>;

    fn save_theme(&mut self, theme: ThemeId) -> Result<(), MuxError>;

    /// Has tmux start the naming worker.
    fn ensure_naming_daemon(&mut self) -> Result<(), MuxError>;

    /// Begins to stop the naming worker.
    fn begin_shutdown(&mut self);

    /// Asks the refresh worker for a snapshot of a generation.
    fn request_refresh(&mut self, generation: u64);

    /// Asks for a name of a pane.
    fn request_auto_name(&mut self, pane: &Pane) -> Result<(), MuxError>;

    /// A text that no other mutation carries.
    fn token(&mut self) -> String;
}

/// A piece of that work and what came of it.
pub enum PopupEvent {
    SaveProfiles(Seq<ProfileModel>, Result<(), ErrorModel>),
    SaveNaming(bool, Result<(), ErrorModel>),
    SaveTheme(ThemeId, Result<(), ErrorModel>),
    EnsureDaemon(Result<(), ErrorModel>),
    BeginShutdown,
    Refresh(u64),
    AutoName(Seq<char>, Result<(), ErrorModel>),
    Token(Seq<char>),
}

/// What the popup does after an action.
#[derive(Debug)]
pub enum Next {
    /// It closes.
    Leave,
    /// It stays and shows the updates.
    Stay(Vec<UiUpdate>),
}

#[verifier::ext_equal]
pub enum NextModel {
    Leave,
    Stay(Seq<UpdateModel>),
}

pub open spec fn next_outcome(r: Result<Next, MuxError>) -> Result<NextModel, ErrorModel> {
    match r {
        Ok(Next::Leave) => Ok(NextModel::Leave),
        Ok(Next::Stay(v)) => Ok(NextModel::Stay(update_list(v@))),
        Err(e) => Err(e@),
    }
}

/// Everything that an action did.
pub struct Done {
    pub trace: Seq<Exchange>,
    pub events: Seq<PopupEvent>,
    pub state: PopupState,
    pub result: Result<NextModel, ErrorModel>,
}

pub open spec fn disappeared() -> ErrorModel {
    ErrorModel::Command("selected pane disappeared"@)
}

pub open spec fn stays(updates: Seq<UpdateModel>) -> Result<NextModel, ErrorModel> {
    Ok(NextModel::Stay(updates))
}

/// Nothing was asked of anybody.
pub open spec fn untouched(before: PopupState, d: Done) -> bool {
    d.trace.len() == 0 && d.events.len() == 0 && d.state == before
}

/// What follows from a launch: the popup closes, stays with a message, or ends
/// with the error of a pane that was created but not selected.
pub open spec fn after_launch(
    launched: Result<Seq<char>, ErrorModel>,
    front: Seq<char>,
) -> Result<NextModel, ErrorModel> {
    match launched {
        Ok(_) => Ok(NextModel::Leave),
        Err(ErrorModel::CreatedPaneNotSelected { pane, detail }) => Err(
            ErrorModel::CreatedPaneNotSelected { pane, detail },
        ),
        Err(e) => stays(seq![UpdateModel::LaunchFailed(front + error::error_text(e))]),
    }
}

/// The words of a new session.
pub open spec fn session_words(
    executable: Seq<u8>,
    context: InvocationContext,
    selected: Option<&Pane>,
    kind: LaunchKind,
    yolo: bool,
) -> Seq<Seq<u8>> {
    launch::new_window_words(
        executable,
        context.window_id@,
        launch::directory(launch::selected_path(selected), context.current_path@),
        kind,
        yolo,
    )
}

/// A mutation of a pane: with success the panes are refreshed and the updates
/// shown, a failure ends the popup.
pub open spec fn mutated(
    before: PopupState,
    d: Done,
    events: Seq<PopupEvent>,
    changed: Result<(), ErrorModel>,
    updates: Seq<UpdateModel>,
) -> bool {
    match changed {
        Err(e) => d.events == events && d.state == before && d.result == Err::<
            NextModel,
            ErrorModel,
        >(e),
        Ok(_) => {
            let generation = after(before.minimum_refresh_generation);
            &&& d.events == events.push(PopupEvent::Refresh(generation))
            &&& d.state == (PopupState { minimum_refresh_generation: generation, ..before })
            &&& d.result == stays(updates)
        },
    }
}

/// The steps of a mutation were followed, and what came of it.
pub open spec fn follows_steps(
    steps: Seq<actions::StepModel>,
    trace: Seq<Exchange>,
    before: PopupState,
    d: Done,
    events: Seq<PopupEvent>,
) -> bool {
    exists|changed: Result<(), ErrorModel>| #[trigger]
        actions::follows(steps, trace, changed) && mutated(
            before,
            d,
            events,
            changed,
            Seq::empty(),
        )
}

pub open spec fn naming_saved(enabled: bool, before: PopupState, d: Done) -> bool {
    &&& d.trace.len() == 0
    &&& d.events.len() >= 1
    &&& d.events[0] matches PopupEvent::SaveNaming(asked, saved)
    &&& asked == enabled
    &&& match saved {
        Err(e) => {
            &&& d.events.len() == 1
            &&& d.state == before
            &&& d.result == stays(seq![UpdateModel::SmartNamingSaveFailed(error::error_text(e))])
        },
        Ok(_) => if enabled {
            &&& d.events.len() == 2
            &&& d.state == before
            &&& d.events[1] matches PopupEvent::EnsureDaemon(started)
            &&& d.result == stays(
                match started {
                    Ok(_) => seq![UpdateModel::SmartNamingSaved(true)],
                    Err(e) => seq![
                        UpdateModel::SmartNamingSaved(true),
                        UpdateModel::SmartNamingRuntimeFailed(error::error_text(e)),
                    ],
                },
            )
        } else {
            &&& d.events.len() == 2
            &&& d.events[1] is BeginShutdown
            &&& d.state == (PopupState { shutdown_pending: true, ..before })
            &&& d.result == stays(seq![UpdateModel::SmartNamingStopping])
        },
    }
}

pub open spec fn auto_name_asked(id: Seq<char>, before: PopupState, d: Done) -> bool {
    &&& d.trace.len() == 0
    &&& d.events.len() >= 1
    &&& d.events[0] matches PopupEvent::EnsureDaemon(started)
    &&& match started {
        Err(e) => {
            &&& d.events.len() == 1
            &&& d.state == before
            &&& d.result == stays(seq![UpdateModel::AutoNameFailed(error::error_text(e))])
        },
        Ok(_) => {
            &&& d.events.len() >= 2
            &&& d.events[1] matches PopupEvent::AutoName(asked, named)
            &&& asked == id
            &&& match named {
                Err(e) => {
                    &&& d.events.len() == 2
                    &&& d.state == before
                    &&& d.result == stays(
                        seq![UpdateModel::AutoNameFailed(error::error_text(e))],
                    )
                },
                Ok(_) => {
                    let generation = after(before.minimum_refresh_generation);
                    &&& d.events.len() == 3
                    &&& d.events[2] == PopupEvent::Refresh(generation)
                    &&& d.state == (PopupState {
                        minimum_refresh_generation: generation,
                        ..before
                    })
                    &&& d.result == stays(Seq::empty())
                },
            }
        },
    }
}

pub open spec fn leave_or_fail(done: Result<(), ErrorModel>) -> Result<NextModel, ErrorModel> {
    match done {
        Ok(_) => Ok(NextModel::Leave),
        Err(e) => Err(e),
    }
}

/// The client was switched to a pane, and the popup closes.
pub open spec fn activated(
    id: Seq<char>,
    context: InvocationContext,
    before: PopupState,
    d: Done,
) -> bool {
    &&& d.events.len() == 0
    &&& d.state == before
    &&& follows_switch(context.client_id@, id, d.trace, d.result)
}

pub open spec fn follows_switch(
    client: Seq<char>,
    id: Seq<char>,
    trace: Seq<Exchange>,
    result: Result<NextModel, ErrorModel>,
) -> bool {
    exists|done: Result<(), ErrorModel>| #[trigger]
        actions::switched(client, id, trace, done) && result == leave_or_fail(done)
}

/// A session was opened.
pub open spec fn opened_session(
    words: Seq<Seq<u8>>,
    client: Seq<char>,
    front: Seq<char>,
    before: PopupState,
    d: Done,
) -> bool {
    &&& d.events.len() == 0
    &&& d.state == before
    &&& follows_launch(words, client, front, d.trace, d.result)
}

pub open spec fn follows_launch(
    words: Seq<Seq<u8>>,
    client: Seq<char>,
    front: Seq<char>,
    trace: Seq<Exchange>,
    result: Result<NextModel, ErrorModel>,
) -> bool {
    exists|launched: Result<Seq<char>, ErrorModel>| #[trigger]
        actions::launched(words, client, trace, launched) && result == after_launch(
            launched,
            front,
        )
}

/// The picker of earlier sessions was opened.
pub open spec fn resumed_session(
    words: Seq<Seq<u8>>,
    client: Seq<char>,
    before: PopupState,
    d: Done,
) -> bool {
    &&& d.events.len() == 0
    &&& d.state == before
    &&& follows_resume(words, client, d.trace, d.result)
}

pub open spec fn follows_resume(
    words: Seq<Seq<u8>>,
    client: Seq<char>,
    trace: Seq<Exchange>,
    result: Result<NextModel, ErrorModel>,
) -> bool {
    exists|launched: Result<Seq<char>, ErrorModel>| #[trigger]
        actions::launched_and_marked(words, client, trace, launched) && result == after_resume(
            launched,
        )
}

pub open spec fn after_resume(launched: Result<Seq<char>, ErrorModel>) -> Result<
    NextModel,
    ErrorModel,
> {
    match launched {
        Ok(_) => Ok(NextModel::Leave),
        Err(e) => Err(e),
    }
}

pub open spec fn saved_profiles(list: Seq<ProfileModel>, before: PopupState, d: Done) -> bool {
    &&& d.trace.len() == 0
    &&& d.state == before
    &&& d.events.len() == 1
    &&& d.events[0] matches PopupEvent::SaveProfiles(asked, saved)
    &&& asked == list
    &&& d.result == stays(
        match saved {
            Ok(_) => seq![UpdateModel::ProfilesSaved],
            Err(e) => seq![UpdateModel::ProfileSaveFailed(error::error_text(e))],
        },
    )
}

pub open spec fn saved_theme(theme: ThemeId, before: PopupState, d: Done) -> bool {
    &&& d.trace.len() == 0
    &&& d.state == before
    &&& d.events.len() == 1
    &&& d.events[0] matches PopupEvent::SaveTheme(asked, saved)
    &&& asked == theme
    &&& d.result == match saved {
        Ok(_) => stays(Seq::empty()),
        Err(e) => Err(e),
    }
}

pub open spec fn closed_pane(id: Seq<char>, before: PopupState, d: Done) -> bool {
    &&& d.trace.len() == 1
    &&& d.trace[0].request == text::utf8_words(seq!["kill-pane"@, "-t"@, id])
    &&& mutated(
        before,
        d,
        Seq::empty(),
        actions::done(d.trace[0].reply),
        seq![UpdateModel::PaneClosed(id)],
    )
}

pub open spec fn renamed_pane(pane: Pane, title: Seq<char>, before: PopupState, d: Done) -> bool {
    &&& d.events.len() >= 1
    &&& d.events[0] matches PopupEvent::Token(token)
    &&& follows_steps(
        actions::rename_steps(pane, title, token),
        d.trace,
        before,
        d,
        seq![d.events[0]],
    )
}

pub open spec fn unpinned_pane(pane: Pane, before: PopupState, d: Done) -> bool {
    &&& d.events.len() >= 1
    &&& d.events[0] matches PopupEvent::Token(token)
    &&& follows_steps(
        actions::unpin_steps(pane, token),
        d.trace,
        before,
        d,
        seq![d.events[0]],
    )
}

/// Nothing was done because the pane is gone.
pub open spec fn found_gone(before: PopupState, d: Done) -> bool {
    untouched(before, d) && d.result == Err::<NextModel, ErrorModel>(disappeared())
}

/// What one action does.
pub open spec fn action_done(
    action: Action,
    before: PopupState,
    panes: Seq<Pane>,
    selected: Option<&Pane>,
    resume_yolo: Option<bool>,
    context: InvocationContext,
    codex: Seq<u8>,
    d: Done,
) -> bool {
    let client = context.client_id@;
    match action {
        Action::Activate(id) => if cycle::pane_place(panes, id@, 0) is None {
            found_gone(before, d)
        } else {
            activated(id@, context, before, d)
        },
        Action::New => opened_session(
            session_words(codex, context, selected, LaunchKind::New, false),
            client,
            "New Codex session was not created: "@,
            before,
            d,
        ),
        Action::LaunchProfile(profile) => opened_session(
            session_words(
                codex,
                context,
                selected,
                LaunchKind::New,
                profile.permissions == PermissionPreset::Yolo,
            ),
            client,
            "Profile "@ + text::debug_text(profile.name@) + " did not create a Codex session: "@,
            before,
            d,
        ),
        Action::PersistProfiles(profiles) => saved_profiles(
            config::profile_list(profiles@),
            before,
            d,
        ),
        Action::PersistSmartNaming(enabled) => naming_saved(enabled, before, d),
        Action::Resume => match resume_yolo {
            None => untouched(before, d) && d.result == Err::<NextModel, ErrorModel>(
                ErrorModel::Command("resume profile selection disappeared"@),
            ),
            Some(yolo) => resumed_session(
                session_words(codex, context, selected, LaunchKind::ResumeAll, yolo),
                client,
                before,
                d,
            ),
        },
        Action::Close(id) => if cycle::pane_place(panes, id@, 0) is None {
            found_gone(before, d)
        } else {
            closed_pane(id@, before, d)
        },
        Action::Rename(id, title) => match cycle::pane_place(panes, id@, 0) {
            None => found_gone(before, d),
            Some(i) => renamed_pane(panes[i], title@, before, d),
        },
        Action::Unpin(id) => match cycle::pane_place(panes, id@, 0) {
            None => found_gone(before, d),
            Some(i) => unpinned_pane(panes[i], before, d),
        },
        Action::AutoName(id) => if cycle::pane_place(panes, id@, 0) is None {
            found_gone(before, d)
        } else {
            auto_name_asked(id@, before, d)
        },
        Action::PersistTheme(theme) => saved_theme(theme, before, d),
        Action::Quit => untouched(before, d) && d.result == Ok::<NextModel, ErrorModel>(
            NextModel::Leave,
        ),
    }
}

fn one_update(u: UiUpdate) -> (r: Vec<UiUpdate>)
    ensures
        r@ == seq![u],
        update_list(r@) == seq![u@],
{
    let mut r: Vec<UiUpdate> = Vec::new();
    r.push(u);
    assert(r@ =~= seq![u]);
    assert(update_list(r@) =~= seq![u@]);
    r
}

fn no_updates() -> (r: Vec<UiUpdate>)
    ensures
        update_list(r@) == Seq::<UpdateModel>::empty(),
{
    let r: Vec<UiUpdate> = Vec::new();
    assert(update_list(r@) =~= Seq::<UpdateModel>::empty());
    r
}

fn launch_message(front: &str, e: &MuxError) -> (r: UiUpdate)
    ensures
        r@ == UpdateModel::LaunchFailed(front@ + error::error_text(e@)),
{
    let mut m = front.to_owned();
    m.append(&e.to_text());
    UiUpdate::LaunchFailed(m)
}

fn follow_launch(launched: Result<PaneId, MuxError>, front: &str) -> (r: Result<Next, MuxError>)
    ensures
        next_outcome(r) == after_launch(actions::pane_id_outcome(launched), front@),
{
    match launched {
        Ok(_) => Ok(Next::Leave),
        Err(e) => match e {
            MuxError::CreatedPaneNotSelected { pane, detail } => Err(
                MuxError::CreatedPaneNotSelected { pane, detail },
            ),
            other => Ok(Next::Stay(one_update(launch_message(front, &other)))),
        },
    }
}

fn profile_front(name: &str) -> (r: String)
    ensures
        r@ == "Profile "@ + text::debug_text(name@) + " did not create a Codex session: "@,
{
    let mut m = "Profile ".to_owned();
    m.append(&text::debug_quoted(name));
    m.append(" did not create a Codex session: ");
    m
}

fn gone() -> (r: MuxError)
    ensures
        r@ == disappeared(),
{
    command_error("selected pane disappeared")
}

fn save_naming<H: PopupHost>(
    enabled: bool,
    state: &mut PopupState,
    host: &mut LoggedPopup<H>,
) -> (r: Result<Next, MuxError>)
    ensures
        old(host).events().is_prefix_of(final(host).events()),
        naming_saved(
            enabled,
            *old(state),
            (Done {
                trace: Seq::empty(),
                events: final(host).events().skip(old(host).events().len() as int),
                state: *final(state),
                result: next_outcome(r),
            }),
        ),
{
    let ghost s = host.events();
    let saved = host.save_smart_naming(enabled);
    let ghost a = host.events();
    assert(a.skip(s.len() as int) =~= seq![a.last()]);
    if let Err(e) = saved {
        return Ok(Next::Stay(one_update(UiUpdate::SmartNamingSaveFailed(e.to_text()))));
    }
    if enabled {
        let mut updates = one_update(UiUpdate::SmartNamingSaved(true));
        let started = host.ensure_naming_daemon();
        let ghost b = host.events();
        assert(b.skip(s.len() as int) =~= seq![a.last(), b.last()]);
        if let Err(e) = started {
            updates.push(UiUpdate::SmartNamingRuntimeFailed(e.to_text()));
            assert(update_list(updates@) =~= seq![
                UpdateModel::SmartNamingSaved(true),
                UpdateModel::SmartNamingRuntimeFailed(error::error_text(e@)),
            ]);
        }
        Ok(Next::Stay(updates))
    } else {
        state.shutdown_pending = true;
        host.begin_shutdown();
        let ghost b = host.events();
        assert(b.skip(s.len() as int) =~= seq![a.last(), b.last()]);
        Ok(Next::Stay(one_update(UiUpdate::SmartNamingStopping)))
    }
}

fn ask_auto_name<H: PopupHost>(
    pane: &Pane,
    state: &mut PopupState,
    host: &mut LoggedPopup<H>,
) -> (r: Result<Next, MuxError>)
    ensures
        old(host).events().is_prefix_of(final(host).events()),
        auto_name_asked(
            pane.id@,
            *old(state),
            (Done {
                trace: Seq::empty(),
                events: final(host).events().skip(old(host).events().len() as int),
                state: *final(state),
                result: next_outcome(r),
            }),
        ),
{
    let ghost s = host.events();
    let started = host.ensure_naming_daemon();
    let ghost a = host.events();
    assert(a.skip(s.len() as int) =~= seq![a.last()]);
    if let Err(e) = started {
        return Ok(Next::Stay(one_update(UiUpdate::AutoNameFailed(e.to_text()))));
    }
    let named = host.request_auto_name(pane);
    let ghost b = host.events();
    assert(b.skip(s.len() as int) =~= seq![a.last(), b.last()]);
    if let Err(e) = named {
        return Ok(Next::Stay(one_update(UiUpdate::AutoNameFailed(e.to_text()))));
    }
    let generation = state.require_refresh();
    host.request_refresh(generation);
    let ghost c = host.events();
    assert(c.skip(s.len() as int) =~= seq![a.last(), b.last(), c.last()]);
    Ok(Next::Stay(no_updates()))
}

/// Ends a mutation of a pane.
fn follow_mutation<H: PopupHost>(
    changed: Result<(), MuxError>,
    updates: Vec<UiUpdate>,
    state: &mut PopupState,
    host: &mut LoggedPopup<H>,
) -> (r: Result<Next, MuxError>)
    ensures
        old(host).events().is_prefix_of(final(host).events()),
        mutated(
            *old(state),
            (Done {
                trace: Seq::empty(),
                events: final(host).events(),
                state: *final(state),
                result: next_outcome(r),
            }),
            old(host).events(),
            error::outcome(changed),
            update_list(updates@),
        ),
{
    match changed {
        Err(e) => Err(e),
        Ok(()) => {
            let generation = state.require_refresh();
            host.request_refresh(generation);
            Ok(Next::Stay(updates))
        },
    }
}

proof fn mutation_is_local(
    before: PopupState,
    d: Done,
    whole: Done,
    start: Seq<PopupEvent>,
    events: Seq<PopupEvent>,
    changed: Result<(), ErrorModel>,
    updates: Seq<UpdateModel>,
)
    requires
        mutated(before, d, start + events, changed, updates),
        whole.events == d.events.skip(start.len() as int),
        whole.state == d.state,
        whole.result == d.result,
    ensures
        mutated(before, whole, events, changed, updates),
{
    if changed is Ok {
        assert(whole.events =~= events.push(
            PopupEvent::Refresh(after(before.minimum_refresh_generation)),
        ));
    } else {
        assert(whole.events =~= events);
    }
}

fn activate<R: TmuxCommandRunner>(
    pane: &Pane,
    context: &InvocationContext,
    services: &mut TmuxActions<R>,
    state: &PopupState,
) -> (r: Result<Next, MuxError>)
    ensures
        old(services).runner.history().is_prefix_of(final(services).runner.history()),
        activated(
            pane.id@,
            *context,
            *state,
            (Done {
                trace: actions::exchanged(
                    old(services).runner.history(),
                    final(services).runner.history(),
                ),
                events: Seq::empty(),
                state: *state,
                result: next_outcome(r),
            }),
        ),
{
    let ghost start = services.runner.history();
    let done = services.switch_and_zoom(context, pane);
    let ghost x = error::outcome(done);
    assert(actions::switched(
        context.client_id@,
        pane.id@,
        actions::exchanged(start, services.runner.history()),
        x,
    ));
    match done {
        Ok(()) => Ok(Next::Leave),
        Err(e) => Err(e),
    }
}

fn open_session<R: TmuxCommandRunner>(
    selected: Option<&Pane>,
    yolo: bool,
    front: &str,
    context: &InvocationContext,
    services: &mut TmuxActions<R>,
    codex: &CodexExecutable,
    state: &PopupState,
) -> (r: Result<Next, MuxError>)
    ensures
        old(services).runner.history().is_prefix_of(final(services).runner.history()),
        opened_session(
            session_words(codex@, *context, selected, LaunchKind::New, yolo),
            context.client_id@,
            front@,
            *state,
            (Done {
                trace: actions::exchanged(
                    old(services).runner.history(),
                    final(services).runner.history(),
                ),
                events: Seq::empty(),
                state: *state,
                result: next_outcome(r),
            }),
        ),
{
    let ghost start = services.runner.history();
    let launched = services.new_session_with_profile(context, selected, codex, yolo);
    let ghost x = actions::pane_id_outcome(launched);
    assert(actions::launched(
        session_words(codex@, *context, selected, LaunchKind::New, yolo),
        context.client_id@,
        actions::exchanged(start, services.runner.history()),
        x,
    ));
    follow_launch(launched, front)
}

fn resume_session<R: TmuxCommandRunner>(
    selected: Option<&Pane>,
    yolo: bool,
    context: &InvocationContext,
    services: &mut TmuxActions<R>,
    codex: &CodexExecutable,
    state: &PopupState,
) -> (r: Result<Next, MuxError>)
    ensures
        old(services).runner.history().is_prefix_of(final(services).runner.history()),
        resumed_session(
            session_words(codex@, *context, selected, LaunchKind::ResumeAll, yolo),
            context.client_id@,
            *state,
            (Done {
                trace: actions::exchanged(
                    old(services).runner.history(),
                    final(services).runner.history(),
                ),
                events: Seq::empty(),
                state: *state,
                result: next_outcome(r),
            }),
        ),
{
    let ghost start = services.runner.history();
    let launched = services.resume_all_with_profile(context, selected, codex, yolo);
    let ghost x = actions::pane_id_outcome(launched);
    assert(actions::launched_and_marked(
        session_words(codex@, *context, selected, LaunchKind::ResumeAll, yolo),
        context.client_id@,
        actions::exchanged(start, services.runner.history()),
        x,
    ));
    match launched {
        Ok(_) => Ok(Next::Leave),
        Err(e) => Err(e),
    }
}

fn close_one<R: TmuxCommandRunner, H: PopupHost>(
    pane: &Pane,
    state: &mut PopupState,
    services: &mut TmuxActions<R>,
    host: &mut LoggedPopup<H>,
) -> (r: Result<Next, MuxError>)
    ensures
        old(services).runner.history().is_prefix_of(final(services).runner.history()),
        old(host).events().is_prefix_of(final(host).events()),
        closed_pane(
            pane.id@,
            *old(state),
            (Done {
                trace: actions::exchanged(
                    old(services).runner.history(),
                    final(services).runner.history(),
                ),
                events: final(host).events().skip(old(host).events().len() as int),
                state: *final(state),
                result: next_outcome(r),
            }),
        ),
{
    let ghost start = services.runner.history();
    let ghost began = host.events();
    let ghost before = *state;
    let changed = services.close_pane(pane);
    let ghost trace = actions::exchanged(start, services.runner.history());
    assert(trace =~= seq![services.runner.history().last()]);
    let ghost x = error::outcome(changed);
    let r = follow_mutation(
        changed,
        one_update(UiUpdate::PaneClosed(pane.id.clone())),
        state,
        host,
    );
    proof {
        let d = Done {
            trace: Seq::empty(),
            events: host.events(),
            state: *state,
            result: next_outcome(r),
        };
        let whole = Done { trace, events: host.events().skip(began.len() as int), ..d };
        assert(began + Seq::<PopupEvent>::empty() =~= began);
        mutation_is_local(
            before,
            d,
            whole,
            began,
            Seq::empty(),
            x,
            seq![UpdateModel::PaneClosed(pane.id@)],
        );
    }
    r
}

fn rename_one<R: TmuxCommandRunner, H: PopupHost>(
    pane: &Pane,
    title: &str,
    state: &mut PopupState,
    services: &mut TmuxActions<R>,
    host: &mut LoggedPopup<H>,
) -> (r: Result<Next, MuxError>)
    ensures
        old(services).runner.history().is_prefix_of(final(services).runner.history()),
        old(host).events().is_prefix_of(final(host).events()),
        renamed_pane(
            *pane,
            title@,
            *old(state),
            (Done {
                trace: actions::exchanged(
                    old(services).runner.history(),
                    final(services).runner.history(),
                ),
                events: final(host).events().skip(old(host).events().len() as int),
                state: *final(state),
                result: next_outcome(r),
            }),
        ),
{
    let ghost start = services.runner.history();
    let ghost began = host.events();
    let ghost before = *state;
    let token = host.token();
    let ghost asked = host.events();
    let changed = services.rename_pane(pane, title, &token);
    let ghost trace = actions::exchanged(start, services.runner.history());
    let ghost x = error::outcome(changed);
    assert(actions::follows(actions::rename_steps(*pane, title@, token@), trace, x));
    let r = follow_mutation(changed, no_updates(), state, host);
    proof {
        let d = Done {
            trace: Seq::empty(),
            events: host.events(),
            state: *state,
            result: next_outcome(r),
        };
        let whole = Done { trace, events: host.events().skip(began.len() as int), ..d };
        assert(began + seq![asked.last()] =~= asked);
        mutation_is_local(before, d, whole, began, seq![asked.last()], x, Seq::empty());
        assert(whole.events[0] == asked.last());
    }
    r
}

fn unpin_one<R: TmuxCommandRunner, H: PopupHost>(
    pane: &Pane,
    state: &mut PopupState,
    services: &mut TmuxActions<R>,
    host: &mut LoggedPopup<H>,
) -> (r: Result<Next, MuxError>)
    ensures
        old(services).runner.history().is_prefix_of(final(services).runner.history()),
        old(host).events().is_prefix_of(final(host).events()),
        unpinned_pane(
            *pane,
            *old(state),
            (Done {
                trace: actions::exchanged(
                    old(services).runner.history(),
                    final(services).runner.history(),
                ),
                events: final(host).events().skip(old(host).events().len() as int),
                state: *final(state),
                result: next_outcome(r),
            }),
        ),
{
    let ghost start = services.runner.history();
    let ghost began = host.events();
    let ghost before = *state;
    let token = host.token();
    let ghost asked = host.events();
    let changed = services.unpin_pane(pane, &token);
    let ghost trace = actions::exchanged(start, services.runner.history());
    let ghost x = error::outcome(changed);
    assert(actions::follows(actions::unpin_steps(*pane, token@), trace, x));
    let r = follow_mutation(changed, no_updates(), state, host);
    proof {
        let d = Done {
            trace: Seq::empty(),
            events: host.events(),
            state: *state,
            result: next_outcome(r),
        };
        let whole = Done { trace, events: host.events().skip(began.len() as int), ..d };
        assert(began + seq![asked.last()] =~= asked);
        mutation_is_local(before, d, whole, began, seq![asked.last()], x, Seq::empty());
        assert(whole.events[0] == asked.last());
    }
    r
}

/// Carries an action out.
pub fn handle_action<R: TmuxCommandRunner, H: PopupHost>(
    action: Action,
    state: &mut PopupState,
    panes: &Vec<Pane>,
    selected: Option<&Pane>,
    resume_yolo: Option<bool>,
    context: &InvocationContext,
    services: &mut TmuxActions<R>,
    codex: &CodexExecutable,
    host: &mut LoggedPopup<H>,
) -> (r: Result<Next, MuxError>)
    ensures
        old(services).runner.history().is_prefix_of(final(services).runner.history()),
        old(host).events().is_prefix_of(final(host).events()),
        action_done(
            action,
            *old(state),
            panes@,
            selected,
            resume_yolo,
            *context,
            codex@,
            (Done {
                trace: actions::exchanged(
                    old(services).runner.history(),
                    final(services).runner.history(),
                ),
                events: final(host).events().skip(old(host).events().len() as int),
                state: *final(state),
                result: next_outcome(r),
            }),
        ),
{
    let ghost start = services.runner.history();
    let ghost began = host.events();
    proof {
        assert(actions::exchanged(start, start) =~= Seq::empty());
        assert(began.skip(began.len() as int) =~= Seq::empty());
    }
    match action {
        Action::Activate(id) => match find_pane(panes, &id) {
            None => Err(gone()),
            Some(at) => activate(&panes[at], context, services, state),
        },
        Action::New => open_session(
            selected,
            false,
            "New Codex session was not created: ",
            context,
            services,
            codex,
            state,
        ),
        Action::LaunchProfile(profile) => {
            let front = profile_front(&profile.name);
            let yolo = profile.permissions == PermissionPreset::Yolo;
            open_session(selected, yolo, &front, context, services, codex, state)
        },
        Action::PersistProfiles(profiles) => {
            let saved = host.save_profiles(&profiles);
            assert(host.events().skip(began.len() as int) =~= seq![host.events().last()]);
            match saved {
                Ok(()) => Ok(Next::Stay(one_update(UiUpdate::ProfilesSaved))),
                Err(e) => Ok(
                    Next::Stay(one_update(UiUpdate::ProfileSaveFailed(e.to_text()))),
                ),
            }
        },
        Action::PersistSmartNaming(enabled) => save_naming(enabled, state, host),
        Action::Resume => match resume_yolo {
            None => Err(command_error("resume profile selection disappeared")),
            Some(yolo) => resume_session(selected, yolo, context, services, codex, state),
        },
        Action::Close(id) => match find_pane(panes, &id) {
            None => Err(gone()),
            Some(at) => close_one(&panes[at], state, services, host),
        },
        Action::Rename(id, title) => match find_pane(panes, &id) {
            None => Err(gone()),
            Some(at) => rename_one(&panes[at], &title, state, services, host),
        },
        Action::Unpin(id) => match find_pane(panes, &id) {
            None => Err(gone()),
            Some(at) => unpin_one(&panes[at], state, services, host),
        },
        Action::AutoName(id) => match find_pane(panes, &id) {
            None => Err(gone()),
            Some(at) => ask_auto_name(&panes[at], state, host),
        },
        Action::PersistTheme(theme) => {
            let saved = host.save_theme(theme);
            assert(host.events().skip(began.len() as int) =~= seq![host.events().last()]);
            match saved {
                Ok(()) => Ok(Next::Stay(no_updates())),
                Err(e) => Err(e),
            }
        },
        Action::Quit => Ok(Next::Leave),
    }
}

/// A pane that changed is not shown from a snapshot taken before the change.
pub proof fn a_change_outdates_snapshots(
    before: PopupState,
    d: Done,
    events: Seq<PopupEvent>,
    updates: Seq<UpdateModel>,
    generations: Seq<u64>,
    i: int,
)
    requires
        mutated(before, d, events, Ok(()), updates),
        before.minimum_refresh_generation < u64::MAX,
        shown_snapshot(generations, d.state.minimum_refresh_generation) == Some(i),
    ensures
        0 <= i < generations.len(),
        generations[i] > before.minimum_refresh_generation,
    decreases generations.len(),
{
    if generations.last() < d.state.minimum_refresh_generation {
        a_change_outdates_snapshots(before, d, events, updates, generations.drop_last(), i);
    }
}

} // verus!
