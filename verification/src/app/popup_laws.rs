//! What the actions of the popup do to panes, settings and the popup itself.

use vstd::prelude::*;
use crate::app::cycle;
use crate::app::interactive;
use crate::app::interactive::{Action, Done, NextModel, PopupEvent, PopupState, UpdateModel};
use crate::config::{LaunchProfile, PermissionPreset};
use crate::domain::{Exchange, InvocationContext, Pane, PaneId, ThemeId};
use crate::error::ErrorModel;
use crate::launch;
use crate::launch::LaunchKind;
use crate::text;
use crate::tmux::actions;

verus! {

proof fn a_place_holds_the_pane(panes: Seq<Pane>, id: Seq<char>, i: int)
    requires
        0 <= i <= panes.len(),
    ensures
        match cycle::pane_place(panes, id, i) {
            Some(k) => i <= k < panes.len() && panes[k].id@ == id,
            None => forall|k: int| i <= k < panes.len() ==> (#[trigger] panes[k]).id@ != id,
        },
    decreases panes.len() - i,
{
    if i < panes.len() && panes[i].id@ != id {
        a_place_holds_the_pane(panes, id, i + 1);
    }
}

/// No pane that is shown has an identity.
pub open spec fn is_gone(panes: Seq<Pane>, id: Seq<char>) -> bool {
    forall|k: int| 0 <= k < panes.len() ==> (#[trigger] panes[k]).id@ != id
}

/// The pane that an action is about, where it is about one.
pub open spec fn about(action: Action) -> Option<Seq<char>> {
    match action {
        Action::Activate(id) => Some(id@),
        Action::Close(id) => Some(id@),
        Action::Rename(id, _) => Some(id@),
        Action::Unpin(id) => Some(id@),
        Action::AutoName(id) => Some(id@),
        _ => None,
    }
}

/// An action on a pane that is gone does nothing, and says that the pane disappeared.
pub proof fn an_action_on_a_gone_pane_does_nothing(
    action: Action,
    before: PopupState,
    panes: Seq<Pane>,
    selected: Option<&Pane>,
    resume_yolo: Option<bool>,
    context: InvocationContext,
    codex: Seq<u8>,
    d: Done,
)
    requires
        interactive::action_done(
            action,
            before,
            panes,
            selected,
            resume_yolo,
            context,
            codex,
            d,
        ),
        about(action) is Some,
        is_gone(panes, about(action)->0),
    ensures
        d.trace.len() == 0,
        d.events.len() == 0,
        d.state == before,
        d.result == Err::<NextModel, ErrorModel>(
            ErrorModel::Command("selected pane disappeared"@),
        ),
{
    a_place_holds_the_pane(panes, about(action)->0, 0);
}

/// Activating a pane that is shown leads the invoking client to that pane and leaves the
/// popup.
pub proof fn an_activated_pane_is_shown(
    id: PaneId,
    before: PopupState,
    panes: Seq<Pane>,
    selected: Option<&Pane>,
    resume_yolo: Option<bool>,
    context: InvocationContext,
    codex: Seq<u8>,
    d: Done,
)
    requires
        interactive::action_done(
            Action::Activate(id),
            before,
            panes,
            selected,
            resume_yolo,
            context,
            codex,
            d,
        ),
        !is_gone(panes, id@),
        d.result is Ok,
    ensures
        d.result == Ok::<NextModel, ErrorModel>(NextModel::Leave),
        d.state == before,
        d.trace.len() == 2,
        exists|zoom: bool|
            d.trace[1].request == text::utf8_words(
                #[trigger] actions::switch_words(context.client_id@, id@, zoom),
            ),
{
    a_place_holds_the_pane(panes, id@, 0);
    let done = choose|done: Result<(), ErrorModel>| #[trigger]
        actions::switched(context.client_id@, id@, d.trace, done) && d.result
            == interactive::leave_or_fail(done);
    let output = actions::checked(d.trace[0].reply)->Ok_0;
    let zoomed = actions::zoom_flag(output.stdout)->Ok_0;
    assert(d.trace[1].request == text::utf8_words(
        actions::switch_words(context.client_id@, id@, !zoomed),
    ));
}

/// Closing a pane that is shown kills that pane and no other; where that succeeds, the list
/// forgets the pane and a newer snapshot is asked for.
pub proof fn a_closed_pane_is_killed(
    id: PaneId,
    before: PopupState,
    panes: Seq<Pane>,
    selected: Option<&Pane>,
    resume_yolo: Option<bool>,
    context: InvocationContext,
    codex: Seq<u8>,
    d: Done,
)
    requires
        interactive::action_done(
            Action::Close(id),
            before,
            panes,
            selected,
            resume_yolo,
            context,
            codex,
            d,
        ),
        !is_gone(panes, id@),
    ensures
        d.trace.len() == 1,
        d.trace[0].request == text::utf8_words(seq!["kill-pane"@, "-t"@, id@]),
        d.result is Ok ==> {
            &&& d.trace[0].reply is Ok && d.trace[0].reply->Ok_0.status == Some(0i32)
            &&& d.result == Ok::<NextModel, ErrorModel>(
                NextModel::Stay(seq![UpdateModel::PaneClosed(id@)]),
            )
            &&& asks_for_more(before, d, Seq::empty())
        },
        d.result is Err ==> d.events.len() == 0 && d.state == before,
{
    a_place_holds_the_pane(panes, id@, 0);
}

/// A newer snapshot than any that was asked for before is asked for, and older ones are not
/// shown any more.
pub open spec fn asks_for_more(before: PopupState, d: Done, earlier: Seq<PopupEvent>) -> bool {
    &&& d.events == earlier.push(PopupEvent::Refresh(d.state.minimum_refresh_generation))
    &&& before.minimum_refresh_generation < u64::MAX ==> d.state.minimum_refresh_generation
        == before.minimum_refresh_generation + 1
    &&& d.state.initial_selection_pending == before.initial_selection_pending
    &&& d.state.shutdown_pending == before.shutdown_pending
    &&& d.state.dirty == before.dirty
}

/// Renaming a pane that is shown renames that pane, all the way, before it succeeds.
pub proof fn a_renamed_pane_is_the_one_shown(
    id: PaneId,
    title: String,
    before: PopupState,
    panes: Seq<Pane>,
    selected: Option<&Pane>,
    resume_yolo: Option<bool>,
    context: InvocationContext,
    codex: Seq<u8>,
    d: Done,
)
    requires
        interactive::action_done(
            Action::Rename(id, title),
            before,
            panes,
            selected,
            resume_yolo,
            context,
            codex,
            d,
        ),
        !is_gone(panes, id@),
        d.result is Ok,
    ensures
        d.events.len() == 2,
        d.events[0] is Token,
        asks_for_more(before, d, seq![d.events[0]]),
        exists|k: int|
            0 <= k < panes.len() && (#[trigger] panes[k]).id@ == id@ && all_steps(
                actions::rename_steps(panes[k], title@, d.events[0]->Token_0),
                d.trace,
            ),
{
    a_place_holds_the_pane(panes, id@, 0);
    let k = cycle::pane_place(panes, id@, 0)->0;
    let token = d.events[0]->Token_0;
    let steps = actions::rename_steps(panes[k], title@, token);
    let changed = choose|changed: Result<(), ErrorModel>| #[trigger]
        actions::follows(steps, d.trace, changed) && interactive::mutated(
            before,
            d,
            seq![d.events[0]],
            changed,
            Seq::empty(),
        );
    actions::success_means_every_step(steps, d.trace, changed);
    assert(panes[k].id@ == id@ && all_steps(steps, d.trace));
}

/// Each of the steps was requested, and each was answered as it demands.
pub open spec fn all_steps(steps: Seq<actions::StepModel>, trace: Seq<Exchange>) -> bool {
    &&& trace.len() == steps.len()
    &&& forall|i: int|
        0 <= i < steps.len() ==> {
            &&& (#[trigger] trace[i]).request == text::utf8_words(steps[i].request)
            &&& actions::step_outcome(steps[i], trace[i].reply) is Ok
        }
}

/// Unpinning a pane that is shown unpins that pane, all the way, before it succeeds.
pub proof fn an_unpinned_pane_is_the_one_shown(
    id: PaneId,
    before: PopupState,
    panes: Seq<Pane>,
    selected: Option<&Pane>,
    resume_yolo: Option<bool>,
    context: InvocationContext,
    codex: Seq<u8>,
    d: Done,
)
    requires
        interactive::action_done(
            Action::Unpin(id),
            before,
            panes,
            selected,
            resume_yolo,
            context,
            codex,
            d,
        ),
        !is_gone(panes, id@),
        d.result is Ok,
    ensures
        d.events.len() == 2,
        d.events[0] is Token,
        asks_for_more(before, d, seq![d.events[0]]),
        exists|k: int|
            0 <= k < panes.len() && (#[trigger] panes[k]).id@ == id@ && all_steps(
                actions::unpin_steps(panes[k], d.events[0]->Token_0),
                d.trace,
            ),
{
    a_place_holds_the_pane(panes, id@, 0);
    let k = cycle::pane_place(panes, id@, 0)->0;
    let token = d.events[0]->Token_0;
    let steps = actions::unpin_steps(panes[k], token);
    let changed = choose|changed: Result<(), ErrorModel>| #[trigger]
        actions::follows(steps, d.trace, changed) && interactive::mutated(
            before,
            d,
            seq![d.events[0]],
            changed,
            Seq::empty(),
        );
    actions::success_means_every_step(steps, d.trace, changed);
    assert(panes[k].id@ == id@ && all_steps(steps, d.trace));
}

/// Asking for a name of a pane that is shown first sees to the worker, then asks for that
/// pane; what fails is told and stays without effect on the list.
pub proof fn a_name_is_asked_for_the_pane(
    id: PaneId,
    before: PopupState,
    panes: Seq<Pane>,
    selected: Option<&Pane>,
    resume_yolo: Option<bool>,
    context: InvocationContext,
    codex: Seq<u8>,
    d: Done,
)
    requires
        interactive::action_done(
            Action::AutoName(id),
            before,
            panes,
            selected,
            resume_yolo,
            context,
            codex,
            d,
        ),
        !is_gone(panes, id@),
    ensures
        d.result is Ok,
        d.trace.len() == 0,
        1 <= d.events.len() <= 3,
        d.events[0] is EnsureDaemon,
        d.events.len() > 1 ==> d.events[0]->EnsureDaemon_0 is Ok && d.events[1] is AutoName
            && d.events[1]->AutoName_0 == id@,
        d.events.len() == 3 ==> d.events[1]->AutoName_1 is Ok && asks_for_more(
            before,
            d,
            d.events.take(2),
        ),
        d.events.len() < 3 ==> {
            &&& d.state == before
            &&& d.result->Ok_0 is Stay
            &&& d.result->Ok_0->Stay_0.len() == 1
            &&& d.result->Ok_0->Stay_0[0] is AutoNameFailed
        },
{
    a_place_holds_the_pane(panes, id@, 0);
    if d.events.len() == 3 {
        assert(d.events =~= d.events.take(2).push(d.events[2]));
    }
}

/// A profile launches the executable with its permissions: with the word that lifts them
/// exactly where the profile says so, in a new session.
pub proof fn a_profile_launches_with_its_permissions(
    profile: LaunchProfile,
    before: PopupState,
    panes: Seq<Pane>,
    selected: Option<&Pane>,
    resume_yolo: Option<bool>,
    context: InvocationContext,
    codex: Seq<u8>,
    d: Done,
)
    requires
        interactive::action_done(
            Action::LaunchProfile(profile),
            before,
            panes,
            selected,
            resume_yolo,
            context,
            codex,
            d,
        ),
    ensures
        d.trace.len() >= 1,
        d.events.len() == 0 && d.state == before,
        d.trace[0].request[11] == codex,
        d.trace[0].request[7] == text::utf8(context.window_id@),
        profile.permissions == PermissionPreset::Yolo ==> d.trace[0].request.len() == 15
            && d.trace[0].request[14] == text::utf8("--yolo"@),
        profile.permissions != PermissionPreset::Yolo ==> d.trace[0].request.len() == 14,
        d.trace.len() > 1 ==> exists|pane: Seq<char>|
            d.trace[1].request == text::utf8_words(
                #[trigger] actions::switch_words(context.client_id@, pane, false),
            ),
{
    let directory = launch::directory(launch::selected_path(selected), context.current_path@);
    let yolo = profile.permissions == PermissionPreset::Yolo;
    launch::a_launch_is_told_apart_by_its_last_words(
        codex,
        context.window_id@,
        directory,
        yolo,
    );
    let words = interactive::session_words(codex, context, selected, LaunchKind::New, yolo);
    let front = "Profile "@ + text::debug_text(profile.name@)
        + " did not create a Codex session: "@;
    let launched = choose|launched: Result<Seq<char>, ErrorModel>| #[trigger]
        actions::launched(words, context.client_id@, d.trace, launched) && d.result
            == interactive::after_launch(launched, front);
    if yolo {
        launch::permissions_are_one_word(
            codex,
            context.window_id@,
            directory,
            LaunchKind::New,
        );
    }
}

/// Resuming opens the picker of every directory with the permissions that were chosen, and
/// fails where none were.
pub proof fn resuming_opens_the_picker(
    before: PopupState,
    panes: Seq<Pane>,
    selected: Option<&Pane>,
    resume_yolo: Option<bool>,
    context: InvocationContext,
    codex: Seq<u8>,
    d: Done,
)
    requires
        interactive::action_done(
            Action::Resume,
            before,
            panes,
            selected,
            resume_yolo,
            context,
            codex,
            d,
        ),
    ensures
        d.events.len() == 0 && d.state == before,
        resume_yolo is None ==> d.trace.len() == 0 && d.result is Err,
        resume_yolo matches Some(yolo) ==> {
            let words = d.trace[0].request;
            &&& d.trace.len() >= 1
            &&& words[11] == codex
            &&& words.len() == if yolo {
                17int
            } else {
                16
            }
            &&& words[words.len() - 2] == text::utf8("resume"@)
            &&& words[words.len() - 1] == text::utf8("--all"@)
            &&& d.result is Ok ==> d.result == Ok::<NextModel, ErrorModel>(NextModel::Leave)
        },
{
    if let Some(yolo) = resume_yolo {
        let directory = launch::directory(launch::selected_path(selected), context.current_path@);
        launch::a_launch_is_told_apart_by_its_last_words(
            codex,
            context.window_id@,
            directory,
            yolo,
        );
        let words = interactive::session_words(
            codex,
            context,
            selected,
            LaunchKind::ResumeAll,
            yolo,
        );
        let launched = choose|launched: Result<Seq<char>, ErrorModel>| #[trigger]
            actions::launched_and_marked(words, context.client_id@, d.trace, launched) && d.result
                == interactive::after_resume(launched);
        if launched is Ok {
            assert(d.trace.take(2)[0] == d.trace[0]);
        }
    }
}

/// Settings that an action changes are saved as they were chosen, and nothing else is
/// touched.
pub proof fn settings_are_saved_as_chosen(
    theme: ThemeId,
    before: PopupState,
    panes: Seq<Pane>,
    selected: Option<&Pane>,
    resume_yolo: Option<bool>,
    context: InvocationContext,
    codex: Seq<u8>,
    d: Done,
)
    requires
        interactive::action_done(
            Action::PersistTheme(theme),
            before,
            panes,
            selected,
            resume_yolo,
            context,
            codex,
            d,
        ),
    ensures
        d.trace.len() == 0,
        d.state == before,
        d.events.len() == 1,
        d.events[0] is SaveTheme,
        d.events[0]->SaveTheme_0 == theme,
        d.result is Ok <==> d.events[0]->SaveTheme_1 is Ok,
{
}

/// Turning generated names on saves that and starts the worker; turning them off saves that
/// and has the worker stopped. What could not be saved changes nothing.
pub proof fn generated_names_are_turned_on_and_off(
    enabled: bool,
    before: PopupState,
    panes: Seq<Pane>,
    selected: Option<&Pane>,
    resume_yolo: Option<bool>,
    context: InvocationContext,
    codex: Seq<u8>,
    d: Done,
)
    requires
        interactive::action_done(
            Action::PersistSmartNaming(enabled),
            before,
            panes,
            selected,
            resume_yolo,
            context,
            codex,
            d,
        ),
    ensures
        d.trace.len() == 0,
        d.events.len() >= 1,
        d.events[0] is SaveNaming,
        d.events[0]->SaveNaming_0 == enabled,
        d.events[0]->SaveNaming_1 is Err ==> d.events.len() == 1 && d.state == before,
        d.events[0]->SaveNaming_1 is Ok ==> d.events.len() == 2,
        d.events[0]->SaveNaming_1 is Ok && enabled ==> d.events[1] is EnsureDaemon && d.state
            == before,
        d.events[0]->SaveNaming_1 is Ok && !enabled ==> d.events[1] is BeginShutdown
            && d.state.shutdown_pending,
{
}

/// The newest snapshot is shown that is not outdated: none behind it is, and it is not.
pub proof fn the_newest_snapshot_is_shown(generations: Seq<u64>, minimum: u64)
    ensures
        match interactive::shown_snapshot(generations, minimum) {
            Some(k) => {
                &&& 0 <= k < generations.len()
                &&& generations[k] >= minimum
                &&& forall|j: int| k < j < generations.len() ==> #[trigger] generations[j]
                    < minimum
            },
            None => forall|j: int| 0 <= j < generations.len() ==> #[trigger] generations[j]
                < minimum,
        },
    decreases generations.len(),
{
    if generations.len() > 0 && generations.last() < minimum {
        let head = generations.drop_last();
        the_newest_snapshot_is_shown(head, minimum);
        assert forall|j: int| 0 <= j < head.len() implies generations[j] == #[trigger] head[j] by {}
        match interactive::shown_snapshot(generations, minimum) {
            Some(k) => {
                assert forall|j: int| k < j < generations.len() implies #[trigger] generations[j]
                    < minimum by {
                    if j < head.len() {
                        assert(head[j] < minimum);
                    }
                }
            },
            None => {
                assert forall|j: int| 0 <= j < generations.len() implies #[trigger] generations[j]
                    < minimum by {
                    if j < head.len() {
                        assert(head[j] < minimum);
                    }
                }
            },
        }
    }
}

} // verus!
