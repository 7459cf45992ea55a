//! Where a popup stands, where a worker runs, and what is told of it.

use vstd::prelude::*;
use crate::app::context;
use crate::app::context::PlaceModel;
use crate::app::daemon;
use crate::app::daemon::Descendant;
use crate::app::places;
use crate::app::report;
use crate::cli::Cli;
use crate::domain::Exchange;
use crate::error::ErrorModel;
use crate::number;
use crate::path;
use crate::smart_naming::lane;
use crate::smart_naming::lane::{CommandSignal, NamingCommand};
use crate::text;

verus! {

/// A popup works in the directory that it was opened from. Where tmux does not show the
/// client on that pane, the client, the pane and the session are those that were given, and
/// so is the window, where one was.
pub proof fn a_popup_stands_where_it_was_opened(
    cli: Cli,
    trace: Seq<Exchange>,
    place: PlaceModel,
)
    requires
        context::context_found(cli, trace, Ok(place)),
    ensures
        cli.invoking_path matches Some(p) && p@ == place.path && path::is_absolute(p@),
        cli.client is Some,
        cli.invoking_pane is Some,
        trace.len() >= 1,
        context::live_place(trace[0].reply, cli.client->0@, cli.invoking_pane->0@) is None
            ==> place.client == cli.client->0@ && place.pane == cli.invoking_pane->0@ && (
        cli.invoking_session matches Some(session) && session@ == place.session) && (
        cli.invoking_window matches Some(window) ==> window@ == place.window),
        context::live_place(
            trace[0].reply,
            cli.client->0@,
            cli.invoking_pane->0@,
        ) matches Some(live) ==> place.client == live.client && place.pane == live.pane
            && place.session == live.session && place.window == live.window,
{
}

/// A popup that was not told where it was opened asks tmux nothing.
pub proof fn a_popup_without_a_place_is_refused(
    cli: Cli,
    trace: Seq<Exchange>,
    result: Result<PlaceModel, ErrorModel>,
)
    requires
        context::context_found(cli, trace, result),
        cli.invoking_path is None || cli.invoking_pane is None || cli.client is None,
    ensures
        trace.len() == 0,
        result is Err,
{
}

/// The runtime directory is the one that the environment names, and otherwise one of the
/// user's own among the temporary files.
pub proof fn the_runtime_directory_comes_first(
    runtime: Seq<u8>,
    temporary: Seq<u8>,
    user: u32,
)
    requires
        runtime.len() > 0,
    ensures
        daemon::runtime_root(Some(runtime), temporary, user) == runtime,
        daemon::runtime_root(None, temporary, user) == path::joined(
            temporary,
            text::utf8("codex-mux-runtime-"@ + number::decimal(user as nat)),
        ),
        daemon::runtime_root(Some(Seq::empty()), temporary, user) == daemon::runtime_root(
            None,
            temporary,
            user,
        ),
{
}

/// Whether the deepest stand first.
pub open spec fn deepest_first(list: Seq<Descendant>) -> bool {
    forall|i: int, j: int|
        0 <= i < j < list.len() ==> (#[trigger] list[i]).depth >= (#[trigger] list[j]).depth
}

/// Processes are put in an order in which no parent comes before its children: the
/// deepest come first.
pub proof fn the_deepest_come_first(list: Seq<Descendant>, one: Descendant)
    requires
        deepest_first(list),
    ensures
        deepest_first(daemon::by_depth(list, one)),
        daemon::by_depth(list, one).len() == list.len() + 1,
        daemon::by_depth(list, one).contains(one),
        forall|k: int|
            0 <= k < list.len() ==> daemon::by_depth(list, one).contains(#[trigger] list[k]),
        forall|k: int|
            0 <= k < daemon::by_depth(list, one).len() ==> (#[trigger] daemon::by_depth(
                list,
                one,
            )[k]) == one || list.contains(daemon::by_depth(list, one)[k]),
    decreases list.len(),
{
    let r = daemon::by_depth(list, one);
    if list.len() > 0 && list.last().depth < one.depth {
        let front = list.drop_last();
        assert(deepest_first(front)) by {
            assert forall|i: int, j: int| 0 <= i < j < front.len() implies (
            #[trigger] front[i]).depth >= (#[trigger] front[j]).depth by {
                assert(list[i].depth >= list[j].depth);
            }
        }
        the_deepest_come_first(front, one);
        let inner = daemon::by_depth(front, one);
        let at = inner.index_of(one);
        assert(r[at] == one);
        assert forall|k: int| 0 <= k < list.len() implies r.contains(#[trigger] list[k]) by {
            if k < front.len() {
                assert(inner.contains(front[k]));
                let m = inner.index_of(front[k]);
                assert(r[m] == list[k]);
            } else {
                assert(r[inner.len() as int] == list[k]);
            }
        }
        assert forall|k: int| 0 <= k < r.len() implies (#[trigger] r[k]) == one || list.contains(
            r[k],
        ) by {
            if k < inner.len() {
                assert(r[k] == inner[k]);
                if inner[k] != one {
                    let m = front.index_of(inner[k]);
                    assert(list[m] == r[k]);
                }
            } else {
                assert(list[list.len() - 1] == r[k]);
            }
        }
        assert forall|i: int, j: int| 0 <= i < j < r.len() implies (#[trigger] r[i]).depth >= (
        #[trigger] r[j]).depth by {
            if j < inner.len() {
                assert(inner[i].depth >= inner[j].depth);
            } else if inner[i] != one {
                let m = front.index_of(inner[i]);
                assert(list[m].depth >= list[list.len() - 1].depth);
            }
        }
    } else {
        assert(r == list.push(one));
        assert(r[list.len() as int] == one);
        assert forall|k: int| 0 <= k < list.len() implies r.contains(#[trigger] list[k]) by {
            assert(r[k] == list[k]);
        }
        assert forall|i: int, j: int| 0 <= i < j < r.len() implies (#[trigger] r[i]).depth >= (
        #[trigger] r[j]).depth by {
            if j < list.len() {
                assert(list[i].depth >= list[j].depth);
            } else if i < list.len() - 1 {
                assert(list[i].depth >= list[list.len() - 1].depth);
            }
        }
    }
}

/// A shell file keeps its name where its directory is a link: only the directory is
/// followed.
pub proof fn a_shell_file_keeps_its_name(p: Seq<u8>, directory: Seq<u8>, name: Seq<u8>)
    requires
        path::parent(p) is Some,
        path::file_name(p) == Some(name),
    ensures
        places::resolved_target(p, Ok(directory)) == Ok::<_, ErrorModel>(
            path::joined(directory, name),
        ),
{
}

/// An order to stop outweighs every order to wake.
pub proof fn an_order_to_stop_counts(commands: Seq<NamingCommand>)
    ensures
        commands.contains(NamingCommand::Stop) <==> lane::signal_of(commands)
            == CommandSignal::Stop,
        commands.len() == 0 <==> lane::signal_of(commands) == CommandSignal::Quiet,
{
}

/// Setting up and removing say whether anything was done, and to which file.
pub proof fn a_binding_is_told_with_its_file(p: Seq<u8>)
    ensures
        report::binding_line(true, p) == "installed codex-mux binding in "@ + text::lossy_text(p),
        report::binding_line(false, p) == "codex-mux binding is already current in "@
            + text::lossy_text(p),
        report::removal_line(true, p) == "removed codex-mux binding from "@ + text::lossy_text(p),
        report::removal_line(false, p) == "codex-mux binding was not installed in "@
            + text::lossy_text(p),
{
}

} // verus!
