//! Where the program is found, which panes show a generated name, and which are asked.

use vstd::prelude::*;
use crate::app::cycle;
use crate::app::names;
use crate::app::preference;
use crate::app::preference::PreferenceProbe;
use crate::app::search;
use crate::app::search::SearchEvent;
use crate::domain::Pane;
use crate::path;
use crate::text;
use crate::tmux::owned_names::NamedPane;

verus! {

proof fn the_first_file_is_taken(
    w: Seq<SearchEvent>,
    k: int,
    directories: Seq<Seq<u8>>,
    from: int,
    i: int,
)
    requires
        0 <= from <= i < directories.len(),
        0 <= k,
        k + (i - from) < w.len(),
        forall|j: int|
            from <= j < i ==> #[trigger] w[k + (j - from)] == (SearchEvent::IsFile {
                path: path::joined(directories[j], text::utf8("codex"@)),
                reply: false,
            }),
        w[k + (i - from)] == (SearchEvent::IsFile {
            path: path::joined(directories[i], text::utf8("codex"@)),
            reply: true,
        }),
    ensures
        search::first_file_at(w, k, directories, from) == Some(
            (Some(path::joined(directories[i], text::utf8("codex"@))), k + (i - from) + 1),
        ),
    decreases i - from,
{
    if from < i {
        assert(w[k + (from - from)] is IsFile);
        assert(w[k] == w[k + (from - from)]);
        assert forall|j: int| from + 1 <= j < i implies #[trigger] w[k + 1 + (j - (from + 1))] == (
        SearchEvent::IsFile {
            path: path::joined(directories[j], text::utf8("codex"@)),
            reply: false,
        }) by {
            assert(w[k + (j - from)] is IsFile);
        }
        the_first_file_is_taken(w, k + 1, directories, from + 1, i);
    }
}

/// The program is `codex` in the first directory of the search path that has such a file,
/// by its real path.
pub proof fn the_first_directory_with_the_program_counts(
    w: Seq<SearchEvent>,
    directories: Seq<Seq<u8>>,
    i: int,
    actual: Seq<u8>,
)
    requires
        0 <= i < directories.len(),
        w.len() == i + 3,
        w[0] == SearchEvent::Directories(directories),
        forall|j: int|
            0 <= j < i ==> #[trigger] w[1 + j] == (SearchEvent::IsFile {
                path: path::joined(directories[j], text::utf8("codex"@)),
                reply: false,
            }),
        w[1 + i] == (SearchEvent::IsFile {
            path: path::joined(directories[i], text::utf8("codex"@)),
            reply: true,
        }),
        w[2 + i] == (SearchEvent::Canonical {
            path: path::joined(directories[i], text::utf8("codex"@)),
            reply: Ok(actual),
        }),
    ensures
        search::discovered_at(w, 0) == Some((Ok::<_, crate::error::ErrorModel>(actual), i + 3)),
{
    assert forall|j: int| 0 <= j < i implies #[trigger] w[1 + (j - 0)] == (SearchEvent::IsFile {
        path: path::joined(directories[j], text::utf8("codex"@)),
        reply: false,
    }) by {
        assert(w[1 + j] is IsFile);
    }
    the_first_file_is_taken(w, 1, directories, 0, i);
}

/// A generated name that rests on nothing lasting is shown only where the conversation that
/// was found in the pane is the one that the name is for. Every other pane stays as it is,
/// and of a pane without its name nothing else is lost.
pub proof fn a_name_is_shown_for_its_conversation(
    panes: Seq<Pane>,
    found: Option<Seq<Option<Seq<char>>>>,
    i: int,
)
    requires
        0 <= i < panes.len(),
    ensures
        panes[i].generated_title is None || panes[i].generated_source_stable ==> names::shown(
            panes,
            found,
            i,
        ) == panes[i],
        panes[i].generated_title is Some && !panes[i].generated_source_stable
            && panes[i].generated_thread_id is Some && found is None ==> names::shown(
            panes,
            found,
            i,
        ).generated_title is None,
        names::shown(panes, found, i).id == panes[i].id,
        names::shown(panes, found, i).title == panes[i].title,
        names::shown(panes, found, i).pane_pid == panes[i].pane_pid,
        names::shown(panes, found, i).generated_thread_id == panes[i].generated_thread_id,
        names::shown(panes, found, i).generated_title is Some ==> names::shown(panes, found, i)
            == panes[i],
{
}

proof fn the_pane_of_a_name(panes: Seq<Pane>, id: Seq<char>, p: int, from: int)
    requires
        0 <= from <= p < panes.len(),
        panes[p].id@ == id,
        forall|j: int| from <= j < p ==> (#[trigger] panes[j]).id@ != id,
    ensures
        cycle::pane_place(panes, id, from) == Some(p),
    decreases p - from,
{
    if from < p {
        assert(panes[from].id@ != id);
        the_pane_of_a_name(panes, id, p, from + 1);
    }
}

/// Every name that rests on nothing lasting is asked for, by the process of its pane.
pub proof fn every_uncertain_name_is_asked_for(
    list: Seq<NamedPane>,
    panes: Seq<Pane>,
    i: int,
    p: int,
)
    requires
        0 <= i < list.len(),
        !list[i].name.stable_source_title,
        0 <= p < panes.len(),
        panes[p].id@ == list[i].pane@,
        forall|j: int| 0 <= j < p ==> (#[trigger] panes[j]).id@ != list[i].pane@,
    ensures
        exists|k: int|
            0 <= k < cycle::candidates(list, panes).len() && (#[trigger] cycle::candidates(
                list,
                panes,
            )[k]).pane == list[i].pane@ && cycle::candidates(list, panes)[k].leader
                == panes[p].pane_pid,
    decreases list.len(),
{
    let rest = cycle::candidates(list.drop_last(), panes);
    if i == list.len() - 1 {
        the_pane_of_a_name(panes, list[i].pane@, p, 0);
        assert(cycle::candidates(list, panes)[rest.len() as int].pane == list[i].pane@);
    } else {
        assert(list.drop_last()[i] == list[i]);
        every_uncertain_name_is_asked_for(list.drop_last(), panes, i, p);
        let k = choose|k: int|
            0 <= k < rest.len() && (#[trigger] rest[k]).pane == list[i].pane@ && rest[k].leader
                == panes[p].pane_pid;
        assert(cycle::candidates(list, panes)[k] == rest[k]);
    }
}

/// A name that rests on a lasting title is asked for by nobody.
pub proof fn a_lasting_name_is_not_asked_for(list: Seq<NamedPane>, panes: Seq<Pane>)
    requires
        forall|i: int| 0 <= i < list.len() ==> (#[trigger] list[i]).name.stable_source_title,
    ensures
        cycle::candidates(list, panes).len() == 0,
    decreases list.len(),
{
    if list.len() > 0 {
        assert(list[list.len() - 1].name.stable_source_title);
        assert forall|i: int| 0 <= i < list.drop_last().len() implies (
        #[trigger] list.drop_last()[i]).name.stable_source_title by {
            assert(list.drop_last()[i] == list[i]);
        }
        a_lasting_name_is_not_asked_for(list.drop_last(), panes);
    }
}

/// The preference file is kept as it was: its bytes and its mode where there is one, and
/// nothing where there is none.
pub proof fn a_preference_is_kept_as_it_was(p: Seq<u8>, bytes: Vec<u8>, mode: u32)
    ensures
        preference::preference_seen(p, PreferenceProbe::Missing) matches Ok(seen) && seen.path == p
            && seen.previous is None,
        preference::preference_seen(
            p,
            PreferenceProbe::Regular { contents: Ok(bytes), mode },
        ) matches Ok(seen) && seen.path == p && seen.previous == Some((bytes@, mode)),
        preference::preference_seen(p, PreferenceProbe::Other) is Err,
{
}

} // verus!
