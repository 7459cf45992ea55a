//! Which panes are found, and what they show.

use vstd::prelude::*;
use crate::domain::{Inspection, Pane};
use crate::error::ErrorModel;
use crate::scan;
use crate::tmux::inventory;
use crate::tmux::inventory::{Candidate, RecordModel};

verus! {

/// Every pane of a usable row is listed, by the first row that shows it.
pub proof fn every_usable_row_is_listed(lines: Seq<Seq<u8>>, i: int)
    requires
        0 <= i < lines.len(),
        inventory::parsed(lines[i]) is Some,
        forall|j: int|
            0 <= j < i && inventory::parsed(#[trigger] lines[j]) is Some ==> inventory::parsed(
                lines[j],
            )->0.pane_id != inventory::parsed(lines[i])->0.pane_id,
    ensures
        inventory::records(lines).contains(inventory::parsed(lines[i])->0),
    decreases lines.len(),
{
    let record = inventory::parsed(lines[i])->0;
    let head = lines.drop_last();
    let rest = inventory::records(head);
    let listed = inventory::records(lines);
    if i == lines.len() - 1 {
        if inventory::lists_pane(rest, record.pane_id) {
            let k = choose|k: int| 0 <= k < rest.len() && (#[trigger] rest[k]).pane_id
                == record.pane_id;
            let j = a_listed_pane_has_its_row(head, k);
            assert(lines[j] == head[j]);
        }
        assert(listed.last() == record);
    } else {
        assert(head[i] == lines[i]);
        assert forall|j: int|
            0 <= j < i && inventory::parsed(#[trigger] head[j]) is Some implies inventory::parsed(
            head[j],
        )->0.pane_id != record.pane_id by {
            assert(lines[j] == head[j]);
        }
        every_usable_row_is_listed(head, i);
        let k = rest.index_of(record);
        assert(listed[k] == record);
    }
}

/// Every pane that is listed has its row.
pub proof fn a_listed_pane_has_its_row(lines: Seq<Seq<u8>>, k: int) -> (i: int)
    requires
        0 <= k < inventory::records(lines).len(),
    ensures
        0 <= i < lines.len(),
        inventory::parsed(lines[i]) == Some(inventory::records(lines)[k]),
    decreases lines.len(),
{
    let head = lines.drop_last();
    let rest = inventory::records(head);
    if k < rest.len() {
        let i = a_listed_pane_has_its_row(head, k);
        assert(lines[i] == head[i]);
        i
    } else {
        lines.len() - 1
    }
}

/// A process was found for a pane exactly where the inspection found one in its place.
pub proof fn processes_belong_to_their_panes(
    listed: Seq<RecordModel>,
    found: Seq<Option<Seq<u8>>>,
    i: int,
)
    requires
        0 <= i < listed.len(),
        listed.len() <= found.len(),
    ensures
        found[i] is Some ==> inventory::candidates(listed, found).contains(
            Candidate { record: listed[i], executable: found[i]->0 },
        ),
    decreases listed.len(),
{
    let all = inventory::candidates(listed, found);
    let head = listed.drop_last();
    let rest = inventory::candidates(head, found);
    if found[i] is Some {
        let wanted = Candidate { record: listed[i], executable: found[i]->0 };
        if i == listed.len() - 1 {
            assert(all.last() == wanted);
        } else {
            assert(head[i] == listed[i]);
            processes_belong_to_their_panes(head, found, i);
            let k = rest.index_of(wanted);
            assert(all[k] == wanted);
        }
    }
}

proof fn a_candidate_has_its_process(
    listed: Seq<RecordModel>,
    found: Seq<Option<Seq<u8>>>,
    k: int,
) -> (i: int)
    requires
        0 <= k < inventory::candidates(listed, found).len(),
        listed.len() <= found.len(),
    ensures
        0 <= i < listed.len(),
        inventory::candidates(listed, found)[k].record == listed[i],
        found[i] == Some(inventory::candidates(listed, found)[k].executable),
    decreases listed.len(),
{
    let head = listed.drop_last();
    let rest = inventory::candidates(head, found);
    if k < rest.len() {
        let i = a_candidate_has_its_process(head, found, k);
        assert(listed[i] == head[i]);
        i
    } else {
        listed.len() - 1
    }
}

proof fn a_recognised_candidate_is_kept(
    c: Seq<Candidate>,
    n: nat,
    configured: Seq<Seq<u8>>,
    resolved: Seq<Option<Seq<u8>>>,
    i: int,
)
    requires
        0 <= i < n <= c.len(),
        inventory::is_codex(c, i, configured, resolved),
        inventory::has_identity(c[i].record),
    ensures
        inventory::codex_records(c, n, configured, resolved).contains(c[i].record),
    decreases n,
{
    let all = inventory::codex_records(c, n, configured, resolved);
    let rest = inventory::codex_records(c, (n - 1) as nat, configured, resolved);
    if i == n - 1 {
        assert(all.last() == c[i].record);
    } else {
        a_recognised_candidate_is_kept(c, (n - 1) as nat, configured, resolved, i);
        let k = rest.index_of(c[i].record);
        assert(all[k] == c[i].record);
    }
}

proof fn a_kept_record_was_recognised(
    c: Seq<Candidate>,
    n: nat,
    configured: Seq<Seq<u8>>,
    resolved: Seq<Option<Seq<u8>>>,
    k: int,
) -> (i: int)
    requires
        n <= c.len(),
        0 <= k < inventory::codex_records(c, n, configured, resolved).len(),
    ensures
        0 <= i < n,
        inventory::is_codex(c, i, configured, resolved),
        inventory::has_identity(c[i].record),
        inventory::codex_records(c, n, configured, resolved)[k] == c[i].record,
    decreases n,
{
    let rest = inventory::codex_records(c, (n - 1) as nat, configured, resolved);
    if k < rest.len() {
        a_kept_record_was_recognised(c, (n - 1) as nat, configured, resolved, k)
    } else {
        n - 1
    }
}

/// What a pane shows of the row that it was listed in.
pub open spec fn shows_row(pane: Pane, record: RecordModel) -> bool {
    &&& pane.id@ == record.pane_id
    &&& pane.session_id@ == record.session_id
    &&& pane.pane_pid == record.pane_pid
    &&& pane.current_path@ == record.current_path
    &&& pane.title is Some <==> !scan::is_blank(record.title)
    &&& pane.title is Some ==> pane.title->0@ == record.title
    &&& pane.generated_title is Some ==> pane.generated_title->0@ == record.generated_name
        && pane.generated_thread_id is Some && pane.generated_thread_id->0@
        == record.generated_thread && pane.generated_at_unix is Some
}

/// Each pane that is found shows a listed row, and the process in the foreground of that
/// pane runs one of the executables that are looked for.
pub proof fn a_found_pane_runs_an_executable(
    listed: Seq<RecordModel>,
    configured: Seq<Seq<u8>>,
    asked: Seq<Inspection>,
    panes: Seq<Pane>,
    k: int,
)
    requires
        inventory::discovered(listed, configured, asked, Ok::<Seq<Pane>, ErrorModel>(panes)),
        0 <= k < panes.len(),
    ensures
        asked.len() == 2,
        asked[0] is Foreground && asked[1] is Canonical,
        asked[0]->pids.len() == listed.len(),
        forall|i: int|
            0 <= i < listed.len() ==> #[trigger] asked[0]->pids[i] == listed[i].pane_pid,
        exists|i: int, j: int|
            #![trigger listed[i], configured[j]]
            0 <= i < listed.len() && 0 <= j < configured.len() && shows_row(panes[k], listed[i])
                && asked[0]->found[i] is Some && exists|actual: Option<Seq<u8>>|
                inventory::executable_matches(
                    asked[0]->found[i]->0,
                    configured[j],
                    listed[i].command,
                    actual,
                    inventory::file_at(asked[1]->resolved, j),
                ),
{
    let found = asked[0]->found;
    let resolved = asked[1]->resolved;
    let c = inventory::candidates(listed, found);
    let at = a_kept_record_was_recognised(c, c.len(), configured, resolved, k);
    let i = a_candidate_has_its_process(listed, found, at);
    let j = choose|j: int|
        0 <= j < configured.len() && inventory::executable_matches(
            c[at].executable,
            #[trigger] configured[j],
            c[at].record.command,
            inventory::file_at(resolved, configured.len() + at),
            inventory::file_at(resolved, j),
        );
    let shown = inventory::codex_records(c, c.len(), configured, resolved);
    assert(inventory::pane_shows(panes[k], shown[k]));
    assert(shows_row(panes[k], listed[i]));
    assert(inventory::executable_matches(
        found[i]->0,
        configured[j],
        listed[i].command,
        inventory::file_at(resolved, configured.len() + at),
        inventory::file_at(resolved, j),
    ));
}

/// A listed pane whose process in the foreground is one of the executables that are looked
/// for, by its very path, is found.
pub proof fn a_pane_that_runs_an_executable_is_found(
    listed: Seq<RecordModel>,
    configured: Seq<Seq<u8>>,
    asked: Seq<Inspection>,
    panes: Seq<Pane>,
    i: int,
    j: int,
)
    requires
        inventory::discovered(listed, configured, asked, Ok::<Seq<Pane>, ErrorModel>(panes)),
        0 <= i < listed.len(),
        0 <= j < configured.len(),
        asked[0] is Foreground,
        asked[0]->found.len() == listed.len(),
        asked[0]->found[i] == Some(configured[j]),
        !scan::is_blank(listed[i].pane_id),
        !scan::is_blank(listed[i].session_id),
    ensures
        exists|k: int| 0 <= k < panes.len() && shows_row(#[trigger] panes[k], listed[i]),
{
    let found = asked[0]->found;
    let resolved = asked[1]->resolved;
    let c = inventory::candidates(listed, found);
    processes_belong_to_their_panes(listed, found, i);
    let wanted = Candidate { record: listed[i], executable: configured[j] };
    let at = c.index_of(wanted);
    crate::path::same_path_is_equivalence(configured[j], configured[j], configured[j]);
    assert(inventory::executable_matches(
        c[at].executable,
        configured[j],
        c[at].record.command,
        inventory::file_at(resolved, configured.len() + at),
        inventory::file_at(resolved, j),
    ));
    a_recognised_candidate_is_kept(c, c.len(), configured, resolved, at);
    let shown = inventory::codex_records(c, c.len(), configured, resolved);
    let k = shown.index_of(listed[i]);
    assert(inventory::pane_shows(panes[k], shown[k]));
    assert(shows_row(panes[k], listed[i]));
}

/// The name that a row stores is shown exactly where its thread is the one that the title
/// shows, the name says something, and the time is a number.
pub proof fn a_stored_name_is_shown_for_its_thread(record: RecordModel)
    ensures
        inventory::shown_name(record) is Some ==> inventory::shown_name(record)->0
            == record.generated_name && !scan::is_blank(record.generated_name)
            && crate::smart_naming::thread::is_thread_id(record.generated_thread)
            && crate::smart_naming::thread::hint(record.title) is Some
            && crate::smart_naming::thread::hint(record.title)->0.is_prefix_of(
            record.generated_thread,
        ),
        crate::smart_naming::thread::is_thread_id(record.generated_thread) && record.title
            == record.generated_thread && !scan::is_blank(record.generated_name)
            && crate::number::unsigned_value(record.generated_at, u64::MAX as nat) is Some
            ==> inventory::shown_name(record) == Some(record.generated_name),
{
    let t = record.title;
    assert(t.subrange(0, t.len() as int) =~= t);
}

/// The list of panes is asked for with the format whose fields are read.
pub proof fn the_list_is_asked_for_with_its_format()
    ensures
        inventory::list_query().len() == 4,
        inventory::list_query()[0] == "list-panes"@,
        inventory::list_query()[1] == "-a"@,
        inventory::list_query()[2] == "-F"@,
        inventory::list_query()[3] == inventory::PANE_FORMAT@,
{
}

} // verus!
