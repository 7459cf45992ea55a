//! The names that the lanes of a naming worker have published between them.

use vstd::prelude::*;
use crate::path;
use crate::smart_naming::lane;
use crate::smart_naming::lane::PublishedModel;
use crate::text;
use crate::text::text_equal;
use crate::tmux::owned_names::NamedPane;

verus! {

pub open spec fn named_view(named: NamedPane) -> PublishedModel {
    PublishedModel {
        pane_id: named.pane@,
        thread_id: named.name.thread_id@,
        session: named.name.source_session@,
        pane_pid: named.name.source_pane_pid,
        stable: named.name.stable_source_title,
        title: named.name.source_title@,
        cwd: named.name.source_cwd@,
        name: named.name.name@,
        at: named.name.generated_at_unix,
        token: text::option_view(named.name.auto_name_token),
    }
}

pub open spec fn named_views(list: Seq<NamedPane>) -> Seq<PublishedModel> {
    list.map_values(|named: NamedPane| named_view(named))
}

/// Two names of a pane say the same. Directories are compared by their components.
pub open spec fn says_the_same(a: PublishedModel, b: PublishedModel) -> bool {
    path::same_path(a.cwd, b.cwd) && PublishedModel { cwd: b.cwd, ..a } == b
}

/// A name is in a list.
pub open spec fn is_among(one: PublishedModel, list: Seq<PublishedModel>) -> bool {
    exists|j: int| 0 <= j < list.len() && says_the_same(one, #[trigger] list[j])
}

/// Two lists give the same panes the same names, each pane being listed once.
pub open spec fn same_lists(a: Seq<PublishedModel>, b: Seq<PublishedModel>) -> bool {
    &&& a.len() == b.len()
    &&& forall|i: int| 0 <= i < a.len() ==> is_among(#[trigger] a[i], b)
}

/// The names of a list whose panes are not among those of another one.
pub open spec fn without_panes(list: Seq<PublishedModel>, newer: Seq<PublishedModel>) -> Seq<
    PublishedModel,
>
    decreases list.len(),
{
    if list.len() == 0 {
        Seq::empty()
    } else {
        let rest = without_panes(list.drop_last(), newer);
        if names_pane(newer, list.last().pane_id) {
            rest
        } else {
            rest.push(list.last())
        }
    }
}

pub open spec fn names_pane(list: Seq<PublishedModel>, pane: Seq<char>) -> bool {
    exists|j: int| 0 <= j < list.len() && (#[trigger] list[j]).pane_id == pane
}

/// Two lists as one: the newer one has the last word on a pane.
pub open spec fn joined_lists(list: Seq<PublishedModel>, newer: Seq<PublishedModel>) -> Seq<
    PublishedModel,
> {
    without_panes(list, newer) + newer
}

/// Every pane that has a name in one of two lists has one in both of them together, and
/// it is that of the newer list where that one has any.
pub proof fn joining_keeps_every_pane(
    list: Seq<PublishedModel>,
    newer: Seq<PublishedModel>,
    pane: Seq<char>,
)
    ensures
        names_pane(joined_lists(list, newer), pane) == (names_pane(list, pane) || names_pane(
            newer,
            pane,
        )),
        forall|i: int|
            0 <= i < joined_lists(list, newer).len() && names_pane(newer, pane) && (
            #[trigger] joined_lists(list, newer)[i]).pane_id == pane ==> newer.contains(
                joined_lists(list, newer)[i],
            ),
    decreases list.len(),
{
    let all = joined_lists(list, newer);
    let kept = without_panes(list, newer);
    leaving_out_keeps_the_rest(list, newer, pane);
    if names_pane(newer, pane) {
        let j = choose|j: int| 0 <= j < newer.len() && (#[trigger] newer[j]).pane_id == pane;
        assert(all[kept.len() + j] == newer[j]);
    }
    if names_pane(kept, pane) {
        let j = choose|j: int| 0 <= j < kept.len() && (#[trigger] kept[j]).pane_id == pane;
        assert(all[j] == kept[j]);
    }
    if names_pane(all, pane) {
        let j = choose|j: int| 0 <= j < all.len() && (#[trigger] all[j]).pane_id == pane;
        if j < kept.len() {
            assert(kept[j].pane_id == pane);
        } else {
            assert(newer[j - kept.len()].pane_id == pane);
        }
    }
    assert forall|i: int|
        0 <= i < all.len() && names_pane(newer, pane) && (#[trigger] all[i]).pane_id
            == pane implies newer.contains(all[i]) by {
        if i < kept.len() {
            assert(kept[i].pane_id == pane);
            assert(names_pane(kept, pane));
        } else {
            assert(newer[i - kept.len()] == all[i]);
        }
    }
}

/// Two lists with one name to a pane make one list with one name to a pane.
pub proof fn joining_keeps_one_name_per_pane(
    list: Seq<PublishedModel>,
    newer: Seq<PublishedModel>,
)
    requires
        lane::one_name_per_pane(list),
        lane::one_name_per_pane(newer),
    ensures
        lane::one_name_per_pane(joined_lists(list, newer)),
{
    let kept = without_panes(list, newer);
    let all = joined_lists(list, newer);
    leaving_out_keeps_one_name_per_pane(list, newer);
    assert forall|i: int, j: int| 0 <= i < j < all.len() implies (#[trigger] all[i]).pane_id != (
    #[trigger] all[j]).pane_id by {
        if j < kept.len() {
            assert(all[i] == kept[i] && all[j] == kept[j]);
        } else if i >= kept.len() {
            assert(all[i] == newer[i - kept.len()] && all[j] == newer[j - kept.len()]);
        } else {
            assert(all[i] == kept[i] && all[j] == newer[j - kept.len()]);
            leaving_out_keeps_the_rest(list, newer, kept[i].pane_id);
            assert(names_pane(kept, kept[i].pane_id));
            if all[i].pane_id == all[j].pane_id {
                assert(names_pane(newer, kept[i].pane_id));
            }
        }
    }
}

proof fn leaving_out_keeps_one_name_per_pane(
    list: Seq<PublishedModel>,
    newer: Seq<PublishedModel>,
)
    requires
        lane::one_name_per_pane(list),
    ensures
        lane::one_name_per_pane(without_panes(list, newer)),
    decreases list.len(),
{
    if list.len() > 0 {
        let front = list.drop_last();
        let rest = without_panes(front, newer);
        let all = without_panes(list, newer);
        assert forall|i: int, j: int| 0 <= i < j < front.len() implies (
        #[trigger] front[i]).pane_id != (#[trigger] front[j]).pane_id by {
            assert(front[i] == list[i] && front[j] == list[j]);
        }
        leaving_out_keeps_one_name_per_pane(front, newer);
        assert forall|i: int, j: int| 0 <= i < j < all.len() implies (
        #[trigger] all[i]).pane_id != (#[trigger] all[j]).pane_id by {
            assert(all[i] == rest[i]);
            if j < rest.len() {
                assert(all[j] == rest[j]);
            } else {
                leaving_out_keeps_the_rest(front, newer, rest[i].pane_id);
                assert(names_pane(rest, rest[i].pane_id));
                let k = choose|k: int|
                    0 <= k < front.len() && (#[trigger] front[k]).pane_id == rest[i].pane_id;
                assert(list[k].pane_id != list[list.len() - 1].pane_id);
            }
        }
    }
}

proof fn leaving_out_keeps_the_rest(
    list: Seq<PublishedModel>,
    newer: Seq<PublishedModel>,
    pane: Seq<char>,
)
    ensures
        names_pane(without_panes(list, newer), pane) == (names_pane(list, pane) && !names_pane(
            newer,
            pane,
        )),
    decreases list.len(),
{
    if list.len() > 0 {
        leaving_out_keeps_the_rest(list.drop_last(), newer, pane);
        let rest = without_panes(list.drop_last(), newer);
        let all = without_panes(list, newer);
        let front = list.drop_last();
        if names_pane(front, pane) {
            let j = choose|j: int| 0 <= j < front.len() && (#[trigger] front[j]).pane_id == pane;
            assert(list[j] == front[j]);
        }
        if names_pane(list, pane) && !names_pane(front, pane) {
            let j = choose|j: int| 0 <= j < list.len() && (#[trigger] list[j]).pane_id == pane;
            if j < front.len() {
                assert(front[j].pane_id == pane);
            }
            assert(list.last().pane_id == pane);
        }
        if list.last().pane_id == pane {
            assert(list[list.len() - 1].pane_id == pane);
        }
        if !names_pane(newer, list.last().pane_id) {
            if names_pane(rest, pane) {
                let j = choose|j: int| 0 <= j < rest.len() && (#[trigger] rest[j]).pane_id == pane;
                assert(all[j] == rest[j]);
            }
            assert(all[all.len() - 1] == list.last());
            if names_pane(all, pane) && list.last().pane_id != pane {
                let j = choose|j: int| 0 <= j < all.len() && (#[trigger] all[j]).pane_id == pane;
                assert(rest[j] == all[j]);
            }
        }
    }
}

fn same_token(a: &Option<String>, b: &Option<String>) -> (r: bool)
    ensures
        r == (text::option_view(*a) == text::option_view(*b)),
{
    match (a, b) {
        (Some(x), Some(y)) => text_equal(x, y),
        (None, None) => true,
        _ => false,
    }
}

fn same_named(a: &NamedPane, b: &NamedPane) -> (r: bool)
    ensures
        r == says_the_same(named_view(*a), named_view(*b)),
{
    a.pane.same_as(&b.pane) && text_equal(&a.name.thread_id, &b.name.thread_id)
        && a.name.source_session.same_as(&b.name.source_session) && a.name.source_pane_pid
        == b.name.source_pane_pid && a.name.stable_source_title == b.name.stable_source_title
        && text_equal(&a.name.source_title, &b.name.source_title) && a.name.source_cwd.same_as(
        &b.name.source_cwd,
    ) && text_equal(&a.name.name, &b.name.name) && a.name.generated_at_unix
        == b.name.generated_at_unix && same_token(&a.name.auto_name_token, &b.name.auto_name_token)
}

/// Whether two lists give the same panes the same names.
pub fn same_names(a: &Vec<NamedPane>, b: &Vec<NamedPane>) -> (r: bool)
    ensures
        r == same_lists(named_views(a@), named_views(b@)),
{
    let ghost left = named_views(a@);
    let ghost right = named_views(b@);
    if a.len() != b.len() {
        return false;
    }
    let mut i: usize = 0;
    while i < a.len()
        invariant
            i <= a.len(),
            forall|k: int| 0 <= k < i ==> is_among(#[trigger] left[k], right),
        decreases a.len() - i,
    {
        let mut found = false;
        let mut j: usize = 0;
        while j < b.len()
            invariant
                j <= b.len(),
                found == exists|k: int|
                    0 <= k < j && says_the_same(left[i as int], #[trigger] right[k]),
            decreases b.len() - j,
        {
            assert(right[j as int] == named_view(b@[j as int]));
            if same_named(&a[i], &b[j]) {
                found = true;
            }
            j += 1;
        }
        if !found {
            assert(!is_among(left[i as int], right));
            return false;
        }
        i += 1;
    }
    true
}

fn copied(named: &NamedPane) -> (r: NamedPane)
    ensures
        named_view(r) == named_view(*named),
{
    NamedPane { pane: named.pane.clone(), name: named.name.copy() }
}

/// A copy of a list of names.
pub fn copy_names(names: &Vec<NamedPane>) -> (r: Vec<NamedPane>)
    ensures
        named_views(r@) == named_views(names@),
{
    let mut r: Vec<NamedPane> = Vec::new();
    add_names(&mut r, names);
    assert(Seq::<PublishedModel>::empty() + named_views(names@) =~= named_views(names@));
    r
}

fn add_names(all: &mut Vec<NamedPane>, names: &Vec<NamedPane>)
    ensures
        named_views(final(all)@) == named_views(old(all)@) + named_views(names@),
{
    let ghost start = named_views(all@);
    let mut i: usize = 0;
    assert(named_views(all@) =~= start + named_views(names@).take(0));
    while i < names.len()
        invariant
            i <= names.len(),
            named_views(all@) == start + named_views(names@).take(i as int),
        decreases names.len() - i,
    {
        let ghost before = all@;
        let one = copied(&names[i]);
        all.push(one);
        proof {
            assert(named_views(all@) =~= named_views(before).push(named_view(one)));
            assert(named_views(names@).take(i + 1) =~= named_views(names@).take(i as int).push(
                named_view(names@[i as int]),
            ));
        }
        i += 1;
    }
    assert(named_views(names@).take(names@.len() as int) =~= named_views(names@));
}

/// Adds the names of a lane to those of earlier ones; the later lane has the last word
/// on a pane.
pub fn join_names(names: Vec<NamedPane>, newer: &Vec<NamedPane>) -> (r: Vec<NamedPane>)
    ensures
        named_views(r@) == joined_lists(named_views(names@), named_views(newer@)),
{
    let ghost list = named_views(names@);
    let ghost last = named_views(newer@);
    let mut r: Vec<NamedPane> = Vec::new();
    let mut i: usize = 0;
    assert(named_views(r@) =~= without_panes(list.take(0), last));
    while i < names.len()
        invariant
            i <= names.len(),
            named_views(r@) == without_panes(list.take(i as int), last),
        decreases names.len() - i,
    {
        let mut renamed = false;
        let mut j: usize = 0;
        while j < newer.len()
            invariant
                j <= newer.len(),
                renamed == exists|k: int|
                    0 <= k < j && (#[trigger] last[k]).pane_id == names@[i as int].pane@,
            decreases newer.len() - j,
        {
            assert(last[j as int].pane_id == newer@[j as int].pane@);
            if newer[j].pane.same_as(&names[i].pane) {
                renamed = true;
            }
            j += 1;
        }
        proof {
            assert(list.take(i + 1).drop_last() =~= list.take(i as int));
            assert(list.take(i + 1).last() == named_view(names@[i as int]));
            assert(renamed == names_pane(last, list[i as int].pane_id));
        }
        if !renamed {
            let ghost before = r@;
            let one = copied(&names[i]);
            r.push(one);
            assert(named_views(r@) =~= named_views(before).push(named_view(one)));
        }
        i += 1;
    }
    assert(list.take(list.len() as int) =~= list);
    add_names(&mut r, newer);
    r
}

} // verus!
