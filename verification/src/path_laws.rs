//! Paths, orders and titles, as their users rely on them.

use vstd::prelude::*;
use crate::domain;
use crate::error;
use crate::error::ErrorModel;
use crate::order;
use crate::path;
use crate::scan;
use crate::text;

verus! {

/// Joining paths can be done in any grouping, and an absolute path stands for itself.
pub proof fn joining_is_associative(p: Seq<u8>, q: Seq<u8>, r: Seq<u8>)
    requires
        q.len() > 0,
        !path::is_absolute(r),
    ensures
        path::joined(path::joined(p, q), r) == path::joined(p, path::joined(q, r)),
        path::is_absolute(q) ==> path::joined(p, q) == q,
{
    if path::is_absolute(q) {
        assert(path::joined(q, r)[0] == q[0]);
    } else {
        assert(path::joined(q, r)[0] == q[0]);
        assert(path::joined(p, q).last() == q.last());
        assert(path::joined(path::joined(p, q), r) =~= path::joined(p, path::joined(q, r)));
    }
}

/// A name of one component: not empty, without a slash, and neither `.` nor `..`.
pub open spec fn is_name(name: Seq<u8>) -> bool {
    &&& name.len() > 0
    &&& !name.contains(47)
    &&& name != seq![46u8]
    &&& name != seq![46u8, 46u8]
}

proof fn a_name_is_kept(pieces: Seq<Seq<u8>>, name: Seq<u8>)
    requires
        is_name(name),
    ensures
        path::kept_pieces(pieces.push(name)) == path::kept_pieces(pieces).push(name),
{
    assert(pieces.push(name).drop_last() =~= pieces);
    assert(pieces.push(name).last() == name);
}

/// A name that is joined to a directory is the last component, behind those of the
/// directory: it is the file name, and the path lies below the directory.
pub proof fn a_joined_name_is_the_file_name(directory: Seq<u8>, name: Seq<u8>)
    requires
        is_name(name),
        directory.len() > 0,
        directory.last() != 47,
    ensures
        path::components(path::joined(directory, name)) == path::components(directory).push(name),
        path::file_name(path::joined(directory, name)) == Some(name),
        path::is_under(path::joined(directory, name), directory),
{
    assert(name.contains(name[0]));
    assert(!path::is_absolute(name));
    let whole = path::joined(directory, name);
    assert(whole =~= directory + seq![47u8] + name);
    scan::split_on_append(directory, 47, name);
    scan::split_on_without(name, 47u8);
    let pieces = scan::split_on(directory, 47u8);
    assert(pieces + seq![name] =~= pieces.push(name));
    a_name_is_kept(pieces, name);
    assert(path::is_absolute(whole) == path::is_absolute(directory)) by {
        assert(whole[0] == directory[0]);
    }
    let base = path::path_key(directory);
    let key = path::path_key(whole);
    assert(key.len() == base.len() + 1);
    assert forall|i: int| 0 <= i < base.len() implies base[i] == key[i] by {}
    assert(key.subrange(0, base.len() as int) =~= base);
}

proof fn the_last_slash(directory: Seq<u8>, name: Seq<u8>)
    requires
        !name.contains(47),
    ensures
        path::last_index(directory + seq![47u8] + name, 47) == directory.len(),
    decreases name.len(),
{
    let whole = directory + seq![47u8] + name;
    if name.len() > 0 {
        assert(name.contains(name.last()));
        assert(whole.last() == name.last());
        assert(whole.drop_last() =~= directory + seq![47u8] + name.drop_last());
        assert forall|i: int| 0 <= i < name.drop_last().len() implies name.drop_last()[i]
            != 47 by {
            assert(name.contains(name[i]));
        }
        the_last_slash(directory, name.drop_last());
    } else {
        assert(whole.last() == 47);
    }
}

/// The parent of a name in a directory is the directory.
pub proof fn the_parent_of_a_joined_name_is_the_directory(directory: Seq<u8>, name: Seq<u8>)
    requires
        is_name(name),
        directory.len() > 0,
        directory.last() != 47,
        directory.len() > 1 ==> !(directory.last() == 46 && directory[directory.len() - 2] == 47),
    ensures
        path::parent(path::joined(directory, name)) == Some(directory),
{
    assert(name.contains(name[0]));
    assert(name.contains(name.last()));
    let whole = path::joined(directory, name);
    assert(whole =~= directory + seq![47u8] + name);
    assert(whole.last() == name.last());
    if whole.last() == 46 && whole[whole.len() - 2] == 47 {
        if name.len() > 1 {
            assert(name[name.len() - 2] == 47);
            assert(name.contains(name[name.len() - 2]));
        } else {
            assert(name =~= seq![46u8]);
        }
    }
    assert(path::without_tail(whole) == whole);
    the_last_slash(directory, name);
    let head = whole.take(directory.len() as int + 1);
    assert(head =~= directory.push(47));
    assert(head.drop_last() =~= directory);
    assert(path::without_tail(directory) == directory);
    assert(path::without_tail(head) == directory);
}

/// Of two texts that begin alike, the first difference decides the order, and a text comes
/// before every longer one that it begins.
pub proof fn the_first_difference_decides(
    start: Seq<char>,
    a: char,
    b: char,
    x: Seq<char>,
    y: Seq<char>,
    from: int,
)
    requires
        0 <= from <= start.len(),
    ensures
        a != b ==> (order::text_before(
            start + seq![a] + x,
            start + seq![b] + y,
            from,
        ) <==> (a as int) < (b as int)),
        order::text_before(start, start + seq![b] + y, from),
        !order::text_before(start + seq![a] + x, start, from),
    decreases start.len() - from,
{
    let first = start + seq![a] + x;
    let second = start + seq![b] + y;
    if from < start.len() {
        assert(first[from] == start[from]);
        assert(second[from] == start[from]);
        the_first_difference_decides(start, a, b, x, y, from + 1);
    } else {
        assert(first[from] == a);
        assert(second[from] == b);
    }
}

/// The same of bytes.
pub proof fn the_first_byte_that_differs_decides(
    start: Seq<u8>,
    a: u8,
    b: u8,
    x: Seq<u8>,
    y: Seq<u8>,
    from: int,
)
    requires
        0 <= from <= start.len(),
    ensures
        a != b ==> (order::bytes_before(
            start + seq![a] + x,
            start + seq![b] + y,
            from,
        ) <==> a < b),
        order::bytes_before(start, start + seq![b] + y, from),
        !order::bytes_before(start + seq![a] + x, start, from),
    decreases start.len() - from,
{
    let first = start + seq![a] + x;
    let second = start + seq![b] + y;
    if from < start.len() {
        assert(first[from] == start[from]);
        assert(second[from] == start[from]);
        the_first_byte_that_differs_decides(start, a, b, x, y, from + 1);
    } else {
        assert(first[from] == a);
        assert(second[from] == b);
    }
}

proof fn inserting_keeps(list: Seq<Seq<char>>, t: Seq<char>, u: Seq<char>)
    ensures
        order::text_inserted(list, t).contains(u) <==> list.contains(u) || u == t,
        order::text_inserted(list, t).len() == list.len() + 1,
    decreases list.len(),
{
    let r = order::text_inserted(list, t);
    if list.len() > 0 && order::text_before(t, list.last(), 0) {
        inserting_keeps(list.drop_last(), t, u);
        let inner = order::text_inserted(list.drop_last(), t);
        assert(r == inner.push(list.last()));
        if r.contains(u) {
            let i = r.index_of(u);
            if i < inner.len() {
                assert(inner[i] == u);
                if list.drop_last().contains(u) {
                    let j = list.drop_last().index_of(u);
                    assert(list[j] == u);
                }
            } else {
                assert(list[list.len() - 1] == u);
            }
        }
        if list.contains(u) {
            let j = list.index_of(u);
            if j < list.len() - 1 {
                assert(list.drop_last()[j] == u);
                let i = inner.index_of(u);
                assert(r[i] == u);
            } else {
                assert(r[inner.len() as int] == u);
            }
        }
        if u == t {
            let i = inner.index_of(u);
            assert(r[i] == u);
        }
    } else {
        assert(r == list.push(t));
        assert(r[list.len() as int] == t);
        if r.contains(u) {
            let i = r.index_of(u);
            if i < list.len() {
                assert(list[i] == u);
            }
        }
        if list.contains(u) {
            let j = list.index_of(u);
            assert(r[j] == u);
        }
    }
}

/// Putting texts in order loses none and adds none.
pub proof fn ordering_keeps_the_texts(list: Seq<Seq<char>>, n: nat, u: Seq<char>)
    requires
        n <= list.len(),
    ensures
        order::texts_in_order(list, n).len() == n,
        order::texts_in_order(list, n).contains(u) <==> list.take(n as int).contains(u),
    decreases n,
{
    if n > 0 {
        let m = (n - 1) as nat;
        ordering_keeps_the_texts(list, m, u);
        inserting_keeps(order::texts_in_order(list, m), list[n - 1], u);
        let whole = list.take(n as int);
        let front = list.take(m as int);
        if whole.contains(u) {
            let i = whole.index_of(u);
            if i < m {
                assert(front[i] == u);
            }
        }
        if front.contains(u) {
            let i = front.index_of(u);
            assert(whole[i] == u);
        }
        assert(whole[n - 1] == list[n - 1]);
    }
}

/// A pane shows its generated name, and only without one its own title. Where what is to
/// be shown is blank, it shows the name of its directory.
pub proof fn a_generated_name_is_shown_first(
    generated: Seq<char>,
    title: Seq<char>,
    directory: Seq<u8>,
    other: Option<Seq<char>>,
)
    ensures
        !scan::is_blank(generated) ==> domain::visible_title(Some(generated), other, directory)
            == scan::trimmed(generated),
        !scan::is_blank(title) ==> domain::visible_title(None, Some(title), directory)
            == scan::trimmed(title),
        scan::is_blank(title) ==> domain::visible_title(None, Some(title), directory)
            == domain::visible_title(None, None, directory),
        scan::is_blank(generated) ==> domain::visible_title(Some(generated), other, directory)
            == domain::visible_title(None, None, directory),
        path::file_name(directory) matches Some(name) ==> domain::visible_title(
            None,
            None,
            directory,
        ) == text::lossy_text(name),
        path::file_name(directory) is None ==> domain::visible_title(None, None, directory)
            == "unnamed"@,
{
}

/// An error says what failed: its text ends in the detail.
pub proof fn an_error_says_its_detail(
    p: Seq<u8>,
    field: Seq<char>,
    detail: Seq<char>,
    pane: Seq<char>,
)
    ensures
        error::error_text(ErrorModel::InvalidValue { field, message: detail }) == "invalid "@ + field
            + ": "@ + detail,
        error::error_text(ErrorModel::Filesystem { path: p, source: detail })
            == "filesystem operation failed for "@ + text::lossy_text(p) + ": "@ + detail,
        error::error_text(ErrorModel::Command(detail)) == "command failed: "@ + detail,
        error::error_text(ErrorModel::CreatedPaneNotSelected { pane, detail })
            == "created Codex pane "@ + pane + ", but could not select it: "@ + detail,
        error::error_text(ErrorModel::Unavailable(detail)) == detail
            + " is not available in this bootstrap build"@,
        error::error_text(ErrorModel::Cancelled) == "operation cancelled"@,
{
}

} // verus!
