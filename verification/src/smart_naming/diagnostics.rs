//! Operational diagnostics: a bounded log of fixed reason codes. No session or
//! provider content can enter it.

use vstd::prelude::*;
use crate::error::{command_error, ErrorModel, MuxError};
use crate::number;
use crate::number::decimal_text;
use crate::path;
use crate::path::UnixPath;
use crate::scan;
use crate::scan::{split_text, text_lines};
use crate::text;
use crate::text::{put, to_chars};

verus! {

/// Size at which the log is rotated.
pub const NAMING_LOG_MAX_BYTES: u64 = 262144;

/// Every reason code that can be logged.
pub open spec fn known_codes() -> Seq<Seq<char>> {
    seq![
        "worker_start"@,
        "provider_start_failed"@,
        "provider_ready"@,
        "discovery_failed"@,
        "read_provider_unhealthy"@,
        "read_failed"@,
        "conversation_pending"@,
        "naming_provider_unhealthy"@,
        "naming_failed"@,
        "resolve_provider_unhealthy"@,
        "resolve_failed"@,
        "thread_state_db_miss"@,
        "thread_archive_cross_check"@,
        "thread_resolve_not_found"@,
        "thread_rollout_resolved"@,
        "thread_rollout_ambiguous"@,
        "thread_turns_read"@,
        "thread_rollout_read"@,
        "identity_changed"@,
        "name_published"@,
        "process_rejected"@,
        "pane_command_rejected"@,
        "pane_mode_active"@,
        "cursor_hidden"@,
        "state_read_failed"@,
        "composer_row_rejected"@,
        "composer_cursor_rejected"@,
        "state_recheck_failed"@,
        "state_changed_after_left"@,
        "process_changed_after_left"@,
        "popup_opened"@,
    ]
}

fn known_code_list() -> (r: Vec<String>)
    ensures
        text::texts(r@) == known_codes(),
{
    let mut r = text::no_texts();
    put(&mut r, "worker_start");
    put(&mut r, "provider_start_failed");
    put(&mut r, "provider_ready");
    put(&mut r, "discovery_failed");
    put(&mut r, "read_provider_unhealthy");
    put(&mut r, "read_failed");
    put(&mut r, "conversation_pending");
    put(&mut r, "naming_provider_unhealthy");
    put(&mut r, "naming_failed");
    put(&mut r, "resolve_provider_unhealthy");
    put(&mut r, "resolve_failed");
    put(&mut r, "thread_state_db_miss");
    put(&mut r, "thread_archive_cross_check");
    put(&mut r, "thread_resolve_not_found");
    put(&mut r, "thread_rollout_resolved");
    put(&mut r, "thread_rollout_ambiguous");
    put(&mut r, "thread_turns_read");
    put(&mut r, "thread_rollout_read");
    put(&mut r, "identity_changed");
    put(&mut r, "name_published");
    put(&mut r, "process_rejected");
    put(&mut r, "pane_command_rejected");
    put(&mut r, "pane_mode_active");
    put(&mut r, "cursor_hidden");
    put(&mut r, "state_read_failed");
    put(&mut r, "composer_row_rejected");
    put(&mut r, "composer_cursor_rejected");
    put(&mut r, "state_recheck_failed");
    put(&mut r, "state_changed_after_left");
    put(&mut r, "process_changed_after_left");
    put(&mut r, "popup_opened");
    r
}

/// Whether a code may be logged.
pub fn is_known_code(code: &str) -> (r: bool)
    ensures
        r == known_codes().contains(code@),
{
    text::holds_text(&known_code_list(), code)
}

/// A logged event: the time in seconds and a code.
pub open spec fn event_text(seconds: u64, code: Seq<char>) -> Seq<char> {
    number::decimal(seconds as nat) + seq![' '] + code
}

/// The line to append for a code, `None` for one that may not be logged.
pub fn event_line(seconds: u64, code: &str) -> (r: Option<String>)
    ensures
        text::option_view(r) == if known_codes().contains(code@) {
            Some(event_text(seconds, code@).push('\n'))
        } else {
            None
        },
{
    if !is_known_code(code) {
        return None;
    }
    let mut line = decimal_text(seconds);
    line.push(' ');
    line.append(code);
    line.push('\n');
    assert(line@ =~= event_text(seconds, code@).push('\n'));
    Some(line)
}

/// A line that is nothing but a time and a known code.
pub open spec fn is_event(line: Seq<char>) -> bool {
    let fields = scan::split_on(line, ' ');
    &&& fields.len() == 2
    &&& fields[0].len() > 0
    &&& number::all_digits(fields[0])
    &&& known_codes().contains(fields[1])
}

/// The last line of the log, where it is a well-formed event.
pub open spec fn last_event(contents: Seq<char>) -> Option<Seq<char>> {
    let all = scan::lines(contents);
    if all.len() > 0 && is_event(all.last()) {
        Some(all.last())
    } else {
        None
    }
}

/// A text of lower-case letters and underscores.
pub open spec fn is_code(s: Seq<char>) -> bool {
    &&& s.len() > 0
    &&& forall|i: int| 0 <= i < s.len() ==> 'a' <= #[trigger] s[i] <= 'z' || s[i] == '_'
}

/// Every reason code is a plain word, so that nothing else can be read out of a line.
#[verifier::rlimit(40)]
pub proof fn codes_are_plain_words(code: Seq<char>)
    requires
        known_codes().contains(code),
    ensures
        is_code(code),
{
    assert(is_code("worker_start"@)) by {
        reveal_strlit("worker_start");
    }
    assert(is_code("provider_start_failed"@)) by {
        reveal_strlit("provider_start_failed");
    }
    assert(is_code("provider_ready"@)) by {
        reveal_strlit("provider_ready");
    }
    assert(is_code("discovery_failed"@)) by {
        reveal_strlit("discovery_failed");
    }
    assert(is_code("read_provider_unhealthy"@)) by {
        reveal_strlit("read_provider_unhealthy");
    }
    assert(is_code("read_failed"@)) by {
        reveal_strlit("read_failed");
    }
    assert(is_code("conversation_pending"@)) by {
        reveal_strlit("conversation_pending");
    }
    assert(is_code("naming_provider_unhealthy"@)) by {
        reveal_strlit("naming_provider_unhealthy");
    }
    assert(is_code("naming_failed"@)) by {
        reveal_strlit("naming_failed");
    }
    assert(is_code("resolve_provider_unhealthy"@)) by {
        reveal_strlit("resolve_provider_unhealthy");
    }
    assert(is_code("resolve_failed"@)) by {
        reveal_strlit("resolve_failed");
    }
    assert(is_code("thread_state_db_miss"@)) by {
        reveal_strlit("thread_state_db_miss");
    }
    assert(is_code("thread_archive_cross_check"@)) by {
        reveal_strlit("thread_archive_cross_check");
    }
    assert(is_code("thread_resolve_not_found"@)) by {
        reveal_strlit("thread_resolve_not_found");
    }
    assert(is_code("thread_rollout_resolved"@)) by {
        reveal_strlit("thread_rollout_resolved");
    }
    assert(is_code("thread_rollout_ambiguous"@)) by {
        reveal_strlit("thread_rollout_ambiguous");
    }
    assert(is_code("thread_turns_read"@)) by {
        reveal_strlit("thread_turns_read");
    }
    assert(is_code("thread_rollout_read"@)) by {
        reveal_strlit("thread_rollout_read");
    }
    assert(is_code("identity_changed"@)) by {
        reveal_strlit("identity_changed");
    }
    assert(is_code("name_published"@)) by {
        reveal_strlit("name_published");
    }
    assert(is_code("process_rejected"@)) by {
        reveal_strlit("process_rejected");
    }
    assert(is_code("pane_command_rejected"@)) by {
        reveal_strlit("pane_command_rejected");
    }
    assert(is_code("pane_mode_active"@)) by {
        reveal_strlit("pane_mode_active");
    }
    assert(is_code("cursor_hidden"@)) by {
        reveal_strlit("cursor_hidden");
    }
    assert(is_code("state_read_failed"@)) by {
        reveal_strlit("state_read_failed");
    }
    assert(is_code("composer_row_rejected"@)) by {
        reveal_strlit("composer_row_rejected");
    }
    assert(is_code("composer_cursor_rejected"@)) by {
        reveal_strlit("composer_cursor_rejected");
    }
    assert(is_code("state_recheck_failed"@)) by {
        reveal_strlit("state_recheck_failed");
    }
    assert(is_code("state_changed_after_left"@)) by {
        reveal_strlit("state_changed_after_left");
    }
    assert(is_code("process_changed_after_left"@)) by {
        reveal_strlit("process_changed_after_left");
    }
    assert(is_code("popup_opened"@)) by {
        reveal_strlit("popup_opened");
    }
    let i = choose|i: int| 0 <= i < known_codes().len() && known_codes()[i] == code;
    assert(is_code(known_codes()[i]));
}

/// An event that is appended to a log of whole lines is the latest one of that log.
pub proof fn an_appended_event_is_the_latest(contents: Seq<char>, seconds: u64, code: Seq<char>)
    requires
        known_codes().contains(code),
        contents.len() == 0 || contents.last() == '\n',
    ensures
        last_event(contents + event_text(seconds, code).push('\n')) == Some(
            event_text(seconds, code),
        ),
{
    let time = number::decimal(seconds as nat);
    let line = event_text(seconds, code);
    codes_are_plain_words(code);
    number::decimal_digits(seconds as nat);
    assert forall|i: int| 0 <= i < line.len() implies line[i] != '\n' by {
        if i < time.len() {
            assert(text::is_digit(time[i]));
        } else if i > time.len() {
            assert(line[i] == code[i - time.len() - 1]);
        }
    }
    assert(line.last() == code.last());
    // The fields of the line.
    assert forall|i: int| 0 <= i < time.len() implies time[i] != ' ' by {
        assert(text::is_digit(time[i]));
    }
    scan::split_on_without(time, ' ');
    scan::split_on_without(code, ' ');
    scan::split_on_append(time, ' ', code);
    assert(is_event(line));
    // The last line of the log.
    scan::split_on_without(line, '\n');
    let before = contents + line;
    let whole = contents + line.push('\n');
    assert(whole.drop_last() =~= before);
    assert(whole.last() == '\n');
    let parts = scan::split_on(before, '\n');
    if contents.len() == 0 {
        assert(before =~= line);
    } else {
        let front = contents.drop_last();
        scan::split_on_append(front, '\n', line);
        assert(before =~= front + seq!['\n'] + line);
    }
    scan::split_on_nonempty(before, '\n');
    assert(parts.last() == line);
    let all = scan::split_on(whole, '\n');
    assert(all == parts.push(Seq::<char>::empty()));
    assert(all.last().len() == 0);
    let lines = scan::lines(whole);
    assert(lines.len() == parts.len());
    assert(lines.last() == scan::without_cr(all[parts.len() - 1]));
    assert(scan::without_cr(line) == line);
}

fn digits_only(s: &str) -> (r: bool)
    ensures
        r == number::all_digits(s@),
{
    let v = to_chars(s);
    let mut i: usize = 0;
    while i < v.len()
        invariant
            i <= v.len(),
            forall|j: int| 0 <= j < i ==> text::is_digit(#[trigger] v@[j]),
        decreases v.len() - i,
    {
        if !('0' <= v[i] && v[i] <= '9') {
            assert(!text::is_digit(v@[i as int]));
            return false;
        }
        i += 1;
    }
    true
}

/// The most recent event of a log.
pub fn latest_event(contents: &str) -> (r: Option<String>)
    ensures
        text::option_view(r) == last_event(contents@),
{
    let all = text_lines(contents);
    let ghost model = scan::lines(contents@);
    assert(model.len() == all@.len());
    if all.len() == 0 {
        return None;
    }
    let line = &all[all.len() - 1];
    assert(model.last() == line@);
    let fields = split_text(line, ' ');
    let ghost f = scan::split_on(line@, ' ');
    assert(f.len() == fields@.len());
    if fields.len() != 2 {
        return None;
    }
    assert(f[0] == fields@[0]@ && f[1] == fields@[1]@);
    if fields[0].as_str().is_empty() || !digits_only(&fields[0]) || !is_known_code(&fields[1]) {
        return None;
    }
    Some(line.clone())
}

/// A log file is trusted where it is a regular file of the current user with one
/// link.
pub fn safe_diagnostics_metadata(is_file: bool, uid: u32, euid: u32, links: u64) -> (r: bool)
    ensures
        r == (is_file && uid == euid && links == 1),
{
    is_file && uid == euid && links == 1
}

/// Whether a log of the given size is rotated before the next event.
pub fn rotates(size: u64) -> (r: bool)
    ensures
        r == (size >= NAMING_LOG_MAX_BYTES),
{
    size >= NAMING_LOG_MAX_BYTES
}

/// The place of a diagnostics log.
#[derive(Debug, Clone)]
pub struct NamingDiagnostics {
    location: UnixPath,
}

impl View for NamingDiagnostics {
    type V = Seq<u8>;

    closed spec fn view(&self) -> Seq<u8> {
        self.location@
    }
}

/// The state directory of the user, where one is known.
pub open spec fn state_root(state_home: Option<Seq<u8>>, home: Option<Seq<u8>>) -> Option<
    Seq<u8>,
> {
    match state_home {
        Some(root) => Some(root),
        None => match home {
            Some(home) => Some(path::joined(home, text::utf8(".local/state"@))),
            None => None,
        },
    }
}

pub open spec fn located(
    r: Result<NamingDiagnostics, MuxError>,
    state_home: Option<Seq<u8>>,
    home: Option<Seq<u8>>,
    name: Seq<char>,
) -> bool {
    match r {
        Ok(d) => state_root(state_home, home) is Some && d@ == path::joined(
            state_root(state_home, home)->0,
            text::utf8(name),
        ),
        Err(e) => state_root(state_home, home) is None && e@ == ErrorModel::Command(
            "HOME and XDG_STATE_HOME are unset"@,
        ),
    }
}

fn locate(
    state_home: &Option<UnixPath>,
    home: &Option<UnixPath>,
    name: &str,
) -> (r: Result<NamingDiagnostics, MuxError>)
    ensures
        located(
            r,
            crate::domain::path_view(*state_home),
            crate::domain::path_view(*home),
            name@,
        ),
{
    let root = match state_home {
        Some(root) => root.clone(),
        None => match home {
            Some(home) => home.join(&UnixPath::new(".local/state")),
            None => return Err(command_error("HOME and XDG_STATE_HOME are unset")),
        },
    };
    Ok(NamingDiagnostics { location: root.join(&UnixPath::new(name)) })
}

impl NamingDiagnostics {
    /// The naming log, given the state and home directories of the environment.
    pub fn discover(state_home: &Option<UnixPath>, home: &Option<UnixPath>) -> (r: Result<
        NamingDiagnostics,
        MuxError,
    >)
        ensures
            located(
                r,
                crate::domain::path_view(*state_home),
                crate::domain::path_view(*home),
                "codex-mux/smart-naming.log"@,
            ),
    {
        locate(state_home, home, "codex-mux/smart-naming.log")
    }

    /// The Smart Left log, alongside the naming log.
    pub fn smart_left(state_home: &Option<UnixPath>, home: &Option<UnixPath>) -> (r: Result<
        NamingDiagnostics,
        MuxError,
    >)
        ensures
            located(
                r,
                crate::domain::path_view(*state_home),
                crate::domain::path_view(*home),
                "codex-mux/smart-left.log"@,
            ),
    {
        locate(state_home, home, "codex-mux/smart-left.log")
    }

    /// A log at an explicit place.
    pub fn at(location: UnixPath) -> (r: NamingDiagnostics)
        ensures
            r@ == location@,
    {
        NamingDiagnostics { location }
    }

    pub fn path(&self) -> (r: &UnixPath)
        ensures
            r@ == self@,
    {
        &self.location
    }
}

} // verus!
