//! Which client, pane, window and session the program was called from, and
//! whether they still belong together.

use vstd::prelude::*;
use crate::cli::Cli;
use crate::domain::{
    ClientId, CommandOutput, Exchange, InvocationContext, LoggedRunner, OutputModel, PaneId,
    SessionId, TmuxCommandRunner, WindowId,
};
use crate::error::{command_error, invalid_value, ErrorModel, MuxError};
use crate::path;
use crate::path::UnixPath;
use crate::scan;
use crate::scan::{split_bytes, split_text, trim};
use crate::text;
use crate::text::{
    bytes_equal, bytes_of, list3, list5, read_utf8, text_equal, to_words, utf8_lossy,
};
use crate::tmux::actions;

verus! {

/// Where each client is.
pub const CLIENT_FORMAT: &'static str = "#{client_tty}\x1f#{session_id}\x1f#{window_id}\x1f#{pane_id}";

/// Where each client is, with the directory of its pane.
pub const LIVE_CLIENT_FORMAT: &'static str = "#{client_tty}\x1f#{session_id}\x1f#{window_id}\x1f#{pane_id}\x1f#{pane_current_path}";

pub open spec fn client_query(format: Seq<char>) -> Seq<Seq<char>> {
    seq!["list-clients"@, "-F"@, format]
}

// ---------------------------------------------------------------------------
// Has the client moved?
// ---------------------------------------------------------------------------

/// The fields of a line, where it is about the client.
pub open spec fn client_line(line: Seq<u8>, client: Seq<char>) -> Option<Seq<Seq<char>>> {
    match text::utf8_decoded(line) {
        None => None,
        Some(decoded) => {
            let fields = scan::split_on(decoded, '\x1f');
            if fields.len() == 4 && fields[0] == client {
                Some(fields)
            } else {
                None
            }
        },
    }
}

/// The fields of the first line about the client, from line `i` on.
pub open spec fn client_fields(lines: Seq<Seq<u8>>, client: Seq<char>, i: int) -> Option<
    Seq<Seq<char>>,
>
    decreases lines.len() - i,
{
    if i < 0 || i >= lines.len() {
        None
    } else {
        match client_line(lines[i], client) {
            Some(fields) => Some(fields),
            None => client_fields(lines, client, i + 1),
        }
    }
}

/// What speaks against the context after a look at the clients, `None` where
/// the client still shows that very pane.
pub open spec fn mismatch(
    reply: Result<OutputModel, ErrorModel>,
    context: InvocationContext,
) -> Option<Seq<char>> {
    match reply {
        Err(_) => Some("client_preflight_read_failed"@),
        Ok(output) => if output.status != Some(0i32) {
            Some("client_preflight_command_failed"@)
        } else {
            match client_fields(scan::split_on(output.stdout, 10u8), context.client_id@, 0) {
                None => Some("client_preflight_client_missing"@),
                Some(fields) => if fields[1] != context.session_id@ {
                    Some("client_preflight_session_changed"@)
                } else if fields[2] != context.window_id@ {
                    Some("client_preflight_window_changed"@)
                } else if fields[3] != context.pane_id@ {
                    Some("client_preflight_pane_changed"@)
                } else {
                    None
                },
            }
        },
    }
}

pub open spec fn code_view(code: Option<&'static str>) -> Option<Seq<char>> {
    match code {
        Some(c) => Some(c@),
        None => None,
    }
}

pub open spec fn fields_view(o: Option<Vec<String>>) -> Option<Seq<Seq<char>>> {
    match o {
        Some(fields) => Some(text::texts(fields@)),
        None => None,
    }
}

fn line_fields(line: &[u8], client: &ClientId) -> (r: Option<Vec<String>>)
    ensures
        fields_view(r) == client_line(line@, client@),
{
    match read_utf8(line) {
        None => None,
        Some(decoded) => {
            let fields = split_text(&decoded, '\x1f');
            assert(text::texts(fields@).len() == fields@.len());
            if fields.len() == 4 && text_equal(&fields[0], client.as_str()) {
                assert(text::texts(fields@)[0] == fields@[0]@);
                Some(fields)
            } else {
                None
            }
        },
    }
}

fn find_client(stdout: &Vec<u8>, client: &ClientId) -> (r: Option<Vec<String>>)
    ensures
        fields_view(r) == client_fields(scan::split_on(stdout@, 10u8), client@, 0),
{
    let lines = split_bytes(stdout, 10u8);
    let ghost all = scan::split_on(stdout@, 10u8);
    let mut i: usize = 0;
    while i < lines.len()
        invariant
            i <= lines.len(),
            text::words(lines@) == all,
            client_fields(all, client@, 0) == client_fields(all, client@, i as int),
        decreases lines.len() - i,
    {
        assert(all[i as int] == lines@[i as int]@);
        if let Some(fields) = line_fields(&lines[i], client) {
            return Some(fields);
        }
        i += 1;
    }
    None
}

/// Asks tmux where the client is and compares that with the context.
pub fn invocation_context_mismatch<R: TmuxCommandRunner>(
    runner: &mut LoggedRunner<R>,
    context: &InvocationContext,
) -> (r: Option<&'static str>)
    ensures
        final(runner).history() == old(runner).history().push(
            Exchange {
                request: text::utf8_words(client_query(CLIENT_FORMAT@)),
                reply: final(runner).history().last().reply,
            },
        ),
        code_view(r) == mismatch(final(runner).history().last().reply, *context),
{
    let reply = runner.run(&to_words(&list3("list-clients", "-F", CLIENT_FORMAT)));
    let output = match reply {
        Ok(output) => output,
        Err(_) => return Some("client_preflight_read_failed"),
    };
    match output.status {
        Some(0) => {},
        _ => return Some("client_preflight_command_failed"),
    }
    let fields = match find_client(&output.stdout, &context.client_id) {
        Some(fields) => fields,
        None => return Some("client_preflight_client_missing"),
    };
    let ghost all = text::texts(fields@);
    proof {
        fields_are_four(
            scan::split_on(output.stdout@, 10u8),
            context.client_id@,
            0,
        );
        assert(all[1] == fields@[1]@ && all[2] == fields@[2]@ && all[3] == fields@[3]@);
    }
    if !text_equal(&fields[1], context.session_id.as_str()) {
        return Some("client_preflight_session_changed");
    }
    if !text_equal(&fields[2], context.window_id.as_str()) {
        return Some("client_preflight_window_changed");
    }
    if !text_equal(&fields[3], context.pane_id.as_str()) {
        return Some("client_preflight_pane_changed");
    }
    None
}

proof fn fields_are_four(lines: Seq<Seq<u8>>, client: Seq<char>, i: int)
    requires
        client_fields(lines, client, i) is Some,
    ensures
        client_fields(lines, client, i)->0.len() == 4,
    decreases lines.len() - i,
{
    if client_line(lines[i], client) is None {
        fields_are_four(lines, client, i + 1);
    }
}

/// Whether the client still shows the pane of the context.
pub fn invocation_context_is_current<R: TmuxCommandRunner>(
    runner: &mut LoggedRunner<R>,
    context: &InvocationContext,
) -> (r: bool)
    ensures
        final(runner).history() == old(runner).history().push(
            Exchange {
                request: text::utf8_words(client_query(CLIENT_FORMAT@)),
                reply: final(runner).history().last().reply,
            },
        ),
        r == (mismatch(final(runner).history().last().reply, *context) is None),
{
    invocation_context_mismatch(runner, context).is_none()
}

/// The popup goes on only for a client that tmux reports, by a successful reply,
/// in the session, the window and the pane of the context.
pub proof fn only_an_unmoved_client_passes(
    reply: Result<OutputModel, ErrorModel>,
    context: InvocationContext,
)
    requires
        mismatch(reply, context) is None,
    ensures
        reply is Ok,
        reply->Ok_0.status == Some(0i32),
        exists|i: int|
            0 <= i < scan::split_on(reply->Ok_0.stdout, 10u8).len() && #[trigger] client_line(
                scan::split_on(reply->Ok_0.stdout, 10u8)[i],
                context.client_id@,
            ) == Some(
                seq![
                    context.client_id@,
                    context.session_id@,
                    context.window_id@,
                    context.pane_id@,
                ],
            ),
{
    let lines = scan::split_on(reply->Ok_0.stdout, 10u8);
    let at = found_line(lines, context.client_id@, 0);
    let fields = client_fields(lines, context.client_id@, 0)->0;
    assert(fields =~= seq![
        context.client_id@,
        context.session_id@,
        context.window_id@,
        context.pane_id@,
    ]);
    assert(client_line(lines[at], context.client_id@) == Some(fields));
}

proof fn found_line(lines: Seq<Seq<u8>>, client: Seq<char>, i: int) -> (at: int)
    requires
        0 <= i,
        client_fields(lines, client, i) is Some,
    ensures
        0 <= at < lines.len(),
        client_line(lines[at], client) == client_fields(lines, client, i),
        client_fields(lines, client, i)->0.len() == 4,
        client_fields(lines, client, i)->0[0] == client,
    decreases lines.len() - i,
{
    if client_line(lines[i], client) is Some {
        i
    } else {
        found_line(lines, client, i + 1)
    }
}

// ---------------------------------------------------------------------------
// Where was the program called from?
// ---------------------------------------------------------------------------

/// What a context says.
#[verifier::ext_equal]
pub struct PlaceModel {
    pub client: Seq<char>,
    pub pane: Seq<char>,
    pub session: Seq<char>,
    pub window: Seq<char>,
    pub path: Seq<u8>,
}

pub open spec fn place(c: InvocationContext) -> PlaceModel {
    PlaceModel {
        client: c.client_id@,
        pane: c.pane_id@,
        session: c.session_id@,
        window: c.window_id@,
        path: c.current_path@,
    }
}

pub open spec fn place_view(o: Option<InvocationContext>) -> Option<PlaceModel> {
    match o {
        Some(c) => Some(place(c)),
        None => None,
    }
}

pub open spec fn place_outcome(r: Result<InvocationContext, MuxError>) -> Result<
    PlaceModel,
    ErrorModel,
> {
    match r {
        Ok(c) => Ok(place(c)),
        Err(e) => Err(e@),
    }
}

/// An identity printed by tmux: decodable and not blank.
pub open spec fn printed_id(bytes: Seq<u8>) -> Option<Seq<char>> {
    match text::utf8_decoded(bytes) {
        Some(decoded) => if scan::is_blank(decoded) {
            None
        } else {
            Some(decoded)
        },
        None => None,
    }
}

/// The place that a line gives, where it is about the client in that pane.
pub open spec fn live_line(line: Seq<u8>, client: Seq<char>, pane: Seq<char>) -> Option<PlaceModel> {
    let fields = scan::split_on(line, 31u8);
    if fields.len() != 5 || fields[0] != text::utf8(client) || fields[3] != text::utf8(pane) {
        None
    } else {
        match (printed_id(fields[1]), printed_id(fields[2])) {
            (Some(session), Some(window)) => Some(
                PlaceModel { client, pane, session, window, path: fields[4] },
            ),
            _ => None,
        }
    }
}

/// The place that the first such line gives, from line `i` on.
pub open spec fn live_from(
    lines: Seq<Seq<u8>>,
    client: Seq<char>,
    pane: Seq<char>,
    i: int,
) -> Option<PlaceModel>
    decreases lines.len() - i,
{
    if i < 0 || i >= lines.len() {
        None
    } else {
        match live_line(lines[i], client, pane) {
            Some(found) => Some(found),
            None => live_from(lines, client, pane, i + 1),
        }
    }
}

pub open spec fn live_place(
    reply: Result<OutputModel, ErrorModel>,
    client: Seq<char>,
    pane: Seq<char>,
) -> Option<PlaceModel> {
    match reply {
        Err(_) => None,
        Ok(output) => if output.status == Some(0i32) {
            live_from(scan::split_on(output.stdout, 10u8), client, pane, 0)
        } else {
            None
        },
    }
}

fn read_session(bytes: &[u8]) -> (r: Option<SessionId>)
    ensures
        match r {
            Some(id) => printed_id(bytes@) == Some(id@),
            None => printed_id(bytes@) is None,
        },
{
    match read_utf8(bytes) {
        Some(decoded) => match SessionId::new(&decoded) {
            Ok(id) => Some(id),
            Err(_) => None,
        },
        None => None,
    }
}

fn read_window(bytes: &[u8]) -> (r: Option<WindowId>)
    ensures
        match r {
            Some(id) => printed_id(bytes@) == Some(id@),
            None => printed_id(bytes@) is None,
        },
{
    match read_utf8(bytes) {
        Some(decoded) => match WindowId::new(&decoded) {
            Ok(id) => Some(id),
            Err(_) => None,
        },
        None => None,
    }
}

fn read_live_line(line: &[u8], client: &ClientId, pane: &PaneId) -> (r: Option<InvocationContext>)
    ensures
        place_view(r) == live_line(line@, client@, pane@),
{
    let fields = split_bytes(line, 31u8);
    let ghost all = text::words(fields@);
    assert(all.len() == fields@.len());
    if fields.len() != 5 {
        return None;
    }
    assert(all[0] == fields@[0]@ && all[1] == fields@[1]@ && all[2] == fields@[2]@ && all[3]
        == fields@[3]@ && all[4] == fields@[4]@);
    if !bytes_equal(&fields[0], &bytes_of(client.as_str())) || !bytes_equal(
        &fields[3],
        &bytes_of(pane.as_str()),
    ) {
        return None;
    }
    let session_id = match read_session(&fields[1]) {
        Some(id) => id,
        None => return None,
    };
    let window_id = match read_window(&fields[2]) {
        Some(id) => id,
        None => return None,
    };
    Some(
        InvocationContext {
            client_id: client.clone(),
            pane_id: pane.clone(),
            session_id,
            window_id,
            current_path: UnixPath::from_bytes(&fields[4]),
        },
    )
}

fn read_live(stdout: &Vec<u8>, client: &ClientId, pane: &PaneId) -> (r: Option<InvocationContext>)
    ensures
        place_view(r) == live_from(scan::split_on(stdout@, 10u8), client@, pane@, 0),
{
    let lines = split_bytes(stdout, 10u8);
    let ghost all = scan::split_on(stdout@, 10u8);
    let mut i: usize = 0;
    while i < lines.len()
        invariant
            i <= lines.len(),
            text::words(lines@) == all,
            live_from(all, client@, pane@, 0) == live_from(all, client@, pane@, i as int),
        decreases lines.len() - i,
    {
        assert(all[i as int] == lines@[i as int]@);
        if let Some(found) = read_live_line(&lines[i], client, pane) {
            return Some(found);
        }
        i += 1;
    }
    None
}

/// Asks tmux for the place of the client, if it is in that pane.
pub fn live_invocation_context<R: TmuxCommandRunner>(
    runner: &mut LoggedRunner<R>,
    client_id: &ClientId,
    pane_id: &PaneId,
) -> (r: Option<InvocationContext>)
    ensures
        final(runner).history() == old(runner).history().push(
            Exchange {
                request: text::utf8_words(client_query(LIVE_CLIENT_FORMAT@)),
                reply: final(runner).history().last().reply,
            },
        ),
        place_view(r) == live_place(final(runner).history().last().reply, client_id@, pane_id@),
{
    let reply = runner.run(&to_words(&list3("list-clients", "-F", LIVE_CLIENT_FORMAT)));
    match reply {
        Err(_) => None,
        Ok(output) => match output.status {
            Some(0) => read_live(&output.stdout, client_id, pane_id),
            _ => None,
        },
    }
}

pub open spec fn popup_value(field: Seq<char>, message: Seq<char>) -> ErrorModel {
    ErrorModel::InvalidValue { field, message }
}

/// A value that the binding has to give.
pub open spec fn required(value: Option<Seq<char>>, field: Seq<char>) -> Result<
    Seq<char>,
    ErrorModel,
> {
    match value {
        Some(v) => Ok(v),
        None => Err(
            popup_value(field, "is required when opening the interactive popup from tmux"@),
        ),
    }
}

/// A text as an identity of the given kind.
pub open spec fn identity(value: Seq<char>, kind: Seq<char>) -> Result<Seq<char>, ErrorModel> {
    if scan::is_blank(value) {
        Err(popup_value(kind, "must not be empty"@))
    } else {
        Ok(value)
    }
}

pub open spec fn required_identity(
    value: Option<Seq<char>>,
    field: Seq<char>,
    kind: Seq<char>,
) -> Result<Seq<char>, ErrorModel> {
    match required(value, field) {
        Ok(v) => identity(v, kind),
        Err(e) => Err(e),
    }
}

/// Path, pane and client of the command line, checked in that order.
pub open spec fn supplied(cli: Cli) -> Result<(Seq<u8>, Seq<char>, Seq<char>), ErrorModel> {
    match cli.invoking_path {
        None => Err(
            popup_value(
                "invoking path"@,
                "is required when opening the interactive popup from tmux"@,
            ),
        ),
        Some(p) => if !path::is_absolute(p@) {
            Err(popup_value("invoking path"@, "must be absolute"@))
        } else {
            match required_identity(
                text::option_view(cli.invoking_pane),
                "invoking pane"@,
                "pane ID"@,
            ) {
                Err(e) => Err(e),
                Ok(pane) => match required_identity(
                    text::option_view(cli.client),
                    "tmux client"@,
                    "client ID"@,
                ) {
                    Err(e) => Err(e),
                    Ok(client) => Ok((p@, pane, client)),
                },
            }
        },
    }
}

pub open spec fn window_query(pane: Seq<char>) -> Seq<Seq<char>> {
    seq!["display-message"@, "-p"@, "-t"@, pane, "#{window_id}"@]
}

/// The window that tmux printed for the invoking pane.
pub open spec fn printed_window(reply: Result<OutputModel, ErrorModel>) -> Result<
    Seq<char>,
    ErrorModel,
> {
    match reply {
        Err(e) => Err(e),
        Ok(output) => if output.status != Some(0i32) {
            Err(
                ErrorModel::Command(
                    "could not resolve the invoking tmux window: "@ + scan::trimmed(
                        text::lossy_text(output.stderr),
                    ),
                ),
            )
        } else {
            identity(scan::trimmed(text::lossy_text(output.stdout)), "window ID"@)
        },
    }
}

/// The place put together from the command line, given its window.
pub open spec fn place_from(
    cli: Cli,
    given: (Seq<u8>, Seq<char>, Seq<char>),
    window: Result<Seq<char>, ErrorModel>,
) -> Result<PlaceModel, ErrorModel> {
    match window {
        Err(e) => Err(e),
        Ok(w) => match required_identity(
            text::option_view(cli.invoking_session),
            "invoking session"@,
            "session ID"@,
        ) {
            Err(e) => Err(e),
            Ok(session) => Ok(
                PlaceModel {
                    client: given.2,
                    pane: given.1,
                    session,
                    window: w,
                    path: given.0,
                },
            ),
        },
    }
}

/// What was asked of tmux, and the place that came of it: tmux itself is
/// believed before the command line, except for the path.
pub open spec fn context_found(
    cli: Cli,
    trace: Seq<Exchange>,
    result: Result<PlaceModel, ErrorModel>,
) -> bool {
    match supplied(cli) {
        Err(e) => trace.len() == 0 && result == Err::<PlaceModel, ErrorModel>(e),
        Ok(given) => {
            &&& trace.len() >= 1
            &&& trace[0].request == text::utf8_words(client_query(LIVE_CLIENT_FORMAT@))
            &&& match live_place(trace[0].reply, given.2, given.1) {
                Some(found) => {
                    &&& trace.len() == 1
                    &&& result == Ok::<PlaceModel, ErrorModel>(
                        (PlaceModel { path: given.0, ..found }),
                    )
                },
                None => match cli.invoking_window {
                    Some(window) => {
                        &&& trace.len() == 1
                        &&& result == place_from(cli, given, identity(window@, "window ID"@))
                    },
                    None => {
                        &&& trace.len() == 2
                        &&& trace[1].request == text::utf8_words(window_query(given.1))
                        &&& result == place_from(cli, given, printed_window(trace[1].reply))
                    },
                },
            }
        },
    }
}

fn need<'a>(value: &'a Option<String>, field: &'static str) -> (r: Result<&'a String, MuxError>)
    ensures
        match r {
            Ok(v) => required(text::option_view(*value), field@) == Ok::<Seq<char>, ErrorModel>(v@),
            Err(e) => required(text::option_view(*value), field@) == Err::<Seq<char>, ErrorModel>(
                e@,
            ),
        },
{
    match value {
        Some(v) => Ok(v),
        None => Err(
            invalid_value(field, "is required when opening the interactive popup from tmux"),
        ),
    }
}

fn read_printed_window(output: &CommandOutput) -> (r: Result<WindowId, MuxError>)
    ensures
        match r {
            Ok(id) => printed_window(Ok(output@)) == Ok::<Seq<char>, ErrorModel>(id@),
            Err(e) => printed_window(Ok(output@)) == Err::<Seq<char>, ErrorModel>(e@),
        },
{
    match output.status {
        Some(0) => {},
        _ => {
            let mut message = "could not resolve the invoking tmux window: ".to_owned();
            message.append(&trim(&utf8_lossy(&output.stderr)));
            return Err(command_error(&message));
        },
    }
    WindowId::new(&trim(&utf8_lossy(&output.stdout)))
}

/// Finds out where the program was called from.
pub fn invocation_context<R: TmuxCommandRunner>(cli: &Cli, runner: &mut LoggedRunner<R>) -> (r:
    Result<InvocationContext, MuxError>)
    ensures
        old(runner).history().is_prefix_of(final(runner).history()),
        context_found(
            *cli,
            actions::exchanged(old(runner).history(), final(runner).history()),
            place_outcome(r),
        ),
{
    let ghost before = runner.history();
    let supplied_path = match &cli.invoking_path {
        Some(p) => p,
        None => {
            assert(actions::exchanged(before, before) =~= Seq::empty());
            return Err(
                invalid_value(
                    "invoking path",
                    "is required when opening the interactive popup from tmux",
                ),
            );
        },
    };
    assert(actions::exchanged(before, before) =~= Seq::empty());
    if !supplied_path.is_absolute() {
        return Err(invalid_value("invoking path", "must be absolute"));
    }
    let pane_id = match need(&cli.invoking_pane, "invoking pane") {
        Ok(v) => match PaneId::new(v) {
            Ok(id) => id,
            Err(e) => return Err(e),
        },
        Err(e) => return Err(e),
    };
    let client_id = match need(&cli.client, "tmux client") {
        Ok(v) => match ClientId::new(v) {
            Ok(id) => id,
            Err(e) => return Err(e),
        },
        Err(e) => return Err(e),
    };
    let live = live_invocation_context(runner, &client_id, &pane_id);
    let ghost first = runner.history();
    assert(actions::exchanged(before, first) =~= seq![first.last()]);
    if let Some(found) = live {
        let mut context = found;
        context.current_path = supplied_path.clone();
        return Ok(context);
    }
    let window_id = match &cli.invoking_window {
        Some(window) => match WindowId::new(window) {
            Ok(id) => id,
            Err(e) => return Err(e),
        },
        None => {
            let reply = runner.run(
                &to_words(&list5("display-message", "-p", "-t", pane_id.as_str(), "#{window_id}")),
            );
            let ghost second = runner.history();
            assert(actions::exchanged(before, second) =~= seq![first.last(), second.last()]);
            match reply {
                Err(e) => return Err(e),
                Ok(output) => match read_printed_window(&output) {
                    Ok(id) => id,
                    Err(e) => return Err(e),
                },
            }
        },
    };
    let session_id = match need(&cli.invoking_session, "invoking session") {
        Ok(v) => match SessionId::new(v) {
            Ok(id) => id,
            Err(e) => return Err(e),
        },
        Err(e) => return Err(e),
    };
    Ok(
        InvocationContext {
            client_id,
            pane_id,
            session_id,
            window_id,
            current_path: supplied_path.clone(),
        },
    )
}

} // verus!
