//! What is learnt of the running agents of a host, and where a session is opened.

use vstd::prelude::*;

use crate::agents::{
    attach, id_prefix, observe_live, resume, with_natives, AgentError, NativeObservation, Opening,
};
use crate::app_server::{list_request, read_request, PageRequest, ThreadListing};
use crate::codex::{CodexError, RawThread};
use crate::codex_runtime::{
    connect_or_start, ensure, parse_status, told_status, wait_for_socket, ConnectStep, RuntimeError,
    RuntimeStatus, SocketWait,
};
use crate::domain::{
    observation_views, stable_id_text, stable_ids_are_unambiguous, AgentKind, LiveObservation,
    ObservationView,
};
use crate::json::json_quoted;
use crate::keyed::StringMap;
use crate::laws::listing::an_identifier_holds_its_parts;
use crate::native::{deterministic_tmux_name, probe_command, NativeError};
use crate::omp::OmpError;
use crate::quoting::{has_nul, shell_command};
use crate::text::{decimal, lines_of, starts_text, texts};
use crate::tmux::CommandOutcome;

verus! {

// ---- the shared runtime ----

/// A line tells how the runtime stands.
pub open spec fn tells_status(line: Seq<char>, running: bool, path: Seq<char>) -> bool {
    line == (if running {
        "running\t"@
    } else {
        "stopped\t"@
    }) + path
}

/// The last line that tells how the runtime stands is line `k`.
pub open spec fn last_tells_status(
    lines: Seq<Seq<char>>,
    running: bool,
    path: Seq<char>,
    k: int,
) -> bool {
    &&& 0 <= k < lines.len()
    &&& tells_status(lines[k], running, path)
    &&& forall|j: int, up: bool, other: Seq<char>|
        k < j < lines.len() ==> !#[trigger] tells_status(lines[j], up, other)
}

proof fn lemma_tells_status(line: Seq<char>, running: bool, path: Seq<char>)
    ensures
        starts_text(line, "running\t"@) ==> tells_status(line, true, line.skip(8)),
        starts_text(line, "stopped\t"@) ==> tells_status(line, false, line.skip(8)),
        tells_status(line, running, path) ==> path == line.skip(8) && starts_text(
            line,
            if running {
                "running\t"@
            } else {
                "stopped\t"@
            },
        ),
        !(starts_text(line, "running\t"@) && starts_text(line, "stopped\t"@)),
        "running\t"@.len() == 8 && "stopped\t"@.len() == 8,
{
    reveal_strlit("running\t");
    reveal_strlit("stopped\t");
    if starts_text(line, "running\t"@) {
        assert(line.subrange(0, 8) + line.skip(8) =~= line);
        assert(line.subrange(0, 8)[0] == 'r');
    }
    if starts_text(line, "stopped\t"@) {
        assert(line.subrange(0, 8) + line.skip(8) =~= line);
        assert(line.subrange(0, 8)[0] == 's');
    }
    if tells_status(line, running, path) {
        assert(line.skip(8) =~= path);
        assert(line.subrange(0, 8) =~= if running {
            "running\t"@
        } else {
            "stopped\t"@
        });
    }
}

proof fn lemma_told_status(lines: Seq<Seq<char>>, running: bool, path: Seq<char>, k: int)
    ensures
        last_tells_status(lines, running, path, k) ==> told_status(lines) == Some((running, path)),
        (forall|j: int, up: bool, other: Seq<char>|
            0 <= j < lines.len() ==> !#[trigger] tells_status(lines[j], up, other)) ==> told_status(
            lines,
        ) is None,
    decreases lines.len(),
{
    if lines.len() > 0 {
        let front = lines.drop_last();
        let last = lines.len() - 1;
        lemma_tells_status(lines[last], running, path);
        lemma_told_status(front, running, path, k);
        if last_tells_status(lines, running, path, k) {
            if k < last {
                assert(!tells_status(lines[last], true, lines[last].skip(8)));
                assert(!tells_status(lines[last], false, lines[last].skip(8)));
                assert(front[k] == lines[k]);
                assert forall|j: int, up: bool, other: Seq<char>|
                    k < j < front.len() implies !#[trigger] tells_status(front[j], up, other) by {
                    assert(!tells_status(lines[j], up, other));
                }
                assert(last_tells_status(front, running, path, k));
            }
        }
        if forall|j: int, up: bool, other: Seq<char>|
            0 <= j < lines.len() ==> !#[trigger] tells_status(lines[j], up, other) {
            assert(!tells_status(lines[last], true, lines[last].skip(8)));
            assert(!tells_status(lines[last], false, lines[last].skip(8)));
            assert forall|j: int, up: bool, other: Seq<char>|
                0 <= j < front.len() implies !#[trigger] tells_status(front[j], up, other) by {
                assert(!tells_status(lines[j], up, other));
            }
        }
    }
}

/// The runtime stands as the last line says that tells of it, with its socket at the path of
/// that line; where no line tells, there is no status.
pub proof fn the_last_line_tells_how_the_runtime_stands(
    output: &str,
    r: Result<RuntimeStatus, RuntimeError>,
    running: bool,
    path: Seq<char>,
    k: int,
)
    requires
        call_ensures(parse_status, (output,), r),
    ensures
        last_tells_status(lines_of(output@), running, path, k) ==> (r matches Ok(status)
            && status.running == running && status.socket_path@ == path),
        (forall|j: int, up: bool, other: Seq<char>|
            0 <= j < lines_of(output@).len() ==> !#[trigger] tells_status(
                lines_of(output@)[j],
                up,
                other,
            )) ==> r is Err,
{
    lemma_told_status(lines_of(output@), running, path, k);
}

/// A runtime that was started is there only where it says that it runs; what it says of its
/// socket is then used.
pub proof fn a_started_runtime_must_run(
    outcome: &CommandOutcome,
    r: Result<String, RuntimeError>,
    running: bool,
    path: Seq<char>,
    k: int,
)
    requires
        call_ensures(ensure, (outcome,), r),
        last_tells_status(lines_of(outcome.stdout@), running, path, k),
    ensures
        r is Ok <==> outcome.success && running,
        r matches Ok(socket) ==> socket@ == path,
{
    lemma_told_status(lines_of(outcome.stdout@), running, path, k);
}

/// A runtime that runs is connected to, and one that does not is started.
pub proof fn a_running_runtime_is_used(status: RuntimeStatus, r: ConnectStep)
    requires
        call_ensures(connect_or_start, (status,), r),
    ensures
        r is Start <==> !status.running,
        r matches ConnectStep::Connect(path) ==> path == status.socket_path,
{
}

/// A socket is waited for until it is there, until the time is up, or until what was to make it
/// has ended.
pub proof fn a_socket_is_waited_for(
    in_time: bool,
    exists: bool,
    ended: Option<String>,
    path: &str,
    r: SocketWait,
)
    requires
        call_ensures(wait_for_socket, (in_time, exists, ended, path), r),
    ensures
        in_time && exists ==> r is Ready,
        !in_time ==> r is Failed,
        in_time && !exists && ended is None ==> r is Again,
        in_time && !exists && ended is Some ==> r is Failed,
{
}

// ---- live observations ----

/// The name with which the identifiers of an agent begin ends with a colon and holds no other
/// agent's.
proof fn lemma_prefixes(host: Seq<char>, a: AgentKind, b: AgentKind, id: Seq<char>)
    requires
        a != b,
    ensures
        !(starts_text(id, id_prefix(host, a)) && starts_text(id, id_prefix(host, b))),
{
    reveal_strlit("codex");
    reveal_strlit("omp");
    reveal_strlit("pi");
    reveal_strlit("hermes");
    reveal_strlit("agy");
    let n = host.len() as int;
    let p = id_prefix(host, a);
    let q = id_prefix(host, b);
    assert(p[n + 1] == a.name()[0]);
    assert(q[n + 1] == b.name()[0]);
    if starts_text(id, p) && starts_text(id, q) {
        assert(id.subrange(0, p.len() as int)[n + 1] == p[n + 1]);
        assert(id.subrange(0, q.len() as int)[n + 1] == q[n + 1]);
    }
}

proof fn lemma_qualified(
    observations: Map<Seq<char>, ObservationView>,
    host: Seq<char>,
    agent: AgentKind,
    native: Seq<char>,
)
    ensures
        starts_text(stable_id_text(host, agent, native), id_prefix(host, agent)),
        stable_id_text(host, agent, native).skip(id_prefix(host, agent).len() as int) == native,
{
    let id = stable_id_text(host, agent, native);
    let p = id_prefix(host, agent);
    assert(id =~= p + native);
    assert(id.subrange(0, p.len() as int) =~= p);
    assert(id.skip(p.len() as int) =~= native);
}

proof fn lemma_natives_keep(
    before: Map<Seq<char>, ObservationView>,
    natives: Seq<NativeObservation>,
    host: Seq<char>,
    agent: AgentKind,
    native: Seq<char>,
)
    requires
        forall|i: int| 0 <= i < natives.len() ==> (#[trigger] natives[i]).agent != agent,
    ensures
        ({
            let after = with_natives(before, natives, host);
            let id = stable_id_text(host, agent, native);
            &&& after.dom().contains(id) <==> before.dom().contains(id)
            &&& before.dom().contains(id) ==> after[id] == before[id]
        }),
    decreases natives.len(),
{
    if natives.len() > 0 {
        let front = natives.drop_last();
        assert forall|i: int| 0 <= i < front.len() implies (#[trigger] front[i]).agent != agent by {
            assert(natives[i].agent != agent);
        }
        lemma_natives_keep(before, front, host, agent, native);
        let last = natives[natives.len() - 1].agent;
        assert(last != agent);
        lemma_prefixes(host, agent, last, stable_id_text(host, agent, native));
        lemma_qualified(before, host, agent, native);
    }
}

/// A look at a host fails where neither of the two agents with a runtime of their own could be
/// looked at, and where one of the others could not; one of the two is enough.
pub proof fn a_look_needs_one_runtime(
    host: &str,
    codex: Result<StringMap<LiveObservation>, CodexError>,
    omp: Result<StringMap<LiveObservation>, OmpError>,
    natives: Vec<NativeObservation>,
    r: Result<StringMap<LiveObservation>, AgentError>,
)
    requires
        call_ensures(observe_live, (host, codex, omp, natives), r),
    ensures
        codex is Err && omp is Err ==> r is Err,
        (codex is Ok || omp is Ok) && (forall|i: int|
            0 <= i < natives@.len() ==> (#[trigger] natives@[i]).result is Ok) ==> r is Ok,
        (codex is Ok || omp is Ok) && (exists|i: int|
            0 <= i < natives@.len() && (#[trigger] natives@[i]).result is Err) ==> r is Err,
{
    lemma_native_errors(natives@);
}

proof fn lemma_native_errors(natives: Seq<NativeObservation>)
    ensures
        crate::agents::first_native_error(natives) is Some <==> exists|i: int|
            0 <= i < natives.len() && (#[trigger] natives[i]).result is Err,
    decreases natives.len(),
{
    if natives.len() > 0 {
        let front = natives.drop_last();
        let last = natives.len() - 1;
        lemma_native_errors(front);
        if exists|i: int| 0 <= i < front.len() && (#[trigger] front[i]).result is Err {
            let i = choose|i: int| 0 <= i < front.len() && (#[trigger] front[i]).result is Err;
            assert(natives[i].result is Err);
        }
        if exists|i: int| 0 <= i < natives.len() && (#[trigger] natives[i]).result is Err {
            let i = choose|i: int| 0 <= i < natives.len() && (#[trigger] natives[i]).result is Err;
            if i < last {
                assert(front[i].result is Err);
            }
        }
        assert(natives[last] == natives.last());
    }
}

/// What was seen of a thread and of a session of omp is found under the identifier of that
/// session, and nothing is found there that was not seen.
pub proof fn a_look_is_kept_by_identifier(
    host: &str,
    codex: Result<StringMap<LiveObservation>, CodexError>,
    omp: Result<StringMap<LiveObservation>, OmpError>,
    natives: Vec<NativeObservation>,
    r: Result<StringMap<LiveObservation>, AgentError>,
    native: Seq<char>,
)
    requires
        call_ensures(observe_live, (host, codex, omp, natives), r),
        forall|i: int|
            0 <= i < natives@.len() ==> !((#[trigger] natives@[i]).agent is Codex)
                && !(natives@[i].agent is Omp),
        r is Ok,
    ensures
        ({
            let seen = r->Ok_0@;
            let thread = stable_id_text(host@, AgentKind::Codex, native);
            let session = stable_id_text(host@, AgentKind::Omp, native);
            &&& codex matches Ok(threads) ==> (seen.dom().contains(thread) <==> threads@.dom().contains(
                native,
            )) && (threads@.dom().contains(native) ==> seen[thread].view() == threads@[native].view())
            &&& codex is Err ==> !seen.dom().contains(thread)
            &&& omp matches Ok(sessions) ==> (seen.dom().contains(session)
                <==> sessions@.dom().contains(native)) && (sessions@.dom().contains(native)
                ==> seen[session].view() == sessions@[native].view())
            &&& omp is Err ==> !seen.dom().contains(session)
        }),
{
    let seen = r->Ok_0@;
    let thread = stable_id_text(host@, AgentKind::Codex, native);
    let session = stable_id_text(host@, AgentKind::Omp, native);
    let shared = crate::agents::shared_observations(codex, omp, host@);
    assert(observation_views(seen) == with_natives(shared, natives@, host@));
    lemma_natives_keep(shared, natives@, host@, AgentKind::Codex, native);
    lemma_natives_keep(shared, natives@, host@, AgentKind::Omp, native);
    lemma_prefixes(host@, AgentKind::Codex, AgentKind::Omp, thread);
    lemma_prefixes(host@, AgentKind::Codex, AgentKind::Omp, session);
    lemma_qualified(shared, host@, AgentKind::Codex, native);
    lemma_qualified(shared, host@, AgentKind::Omp, native);
    assert(observation_views(seen).dom().contains(thread) <==> seen.dom().contains(thread));
    assert(observation_views(seen).dom().contains(session) <==> seen.dom().contains(session));
    if let Ok(threads) = codex {
        assert(observation_views(threads@).dom().contains(native) <==> threads@.dom().contains(native));
    }
    if let Ok(sessions) = omp {
        assert(observation_views(sessions@).dom().contains(native) <==> sessions@.dom().contains(
            native,
        ));
    }
}

// ---- where a session is opened ----

/// A session is opened by the adapter of its agent, on its host, under the identifier that the
/// agent gave. Resuming differs from attaching only in that it was asked for.
pub proof fn a_session_is_opened_by_its_agent(
    id: &str,
    attached: Result<Opening, AgentError>,
    resumed: Result<Opening, AgentError>,
    host: Seq<char>,
    native: Seq<char>,
)
    requires
        call_ensures(attach, (id,), attached),
        call_ensures(resume, (id,), resumed),
        host.len() > 0,
        !host.contains(':'),
        native.len() > 0,
        attached is Ok,
        resumed is Ok,
    ensures
        id@ == host + ":codex:"@ + native
            ==> opens_as(attached->Ok_0, AgentKind::Codex, false, host, native)
            && opens_as(resumed->Ok_0, AgentKind::Codex, true, host, native),
        id@ == host + ":omp:"@ + native
            ==> opens_as(attached->Ok_0, AgentKind::Omp, false, host, native)
            && opens_as(resumed->Ok_0, AgentKind::Omp, true, host, native),
        id@ == host + ":pi:"@ + native
            ==> opens_as(attached->Ok_0, AgentKind::Pi, false, host, native)
            && opens_as(resumed->Ok_0, AgentKind::Pi, true, host, native),
        id@ == host + ":hermes:"@ + native
            ==> opens_as(attached->Ok_0, AgentKind::Hermes, false, host, native)
            && opens_as(resumed->Ok_0, AgentKind::Hermes, true, host, native),
        id@ == host + ":agy:"@ + native
            ==> opens_as(attached->Ok_0, AgentKind::Agy, false, host, native)
            && opens_as(resumed->Ok_0, AgentKind::Agy, true, host, native),
{
    an_identifier_holds_its_parts(host, native);
    lemma_opens(id@, attached, false, host, native, AgentKind::Codex);
    lemma_opens(id@, attached, false, host, native, AgentKind::Omp);
    lemma_opens(id@, attached, false, host, native, AgentKind::Pi);
    lemma_opens(id@, attached, false, host, native, AgentKind::Hermes);
    lemma_opens(id@, attached, false, host, native, AgentKind::Agy);
    lemma_opens(id@, resumed, true, host, native, AgentKind::Codex);
    lemma_opens(id@, resumed, true, host, native, AgentKind::Omp);
    lemma_opens(id@, resumed, true, host, native, AgentKind::Pi);
    lemma_opens(id@, resumed, true, host, native, AgentKind::Hermes);
    lemma_opens(id@, resumed, true, host, native, AgentKind::Agy);
}

/// An opening of a session by the adapter of its agent.
pub open spec fn opens_as(
    opening: Opening,
    agent: AgentKind,
    resumed: bool,
    host: Seq<char>,
    native: Seq<char>,
) -> bool {
    match opening {
        Opening::Codex { host: at, native_session_id } => agent is Codex && at@ == host
            && native_session_id@ == native,
        Opening::Omp { host: at, native_session_id } => agent is Omp && at@ == host
            && native_session_id@ == native,
        Opening::Native { host: at, agent: by, native_session_id, force_resume } => {
            &&& by == agent
            &&& agent is Pi || agent is Hermes || agent is Agy
            &&& at@ == host
            &&& native_session_id@ == native
            &&& force_resume == resumed
        },
    }
}

proof fn lemma_opens(
    id: Seq<char>,
    r: Result<Opening, AgentError>,
    resumed: bool,
    host: Seq<char>,
    native: Seq<char>,
    agent: AgentKind,
)
    requires
        crate::agents::opens(r, id, resumed),
        r is Ok,
    ensures
        crate::domain::is_stable_id(id, host, agent, native) ==> opens_as(
            r->Ok_0,
            agent,
            resumed,
            host,
            native,
        ),
{
    if crate::domain::is_stable_id(id, host, agent, native) {
        let key = choose|key: crate::domain::SessionKey| #[trigger]
            crate::domain::is_stable_id(id, key.host@, key.agent, key.native_session_id@)
                && r->Ok_0 == crate::agents::opening(key, resumed);
        stable_ids_are_unambiguous(
            id,
            host,
            agent,
            native,
            key.host@,
            key.agent,
            key.native_session_id@,
        );
    }
}

// ---- probes ----

/// A probe is told the agent, how many sessions are wanted, or that all are, and whether only
/// those that run count; it runs in a login shell, on the host.
pub proof fn a_probe_is_told_what_is_wanted(
    host: &str,
    agent: AgentKind,
    limit: Option<usize>,
    live_only: bool,
    probe: &str,
    hostname: &str,
    r: Result<(&'static str, Vec<String>), NativeError>,
)
    requires
        call_ensures(probe_command, (host, agent, limit, live_only, probe, hostname), r),
        host@ == "local"@ || host@ == hostname@,
        !has_nul(probe@),
    ensures
        ({
            let wanted = match limit {
                Some(n) => decimal(n as nat),
                None => "all"@,
            };
            let which = if live_only {
                "live"@
            } else {
                "inventory"@
            };
            let name = match agent {
                AgentKind::Codex => "codex"@,
                AgentKind::Omp => "omp"@,
                AgentKind::Pi => "pi"@,
                AgentKind::Hermes => "hermes"@,
                AgentKind::Agy => "agy"@,
            };
            r matches Ok(command) && command.0@ == "bash"@ && texts(command.1@) == seq![
                "-lc"@,
                shell_command(seq!["python3"@, "-c"@, probe@, name, wanted, which])
            ]
        }),
{
    let wanted = match limit {
        Some(n) => decimal(n as nat),
        None => "all"@,
    };
    let which = if live_only {
        "live"@
    } else {
        "inventory"@
    };
    assert(crate::native::probe_words(probe@, agent, limit, live_only) =~= seq![
        "python3"@, "-c"@, probe@, agent.name(), wanted, which
    ]);
}

/// The name of a session in tmux begins with the agent, and holds the identifier in digits.
pub proof fn names_in_tmux_tell_the_agent(agent: AgentKind, native: &str, r: String)
    requires
        call_ensures(deterministic_tmux_name, (agent, native), r),
    ensures
        agent is Pi ==> starts_text(r@, "rc-pi-"@),
        agent is Hermes ==> starts_text(r@, "rc-hermes-"@),
        agent is Agy ==> starts_text(r@, "rc-agy-"@),
{
    reveal_strlit("rc-");
    reveal_strlit("-");
    reveal_strlit("pi");
    reveal_strlit("hermes");
    reveal_strlit("agy");
    reveal_strlit("rc-pi-");
    reveal_strlit("rc-hermes-");
    reveal_strlit("rc-agy-");
    if agent is Pi {
        assert(r@.subrange(0, 6) =~= "rc-pi-"@);
    }
    if agent is Hermes {
        assert(r@.subrange(0, 10) =~= "rc-hermes-"@);
    }
    if agent is Agy {
        assert(r@.subrange(0, 7) =~= "rc-agy-"@);
    }
}

// ---- requests ----

/// A thread is asked for by its identifier, with its turns, under the number of the request.
pub proof fn a_thread_is_asked_for_with_its_turns(id: u64, thread: &str, r: String)
    requires
        call_ensures(read_request, (id, thread), r),
    ensures
        r@ == "{\"id\":"@ + decimal(id as nat) + ",\"jsonrpc\":\"2.0\",\"method\":\""@
            + "thread/read"@ + "\",\"params\":"@ + ("{\"includeTurns\":true,\"threadId\":"@
            + json_quoted(thread@) + "}"@) + "}"@,
{
}

/// The threads are listed from where the last page ended, as many as are wanted, the latest
/// first, and without those that are archived.
pub proof fn the_latest_threads_are_listed_first(id: u64, page: &PageRequest, r: String)
    requires
        call_ensures(list_request, (id, page), r),
    ensures
        ({
            let cursor = match page.cursor {
                Some(cursor) => json_quoted(cursor@),
                None => "null"@,
            };
            let wanted = "{\"archived\":false,\"cursor\":"@ + cursor + ",\"limit\":"@ + decimal(
                page.size as nat,
            )
                + ",\"sortDirection\":\"desc\",\"sortKey\":\"recency_at\",\"sourceKinds\":[\"cli\",\"vscode\",\"exec\",\"appServer\",\"unknown\"],\"useStateDbOnly\":true}"@;
            r@ == "{\"id\":"@ + decimal(id as nat) + ",\"jsonrpc\":\"2.0\",\"method\":\""@
                + "thread/list"@ + "\",\"params\":"@ + wanted + "}"@
        }),
{
}

// ---- pages ----

/// The next page is asked for from where the last one ended, until the last one came or as many
/// threads as were wanted are listed; a page is of a hundred threads at most.
pub proof fn pages_are_asked_for_in_turn(listing: &ThreadListing, r: Option<PageRequest>)
    requires
        call_ensures(ThreadListing::next, (listing,), r),
    ensures
        ({
            let listed = listing.sessions@.len();
            let left = listing.limit is None || listed < listing.limit->0;
            &&& r is Some <==> !listing.ended && left
            &&& r matches Some(page) ==> {
                &&& listing.cursor is Some <==> page.cursor is Some
                &&& listing.cursor is Some ==> page.cursor->0@ == listing.cursor->0@
                &&& listing.limit is None ==> page.size == 100
                &&& listing.limit matches Some(limit) ==> page.size == (if limit - listed < 100 {
                    limit - listed
                } else {
                    100
                })
            }
        }),
{
}

/// A page that came adds its threads behind those before it, and ends the listing where it
/// names no place to go on from.
pub proof fn a_page_adds_its_threads(
    listing: &mut ThreadListing,
    threads: Vec<RawThread>,
    cursor: Option<String>,
    i: int,
)
    requires
        call_ensures(ThreadListing::answered, (listing, threads, cursor), ()),
    ensures
        final(listing).sessions@.len() == old(listing).sessions@.len() + threads@.len(),
        final(listing).ended <==> cursor is None,
        final(listing).cursor == cursor,
        final(listing).limit == old(listing).limit,
        0 <= i < old(listing).sessions@.len() ==> final(listing).sessions@[i].view() == old(
            listing,
        ).sessions@[i].view(),
        0 <= i < threads@.len() ==> final(listing).sessions@[old(listing).sessions@.len()
            + i].native_session_id@ == threads@[i].id@,
{
    let before = crate::domain::session_views(old(listing).sessions@);
    let after = crate::domain::session_views(final(listing).sessions@);
    assert(before.len() == old(listing).sessions@.len());
    assert(after.len() == final(listing).sessions@.len());
    if 0 <= i < before.len() {
        assert(after[i] == before[i]);
    }
    if 0 <= i < threads@.len() {
        let at = before.len() + i;
        assert(after[at] == final(listing).sessions@[at].view());
    }
}

} // verus!
