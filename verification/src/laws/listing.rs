//! What the lists on the command line say, and in what order.

use vstd::prelude::*;

use crate::cli::{
    activity_label, format_age, history_lines, host_lines, list_limit, render_target,
    resolution_warnings, resolve_command, runtime_label, session_lines, tmux_lines, truncate,
    Command,
};
use crate::domain::{
    is_stable_id, merge_observed_activity, same_binding, stable_id_text, Activity, AgentKind,
    RuntimeOwner, Session, SessionKey, TmuxBinding,
};
use crate::hosts::SshHost;
use crate::laws::search::lemma_joined_contains;
use crate::order::{ranked_contains, ranked_is_in_order, ranked_is_permutation};
use crate::recency::{limited, sort_newest_first, sort_recent_first, NewestFirst, RecentFirst};
use crate::store::HistoryEntry;
use crate::table::{fitted, row_line, Fit};
use crate::text::{
    contains_text, decimal, occurs_at, text_lt, text_lt_irreflexive, text_lt_transitive, texts,
};
use crate::tmux::TmuxSession;

verus! {

// ---- words ----

/// An age is told in the largest unit of which at least one has passed: seconds, minutes, hours
/// or days; what lies ahead is no time ago.
pub proof fn an_age_is_told_in_its_largest_unit(timestamp: u64, now: u64, r: String, n: nat)
    requires
        call_ensures(format_age, (timestamp, now), r),
    ensures
        timestamp >= now ==> r@ == decimal(0) + "s ago"@,
        now == timestamp + n && n < 60 ==> r@ == decimal(n) + "s ago"@,
        60 * n <= now - timestamp < 60 * (n + 1) && 1 <= n < 60 ==> r@ == decimal(n) + "m ago"@,
        3_600 * n <= now - timestamp < 3_600 * (n + 1) && 1 <= n < 24 ==> r@ == decimal(n)
            + "h ago"@,
        86_400 * n <= now - timestamp < 86_400 * (n + 1) && 1 <= n ==> r@ == decimal(n) + "d ago"@,
{
}

/// Each owner has its word.
pub proof fn owners_have_their_words(runtime: RuntimeOwner, r: &'static str)
    requires
        call_ensures(runtime_label, (runtime,), r),
    ensures
        runtime is Resumable ==> r@ == "resumable"@,
        runtime is SharedBackend ==> r@ == "backend"@,
        runtime is ExternalFrontend ==> r@ == "external"@,
        runtime is TmuxFrontend ==> r@ == "tmux"@,
{
}

/// Each activity has its word.
pub proof fn activities_have_their_words(activity: Activity, r: &'static str)
    requires
        call_ensures(activity_label, (activity,), r),
    ensures
        activity is Working ==> r@ == "working"@,
        activity is WaitingApproval ==> r@ == "approval"@,
        activity is WaitingInput ==> r@ == "input"@,
        activity is Completed ==> r@ == "completed"@,
        activity is Failed ==> r@ == "failed"@,
        activity is Unknown ==> r@ == "unknown"@,
{
}

/// A text that is cut keeps its beginning and says by an ellipsis that there was more; one that
/// is short enough stays.
pub proof fn a_cut_text_keeps_its_beginning(value: &str, most: usize, r: String, i: int)
    requires
        call_ensures(truncate, (value, most), r),
    ensures
        value@.len() <= most ==> r@ == value@,
        value@.len() > most ==> r@.len() == most + 1 && r@.last() == '\u{2026}' && (0 <= i < most
            ==> r@[i] == value@[i]),
{
}

/// Each agent is known by its name, and no other text names one.
pub proof fn agents_are_known_by_their_names(value: &str, r: Option<AgentKind>)
    requires
        call_ensures(AgentKind::parse, (value,), r),
    ensures
        r == Some(AgentKind::Codex) <==> value@ == "codex"@,
        r == Some(AgentKind::Omp) <==> value@ == "omp"@,
        r == Some(AgentKind::Pi) <==> value@ == "pi"@,
        r == Some(AgentKind::Hermes) <==> value@ == "hermes"@,
        r == Some(AgentKind::Agy) <==> value@ == "agy"@,
{
    crate::domain::agent_names_are_distinct(AgentKind::Codex, AgentKind::Codex);
    let named = AgentKind::Codex.name() == "codex"@ && AgentKind::Omp.name() == "omp"@
        && AgentKind::Pi.name() == "pi"@ && AgentKind::Hermes.name() == "hermes"@
        && AgentKind::Agy.name() == "agy"@;
    assert(named);
    if let Some(agent) = r {
        crate::domain::agent_names_are_distinct(agent, AgentKind::Codex);
        crate::domain::agent_names_are_distinct(agent, AgentKind::Omp);
        crate::domain::agent_names_are_distinct(agent, AgentKind::Pi);
        crate::domain::agent_names_are_distinct(agent, AgentKind::Hermes);
        crate::domain::agent_names_are_distinct(agent, AgentKind::Agy);
    }
}

/// An identifier holds the host, the name of the agent and the identifier that the agent gave,
/// with colons between them.
pub proof fn an_identifier_holds_its_parts(host: Seq<char>, native: Seq<char>)
    requires
        host.len() > 0,
        !host.contains(':'),
        native.len() > 0,
    ensures
        is_stable_id(host + ":codex:"@ + native, host, AgentKind::Codex, native),
        is_stable_id(host + ":omp:"@ + native, host, AgentKind::Omp, native),
        is_stable_id(host + ":pi:"@ + native, host, AgentKind::Pi, native),
        is_stable_id(host + ":hermes:"@ + native, host, AgentKind::Hermes, native),
        is_stable_id(host + ":agy:"@ + native, host, AgentKind::Agy, native),
{
    reveal_strlit(":codex:");
    reveal_strlit("codex");
    reveal_strlit(":omp:");
    reveal_strlit("omp");
    reveal_strlit(":pi:");
    reveal_strlit("pi");
    reveal_strlit(":hermes:");
    reveal_strlit("hermes");
    reveal_strlit(":agy:");
    reveal_strlit("agy");
    assert(host + ":codex:"@ + native =~= stable_id_text(host, AgentKind::Codex, native));
    assert(host + ":omp:"@ + native =~= stable_id_text(host, AgentKind::Omp, native));
    assert(host + ":pi:"@ + native =~= stable_id_text(host, AgentKind::Pi, native));
    assert(host + ":hermes:"@ + native =~= stable_id_text(host, AgentKind::Hermes, native));
    assert(host + ":agy:"@ + native =~= stable_id_text(host, AgentKind::Agy, native));
}

/// What is read from an identifier is what it holds: the host up to the first colon, and behind
/// the second what the agent gave.
pub proof fn an_identifier_is_read_as_it_was_written(value: &str, r: Option<SessionKey>)
    requires
        call_ensures(SessionKey::parse, (value,), r),
    ensures
        r matches Some(key) ==> {
            &&& key.host@.len() > 0 && !key.host@.contains(':')
            &&& key.native_session_id@.len() > 0
            &&& key.agent is Codex ==> value@ == key.host@ + ":codex:"@ + key.native_session_id@
            &&& key.agent is Omp ==> value@ == key.host@ + ":omp:"@ + key.native_session_id@
            &&& key.agent is Pi ==> value@ == key.host@ + ":pi:"@ + key.native_session_id@
            &&& key.agent is Hermes ==> value@ == key.host@ + ":hermes:"@ + key.native_session_id@
            &&& key.agent is Agy ==> value@ == key.host@ + ":agy:"@ + key.native_session_id@
        },
{
    if let Some(key) = r {
        an_identifier_holds_its_parts(key.host@, key.native_session_id@);
    }
}

/// What was observed of a session counts, but that a session that waits for the user is not
/// taken for a working one.
pub proof fn an_observed_activity_counts(current: Activity, observed: Activity, r: Activity)
    requires
        call_ensures(merge_observed_activity, (current, observed), r),
    ensures
        ({
            let waits = current is WaitingApproval || current is WaitingInput;
            &&& observed is Completed ==> r is Completed
            &&& observed is Working && !waits ==> r is Working
            &&& observed is Working && waits ==> r == current
            &&& !(observed is Completed || observed is Working) ==> r == current
        }),
{
}

/// Two bindings are the same where both name one session and one pane, or where there is none.
pub proof fn bindings_are_the_same_pane(
    a: &Option<TmuxBinding>,
    b: &Option<TmuxBinding>,
    r: bool,
)
    requires
        call_ensures(same_binding, (a, b), r),
    ensures
        a is None && b is None ==> r,
        a is Some != b is Some ==> !r,
        a is Some && b is Some ==> (r <==> a->0.session@ == b->0.session@ && a->0.pane@
            == b->0.pane@),
{
}

// ---- commands ----

/// Without a command, a person at a terminal gets the picker of all hosts; a program gets the
/// list of this one. A command that was given is kept.
pub proof fn the_picker_is_for_people(
    command: Option<Command>,
    json: bool,
    terminal: bool,
    r: Command,
)
    requires
        call_ensures(resolve_command, (command, json, terminal), r),
    ensures
        command is Some ==> r == command->0,
        command is None && terminal && !json ==> (r matches Command::Pick { host, limit } && host@
            == "all"@ && limit == 50),
        command is None && (!terminal || json) ==> (r matches Command::List { host, limit, all }
            && host@ == "local"@ && limit is None && !all),
{
}

/// A list holds as many sessions as were asked for, fifty where nothing was said, and all where
/// all were asked for.
pub proof fn a_list_is_limited_unless_all_is_asked(limit: Option<usize>, all: bool, r: Option<usize>)
    requires
        call_ensures(list_limit, (limit, all), r),
    ensures
        all ==> r is None,
        !all && limit is Some ==> r == limit,
        !all && limit is None ==> r == Some(50usize),
{
}

// ---- order ----

/// What was used last stands first, and of what was used at one time what changed last; nothing
/// is lost and nothing is added.
pub proof fn recent_sessions_stand_first(sessions: Vec<Session>, r: Vec<Session>, session: Session)
    requires
        call_ensures(sort_recent_first, (sessions,), r),
    ensures
        r@.len() == sessions@.len(),
        r@.contains(session) <==> sessions@.contains(session),
        forall|i: int, j: int|
            0 <= i < j < r@.len() ==> {
                let a = #[trigger] r@[i];
                let b = #[trigger] r@[j];
                &&& a.last_interaction_unix_seconds >= b.last_interaction_unix_seconds
                &&& a.last_interaction_unix_seconds == b.last_interaction_unix_seconds
                    ==> a.updated_unix_seconds >= b.updated_unix_seconds
            },
{
    let wrap = |session: Session| RecentFirst { session };
    let wrapped = sessions@.map_values(wrap);
    let out = crate::order::ranked(wrapped);
    ranked_is_permutation(wrapped);
    ranked_is_in_order(wrapped);
    ranked_contains(wrapped, RecentFirst { session });
    assert(r@ == out.map_values(|by: RecentFirst| by.session));
    if r@.contains(session) {
        let k = choose|k: int| 0 <= k < r@.len() && r@[k] == session;
        assert(out[k] == RecentFirst { session });
        assert(out.contains(RecentFirst { session }));
        let m = choose|m: int| 0 <= m < wrapped.len() && wrapped[m] == RecentFirst { session };
        assert(sessions@[m] == session);
    }
    if sessions@.contains(session) {
        let m = choose|m: int| 0 <= m < sessions@.len() && sessions@[m] == session;
        assert(wrapped[m] == RecentFirst { session });
        let k = choose|k: int| 0 <= k < out.len() && out[k] == RecentFirst { session };
        assert(r@[k] == session);
    }
    assert forall|i: int, j: int| 0 <= i < j < r@.len() implies {
        let a = #[trigger] r@[i];
        let b = #[trigger] r@[j];
        &&& a.last_interaction_unix_seconds >= b.last_interaction_unix_seconds
        &&& a.last_interaction_unix_seconds == b.last_interaction_unix_seconds
            ==> a.updated_unix_seconds >= b.updated_unix_seconds
    } by {
        assert(crate::order::Ranked::at_most(out[i], out[j]));
        assert(r@[i] == out[i].session && r@[j] == out[j].session);
    }
}

/// What was used last stands first, then what changed last, then the smaller identifier.
pub proof fn new_sessions_stand_first(sessions: Vec<Session>, r: Vec<Session>, i: int, j: int)
    requires
        call_ensures(sort_newest_first, (sessions,), r),
        0 <= i < j < r@.len(),
    ensures
        ({
            let a = r@[i];
            let b = r@[j];
            let used_at_once = a.last_interaction_unix_seconds == b.last_interaction_unix_seconds;
            let changed_at_once = a.updated_unix_seconds == b.updated_unix_seconds;
            &&& a.last_interaction_unix_seconds >= b.last_interaction_unix_seconds
            &&& used_at_once ==> a.updated_unix_seconds >= b.updated_unix_seconds
            &&& used_at_once && changed_at_once ==> !text_lt(b.id@, a.id@)
        }),
{
    let wrapped = sessions@.map_values(|session: Session| NewestFirst { session });
    let out = crate::order::ranked(wrapped);
    ranked_is_in_order(wrapped);
    assert(r@ == out.map_values(|by: NewestFirst| by.session));
    assert(crate::order::Ranked::at_most(out[i], out[j]));
    assert(r@[i] == out[i].session && r@[j] == out[j].session);
    text_lt_irreflexive(r@[i].id@);
    if text_lt(r@[i].id@, r@[j].id@) && text_lt(r@[j].id@, r@[i].id@) {
        text_lt_transitive(r@[i].id@, r@[j].id@, r@[i].id@);
    }
}

/// A limit keeps the first sessions, as many as it says, and without one all are kept.
pub proof fn a_limit_keeps_the_first(sessions: Seq<Session>, limit: Option<usize>, i: int)
    ensures
        limit is None ==> limited(sessions, limit) == sessions,
        limit is Some ==> limited(sessions, limit).len() == (if sessions.len() < limit->0 {
            sessions.len() as int
        } else {
            limit->0 as int
        }),
        0 <= i < limited(sessions, limit).len() ==> limited(sessions, limit)[i] == sessions[i],
{
}

// ---- tables ----

proof fn lemma_contains_within(hay: Seq<char>, piece: Seq<char>, needle: Seq<char>)
    requires
        contains_text(hay, piece),
        contains_text(piece, needle),
    ensures
        contains_text(hay, needle),
{
    let i = choose|i: int| #[trigger] occurs_at(hay, piece, i);
    let j = choose|j: int| #[trigger] occurs_at(piece, needle, j);
    assert forall|k: int| 0 <= k < needle.len() implies #[trigger] hay.subrange(
        i + j,
        i + j + needle.len(),
    )[k] == needle[k] by {
        assert(piece.subrange(j, j + needle.len())[k] == needle[k]);
        assert(hay.subrange(i, i + piece.len())[j + k] == piece[j + k]);
    }
    assert(hay.subrange(i + j, i + j + needle.len()) =~= needle);
    assert(occurs_at(hay, needle, i + j));
}

proof fn lemma_cell_is_shown(
    cells: Seq<Seq<char>>,
    fits: Seq<Fit>,
    headings: Seq<Seq<char>>,
    rows: Seq<Seq<Seq<char>>>,
    k: int,
)
    requires
        0 <= k < cells.len(),
    ensures
        contains_text(row_line(cells, fits, headings, rows), cells[k]),
{
    let width = crate::table::widest(headings[k], crate::table::column(rows, k));
    let pieces = Seq::new(
        cells.len(),
        |k: int|
            fitted(
                cells[k],
                fits[k],
                crate::table::widest(headings[k], crate::table::column(rows, k)),
            ),
    );
    let piece = pieces[k];
    assert(piece == fitted(cells[k], fits[k], width));
    let from = piece.len() - cells[k].len();
    if fits[k] is Right {
        assert(piece.subrange(from, piece.len() as int) =~= cells[k]);
        assert(occurs_at(piece, cells[k], from));
    } else {
        assert(piece.subrange(0, cells[k].len() as int) =~= cells[k]);
        assert(occurs_at(piece, cells[k], 0));
    }
    lemma_joined_contains(pieces, "  "@, k);
    lemma_contains_within(row_line(cells, fits, headings, rows), piece, cells[k]);
}

/// The list has a line for every session, behind the one with the headings; it shows the host,
/// the owner, the name in tmux or a dash, when the session was last used, and its identifier.
pub proof fn a_session_is_listed_on_its_line(
    host: &str,
    sessions: &Vec<Session>,
    now: u64,
    r: Vec<String>,
    i: int,
    age: String,
    owner: &'static str,
)
    requires
        call_ensures(session_lines, (host, sessions, now), r),
        0 <= i < sessions@.len(),
        call_ensures(format_age, (sessions@[i].last_interaction_unix_seconds, now), age),
        call_ensures(runtime_label, (sessions@[i].runtime,), owner),
    ensures
        ({
            let session = sessions@[i];
            let line = r@[i + 1]@;
            &&& r@.len() == sessions@.len() + 1
            &&& session.title@.len() <= 42 ==> contains_text(line, session.title@)
            &&& contains_text(line, session.host@)
            &&& contains_text(line, owner@)
            &&& session.tmux matches Some(binding) ==> contains_text(line, binding.session@)
            &&& session.tmux is None ==> contains_text(line, "-"@)
            &&& contains_text(line, age@)
            &&& session.cwd@.len() <= 36 ==> contains_text(line, session.cwd@)
            &&& contains_text(line, session.id@)
        }),
{
    let fits = crate::cli::session_fits();
    let headings = crate::cli::session_headings();
    let rows = sessions@.map_values(|session: Session| crate::cli::session_cells(session, now));
    let lines = crate::table::table(fits, headings, rows);
    let cells = crate::cli::session_cells(sessions@[i], now);
    assert(rows[i] == cells);
    assert(texts(r@) == lines);
    assert(texts(r@).len() == r@.len());
    assert(texts(r@)[i + 1] == r@[i + 1]@);
    assert(lines[i + 1] == row_line(cells, fits, headings, rows));
    lemma_cell_is_shown(cells, fits, headings, rows, 0);
    lemma_cell_is_shown(cells, fits, headings, rows, 1);
    lemma_cell_is_shown(cells, fits, headings, rows, 2);
    lemma_cell_is_shown(cells, fits, headings, rows, 3);
    lemma_cell_is_shown(cells, fits, headings, rows, 4);
    lemma_cell_is_shown(cells, fits, headings, rows, 5);
    lemma_cell_is_shown(cells, fits, headings, rows, 6);
}

/// The history has a line for every entry, behind the one with the headings; it shows the host,
/// whether the session is settled, its activity, its owner, when it was last used, and its
/// identifier.
pub proof fn an_entry_is_listed_on_its_line(
    history: &Vec<HistoryEntry>,
    now: u64,
    r: Vec<String>,
    i: int,
    age: String,
    owner: &'static str,
    activity: &'static str,
)
    requires
        call_ensures(history_lines, (history, now), r),
        0 <= i < history@.len(),
        call_ensures(format_age, (history@[i].session.last_interaction_unix_seconds, now), age),
        call_ensures(runtime_label, (history@[i].session.runtime,), owner),
        call_ensures(activity_label, (history@[i].session.activity,), activity),
    ensures
        ({
            let entry = history@[i];
            let line = r@[i + 1]@;
            &&& r@.len() == history@.len() + 1
            &&& entry.session.title@.len() <= 42 ==> contains_text(line, entry.session.title@)
            &&& contains_text(line, entry.session.host@)
            &&& entry.settled ==> contains_text(line, "settled"@)
            &&& !entry.settled ==> contains_text(line, "active"@)
            &&& contains_text(line, activity@)
            &&& contains_text(line, owner@)
            &&& contains_text(line, age@)
            &&& entry.session.cwd@.len() <= 36 ==> contains_text(line, entry.session.cwd@)
            &&& contains_text(line, entry.session.id@)
        }),
{
    let fits = crate::cli::history_fits();
    let headings = crate::cli::history_headings();
    let rows = history@.map_values(|entry: HistoryEntry| crate::cli::history_cells(entry, now));
    let lines = crate::table::table(fits, headings, rows);
    let cells = crate::cli::history_cells(history@[i], now);
    assert(rows[i] == cells);
    assert(texts(r@) == lines);
    assert(texts(r@).len() == r@.len());
    assert(texts(r@)[i + 1] == r@[i + 1]@);
    assert(lines[i + 1] == row_line(cells, fits, headings, rows));
    lemma_cell_is_shown(cells, fits, headings, rows, 0);
    lemma_cell_is_shown(cells, fits, headings, rows, 1);
    lemma_cell_is_shown(cells, fits, headings, rows, 2);
    lemma_cell_is_shown(cells, fits, headings, rows, 3);
    lemma_cell_is_shown(cells, fits, headings, rows, 4);
    lemma_cell_is_shown(cells, fits, headings, rows, 5);
    lemma_cell_is_shown(cells, fits, headings, rows, 6);
    lemma_cell_is_shown(cells, fits, headings, rows, 7);
}

/// The list of tmux has a line for every session, behind the one with the headings; it shows
/// the name, the host, whether a client is attached, how many windows there are, when the
/// session was last active, and its identifier.
pub proof fn a_tmux_session_is_listed_on_its_line(
    host: &str,
    sessions: &Vec<TmuxSession>,
    now: u64,
    r: Vec<String>,
    i: int,
    age: String,
)
    requires
        call_ensures(tmux_lines, (host, sessions, now), r),
        0 <= i < sessions@.len(),
        call_ensures(format_age, (sessions@[i].last_activity_unix_seconds, now), age),
    ensures
        ({
            let session = sessions@[i];
            let line = r@[i + 1]@;
            &&& r@.len() == sessions@.len() + 1
            &&& contains_text(line, session.name@)
            &&& contains_text(line, session.host@)
            &&& session.attached_clients > 0 ==> contains_text(line, "attached"@)
            &&& session.attached_clients == 0 ==> contains_text(line, "detached"@)
            &&& contains_text(line, decimal(session.windows as nat))
            &&& contains_text(line, age@)
            &&& contains_text(line, session.id@)
        }),
{
    let fits = crate::cli::tmux_fits();
    let headings = crate::cli::tmux_headings();
    let rows = sessions@.map_values(|session: TmuxSession| crate::cli::tmux_cells(session, now));
    let lines = crate::table::table(fits, headings, rows);
    let cells = crate::cli::tmux_cells(sessions@[i], now);
    assert(rows[i] == cells);
    assert(texts(r@) == lines);
    assert(texts(r@).len() == r@.len());
    assert(texts(r@)[i + 1] == r@[i + 1]@);
    assert(lines[i + 1] == row_line(cells, fits, headings, rows));
    lemma_cell_is_shown(cells, fits, headings, rows, 0);
    lemma_cell_is_shown(cells, fits, headings, rows, 1);
    lemma_cell_is_shown(cells, fits, headings, rows, 2);
    lemma_cell_is_shown(cells, fits, headings, rows, 3);
    lemma_cell_is_shown(cells, fits, headings, rows, 4);
    lemma_cell_is_shown(cells, fits, headings, rows, 5);
}

/// A host is shown by its user, where it has one, its name and its port.
pub proof fn a_host_is_shown_as_it_is_reached(host: &SshHost, r: String)
    requires
        call_ensures(render_target, (host,), r),
    ensures
        host.user matches Some(user) ==> r@ == user@ + "@"@ + host.hostname@ + ":"@ + decimal(
            host.port as nat,
        ),
        host.user is None ==> r@ == host.hostname@ + ":"@ + decimal(host.port as nat),
{
    if host.user is None {
        assert(Seq::<char>::empty() + host.hostname@ =~= host.hostname@);
    }
}

/// The list of hosts has a line for every host, behind the one with the headings; it shows the
/// alias, how the host is reached, whether it could be resolved, and the file that names it.
pub proof fn a_host_is_listed_on_its_line(
    hosts: &Vec<SshHost>,
    r: Vec<String>,
    i: int,
    target: String,
)
    requires
        call_ensures(host_lines, (hosts,), r),
        0 <= i < hosts@.len(),
        call_ensures(render_target, (&hosts@[i],), target),
    ensures
        ({
            let host = hosts@[i];
            let line = r@[i + 1]@;
            &&& r@.len() == hosts@.len() + 1
            &&& contains_text(line, host.alias@)
            &&& contains_text(line, target@)
            &&& host.resolution_error is Some ==> contains_text(line, "config-error"@)
            &&& host.resolution_error is None ==> contains_text(line, "unknown"@)
            &&& contains_text(line, host.source@)
        }),
{
    let fits = crate::cli::host_fits();
    let headings = crate::cli::host_headings();
    let rows = hosts@.map_values(|host: SshHost| crate::cli::host_cells(host));
    let lines = crate::table::table(fits, headings, rows);
    let cells = crate::cli::host_cells(hosts@[i]);
    assert(rows[i] == cells);
    assert(texts(r@) == lines);
    assert(texts(r@).len() == r@.len());
    assert(texts(r@)[i + 1] == r@[i + 1]@);
    assert(lines[i + 1] == row_line(cells, fits, headings, rows));
    lemma_cell_is_shown(cells, fits, headings, rows, 0);
    lemma_cell_is_shown(cells, fits, headings, rows, 1);
    lemma_cell_is_shown(cells, fits, headings, rows, 2);
    lemma_cell_is_shown(cells, fits, headings, rows, 3);
}

/// Each host that could not be resolved is warned of, with the reason, and no other is.
pub proof fn unresolved_hosts_are_warned_of(
    hosts: &Vec<SshHost>,
    r: Vec<String>,
    warning: Seq<char>,
)
    requires
        call_ensures(resolution_warnings, (hosts,), r),
    ensures
        texts(r@).contains(warning) <==> exists|i: int|
            0 <= i < hosts@.len() && (#[trigger] hosts@[i]).resolution_error is Some && warning
                == "rollcall: could not resolve "@ + hosts@[i].alias@ + ": "@
                + hosts@[i].resolution_error->0@,
{
    lemma_warnings(hosts@, warning);
}

proof fn lemma_warnings(hosts: Seq<SshHost>, warning: Seq<char>)
    ensures
        crate::cli::resolution_warnings_of(hosts).contains(warning) <==> exists|i: int|
            0 <= i < hosts.len() && (#[trigger] hosts[i]).resolution_error is Some && warning
                == "rollcall: could not resolve "@ + hosts[i].alias@ + ": "@
                + hosts[i].resolution_error->0@,
    decreases hosts.len(),
{
    let all = crate::cli::resolution_warnings_of(hosts);
    if hosts.len() > 0 {
        let front = hosts.drop_last();
        let before = crate::cli::resolution_warnings_of(front);
        let last = hosts.len() - 1;
        lemma_warnings(front, warning);
        if all.contains(warning) {
            let k = choose|k: int| 0 <= k < all.len() && all[k] == warning;
            if k < before.len() {
                assert(before[k] == warning);
                let i = choose|i: int|
                    0 <= i < front.len() && (#[trigger] front[i]).resolution_error is Some
                        && warning == "rollcall: could not resolve "@ + front[i].alias@ + ": "@
                        + front[i].resolution_error->0@;
                assert(hosts[i] == front[i]);
            } else {
                assert(hosts[last].resolution_error is Some);
            }
        }
        if exists|i: int|
            0 <= i < hosts.len() && (#[trigger] hosts[i]).resolution_error is Some && warning
                == "rollcall: could not resolve "@ + hosts[i].alias@ + ": "@
                + hosts[i].resolution_error->0@ {
            let i = choose|i: int|
                0 <= i < hosts.len() && (#[trigger] hosts[i]).resolution_error is Some && warning
                    == "rollcall: could not resolve "@ + hosts[i].alias@ + ": "@
                    + hosts[i].resolution_error->0@;
            if i < front.len() {
                assert(front[i] == hosts[i]);
                let k = choose|k: int| 0 <= k < before.len() && before[k] == warning;
                assert(all[k] == warning);
            } else {
                assert(all.last() == warning);
            }
        }
    }
}

} // verus!
