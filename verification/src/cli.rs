//! What the commands of the command line ask for and print.

use vstd::prelude::*;

use crate::domain::{Activity, RuntimeOwner, Session};
use crate::hosts::SshHost;
use crate::store::HistoryEntry;
use crate::table::{render_table, row_texts, table, Fit};
use crate::text::{
    clip, clipped, contains, contains_text, decimal, decimal_of, join_with, joined, lowercase,
    lowercase_all, lowercase_text, lowered, owned, same, texts, trim, trimmed, words, words_of,
};
use crate::tmux::{names_target, parse_target, TmuxSession};

verus! {

/// How many sessions of a host are loaded where nothing else is asked.
pub const DEFAULT_SESSION_LIMIT: usize = 50;

/// What the user asks for.
#[derive(Debug, Eq, PartialEq)]
pub enum Command {
    List { host: String, limit: Option<usize>, all: bool },
    History { host: Option<String>, search: Option<String>, limit: Option<usize> },
    Pick { host: String, limit: usize },
    Popup { host: String, limit: usize },
    Hosts { config: Option<String> },
    Attach { session: String },
    Resume { session: String },
    Tmux { host: String },
    Watch { host: String, limit: usize, once: bool },
}

/// The command that is run: without one, the picker where a person looks on and else the list
/// of the local sessions.
pub fn resolve_command(command: Option<Command>, json: bool, terminal: bool) -> (r: Command)
    ensures
        match command {
            Some(command) => r == command,
            None => if json || !terminal {
                r is List && r->List_host@ == "local"@ && r->List_limit is None && !r->all
            } else {
                r is Pick && r->Pick_host@ == "all"@ && r->Pick_limit == DEFAULT_SESSION_LIMIT
            },
        },
{
    match command {
        Some(command) => command,
        None => if json || !terminal {
            Command::List { host: "local".to_owned(), limit: None, all: false }
        } else {
            Command::Pick { host: "all".to_owned(), limit: DEFAULT_SESSION_LIMIT }
        },
    }
}

/// How many sessions are listed.
pub fn list_limit(limit: Option<usize>, all: bool) -> (r: Option<usize>)
    ensures
        r == (if all {
            None::<usize>
        } else {
            Some(
                match limit {
                    Some(n) => n,
                    None => DEFAULT_SESSION_LIMIT,
                },
            )
        }),
{
    if all {
        None
    } else {
        match limit {
            Some(n) => Some(n),
            None => Some(DEFAULT_SESSION_LIMIT),
        }
    }
}

/// Whether an argument names a session of the multiplexer in place of an agent's.
pub fn is_tmux_target(session: &str) -> (r: bool)
    ensures
        r == exists|host: Seq<char>, name: Seq<char>| #[trigger]
            names_target(session@, host, name),
{
    match parse_target(session) {
        Ok(_target) => true,
        Err(_error) => false,
    }
}

// ---- labels ----

/// The word for the owner of a session.
pub open spec fn runtime_word(runtime: RuntimeOwner) -> Seq<char> {
    match runtime {
        RuntimeOwner::Resumable => "resumable"@,
        RuntimeOwner::SharedBackend => "backend"@,
        RuntimeOwner::ExternalFrontend => "external"@,
        RuntimeOwner::TmuxFrontend => "tmux"@,
    }
}

/// The word for the owner of a session.
pub fn runtime_label(runtime: RuntimeOwner) -> (r: &'static str)
    ensures
        r@ == runtime_word(runtime),
{
    match runtime {
        RuntimeOwner::Resumable => "resumable",
        RuntimeOwner::SharedBackend => "backend",
        RuntimeOwner::ExternalFrontend => "external",
        RuntimeOwner::TmuxFrontend => "tmux",
    }
}

/// The word for what a session does.
pub open spec fn activity_word(activity: Activity) -> Seq<char> {
    match activity {
        Activity::Working => "working"@,
        Activity::WaitingApproval => "approval"@,
        Activity::WaitingInput => "input"@,
        Activity::Completed => "completed"@,
        Activity::Failed => "failed"@,
        Activity::Unknown => "unknown"@,
    }
}

/// The word for what a session does.
pub fn activity_label(activity: Activity) -> (r: &'static str)
    ensures
        r@ == activity_word(activity),
{
    match activity {
        Activity::Working => "working",
        Activity::WaitingApproval => "approval",
        Activity::WaitingInput => "input",
        Activity::Completed => "completed",
        Activity::Failed => "failed",
        Activity::Unknown => "unknown",
    }
}

/// At most so many characters of a value, and an ellipsis where there were more.
pub fn truncate(value: &str, maximum_characters: usize) -> (r: String)
    ensures
        r@ == clipped(value@, maximum_characters as nat),
{
    clip(value, maximum_characters)
}

/// How long ago a moment was, in the largest unit that fits.
pub open spec fn age_text(timestamp: u64, now: u64) -> Seq<char> {
    let seconds: nat = if now < timestamp {
        0
    } else {
        (now - timestamp) as nat
    };
    if seconds < 60 {
        decimal(seconds) + "s ago"@
    } else if seconds < 3_600 {
        decimal(seconds / 60) + "m ago"@
    } else if seconds < 86_400 {
        decimal(seconds / 3_600) + "h ago"@
    } else {
        decimal(seconds / 86_400) + "d ago"@
    }
}

/// How long ago a moment was, in the largest unit that fits.
pub fn format_age(timestamp: u64, now: u64) -> (r: String)
    ensures
        r@ == age_text(timestamp, now),
{
    let seconds: u64 = if now < timestamp { 0 } else { now - timestamp };
    let (n, unit): (u64, &str) = if seconds < 60 {
        (seconds, "s ago")
    } else if seconds < 3_600 {
        (seconds / 60, "m ago")
    } else if seconds < 86_400 {
        (seconds / 3_600, "h ago")
    } else {
        (seconds / 86_400, "d ago")
    };
    let mut r: String = decimal_of(n);
    r.append(unit);
    r
}

// ---- history ----

/// The word for the view that lists a session.
pub open spec fn view_word(settled: bool) -> Seq<char> {
    if settled {
        "settled"@
    } else {
        "active"@
    }
}

/// The text in which a search looks, before letters are made small.
pub open spec fn corpus_text(entry: HistoryEntry) -> Seq<char> {
    joined(
        seq![
            entry.session.title@,
            entry.session.last_message@,
            entry.session.cwd@,
            entry.session.host@,
            entry.session.id@,
            entry.session.native_session_id@,
            activity_word(entry.session.activity),
            runtime_word(entry.session.runtime),
            view_word(entry.settled),
            if entry.unread {
                "unread"@
            } else {
                "read"@
            },
            match entry.settle_reason {
                Some(reason) => reason@,
                None => Seq::empty(),
            },
        ],
        "\n"@,
    )
}

fn corpus_of(entry: &HistoryEntry) -> (r: String)
    ensures
        r@ == corpus_text(*entry),
{
    let reason: &str = match &entry.settle_reason {
        Some(reason) => reason.as_str(),
        None => "",
    };
    let pieces: Vec<String> = owned(
        [
            entry.session.title.as_str(),
            entry.session.last_message.as_str(),
            entry.session.cwd.as_str(),
            entry.session.host.as_str(),
            entry.session.id.as_str(),
            entry.session.native_session_id.as_str(),
            activity_label(entry.session.activity),
            runtime_label(entry.session.runtime),
            if entry.settled { "settled" } else { "active" },
            if entry.unread { "unread" } else { "read" },
            reason,
        ],
    );
    proof {
        reveal_strlit("");
        assert(reason@ =~= match entry.settle_reason {
            Some(reason) => reason@,
            None => Seq::empty(),
        });
        assert(texts(pieces@) =~= seq![
            entry.session.title@,
            entry.session.last_message@,
            entry.session.cwd@,
            entry.session.host@,
            entry.session.id@,
            entry.session.native_session_id@,
            activity_word(entry.session.activity),
            runtime_word(entry.session.runtime),
            view_word(entry.settled),
            if entry.unread {
                "unread"@
            } else {
                "read"@
            },
            match entry.settle_reason {
                Some(reason) => reason@,
                None => Seq::empty(),
            },
        ]);
    }
    join_with(&pieces, "\n")
}

/// Whether each of the terms occurs in the corpus.
pub open spec fn has_terms(corpus: Seq<char>, terms: Seq<Seq<char>>) -> bool {
    forall|i: int| 0 <= i < terms.len() ==> contains_text(corpus, #[trigger] terms[i])
}

/// Whether each of the terms occurs in the corpus.
pub fn has_every_term(corpus: &str, terms: &Vec<String>) -> (r: bool)
    ensures
        r == has_terms(corpus@, texts(terms@)),
{
    let ghost views = texts(terms@);
    let mut i: usize = 0;
    while i < terms.len()
        invariant
            i <= terms@.len(),
            views == texts(terms@),
            forall|j: int| 0 <= j < i ==> contains_text(corpus@, #[trigger] views[j]),
        decreases terms@.len() - i,
    {
        if !contains(corpus, terms[i].as_str()) {
            assert(!contains_text(corpus@, views[i as int]));
            return false;
        }
        assert(views[i as int] == terms@[i as int]@);
        i += 1;
    }
    true
}

/// The words of a search in small letters.
pub fn search_terms(search: &str) -> (r: Vec<String>)
    ensures
        texts(r@) == lowered(words_of(search@)),
{
    lowercase_all(&words(search))
}

/// Optional text.
pub open spec fn optional_text(value: Option<&str>) -> Option<Seq<char>> {
    match value {
        Some(value) => Some(value@),
        None => None,
    }
}

/// Whether the history lists a session: it is on the host asked for, and every word of the
/// search occurs in what is known of it, in small or capital letters.
pub open spec fn is_listed(
    entry: HistoryEntry,
    host: Option<Seq<char>>,
    search: Option<Seq<char>>,
) -> bool {
    &&& match host {
        Some(host) => entry.session.host@ == host,
        None => true,
    }
    &&& match search {
        Some(search) => trimmed(search).len() == 0 || has_terms(
            lowercase_text(corpus_text(entry)),
            lowered(words_of(search)),
        ),
        None => true,
    }
}

/// Whether the history lists a session.
pub fn history_matches(entry: &HistoryEntry, host: Option<&str>, search: Option<&str>) -> (r: bool)
    ensures
        r == is_listed(*entry, optional_text(host), optional_text(search)),
{
    if let Some(host) = host {
        if !same(entry.session.host.as_str(), host) {
            return false;
        }
    }
    match search {
        None => true,
        Some(search) => {
            if trim(search).as_str().is_empty() {
                return true;
            }
            let corpus: String = lowercase(corpus_of(entry).as_str());
            let terms: Vec<String> = search_terms(search);
            has_every_term(corpus.as_str(), &terms)
        },
    }
}

/// The sessions that the history lists, at most as many as the limit.
pub open spec fn selected(
    history: Seq<HistoryEntry>,
    host: Option<Seq<char>>,
    search: Option<Seq<char>>,
    limit: Option<usize>,
) -> Seq<HistoryEntry> {
    let all = history.filter(|entry: HistoryEntry| is_listed(entry, host, search));
    match limit {
        Some(n) => if n < all.len() {
            all.take(n as int)
        } else {
            all
        },
        None => all,
    }
}

/// The sessions that the history lists, in their order, at most as many as the limit.
pub fn select_history(
    history: Vec<HistoryEntry>,
    host: Option<&str>,
    search: Option<&str>,
    limit: Option<usize>,
) -> (r: Vec<HistoryEntry>)
    ensures
        r@ == selected(history@, optional_text(host), optional_text(search), limit),
{
    let ghost all = history@;
    let ghost listed = |entry: HistoryEntry|
        is_listed(entry, optional_text(host), optional_text(search));
    let mut r: Vec<HistoryEntry> = Vec::new();
    proof {
        reveal(Seq::filter);
        assert(all.take(0).filter(listed) =~= Seq::<HistoryEntry>::empty());
    }
    for entry in it: history
        invariant
            it.seq() == all,
            listed == (|entry: HistoryEntry|
                is_listed(entry, optional_text(host), optional_text(search))),
            r@ == all.take(it.index()).filter(listed),
    {
        proof {
            assert(all.take(it.index() + 1) =~= all.take(it.index()).push(entry));
            all.take(it.index()).lemma_filter_push(entry, listed);
        }
        if history_matches(&entry, host, search) {
            r.push(entry);
        }
    }
    assert(all.take(all.len() as int) =~= all);
    if let Some(n) = limit {
        if r.len() > n {
            r.truncate(n);
        }
    }
    r
}

// ---- tables ----

/// The columns of the list of sessions.
pub open spec fn session_fits() -> Seq<Fit> {
    seq![
        Fit::Widest,
        Fit::Widest,
        Fit::Left(9),
        Fit::Widest,
        Fit::Right(16),
        Fit::Widest,
        Fit::Ragged,
    ]
}

/// The headings of the list of sessions.
pub open spec fn session_headings() -> Seq<Seq<char>> {
    seq!["TITLE"@, "HOST"@, "STATE"@, "TMUX"@, "LAST INTERACTION"@, "CWD"@, "ID"@]
}

/// A session in the list.
pub open spec fn session_cells(session: Session, now: u64) -> Seq<Seq<char>> {
    seq![
        clipped(session.title@, 42),
        session.host@,
        runtime_word(session.runtime),
        match session.tmux {
            Some(binding) => binding.session@,
            None => "-"@,
        },
        age_text(session.last_interaction_unix_seconds, now),
        clipped(session.cwd@, 36),
        session.id@,
    ]
}

/// The list of a host's sessions.
pub fn session_lines(host: &str, sessions: &Vec<Session>, now: u64) -> (r: Vec<String>)
    ensures
        texts(r@) == (if sessions@.len() == 0 {
            seq!["No resumable coding-agent sessions were found on "@ + host@ + "."@]
        } else {
            table(
                session_fits(),
                session_headings(),
                sessions@.map_values(|session: Session| session_cells(session, now)),
            )
        }),
{
    if sessions.len() == 0 {
        let mut line: String = "No resumable coding-agent sessions were found on ".to_owned();
        line.append(host);
        line.append(".");
        let mut r: Vec<String> = Vec::new();
        r.push(line);
        assert(texts(r@) =~= seq![
            "No resumable coding-agent sessions were found on "@ + host@ + "."@,
        ]);
        return r;
    }
    let fits: Vec<Fit> = vec![
        Fit::Widest,
        Fit::Widest,
        Fit::Left(9),
        Fit::Widest,
        Fit::Right(16),
        Fit::Widest,
        Fit::Ragged,
    ];
    let headings: Vec<String> = owned(
        ["TITLE", "HOST", "STATE", "TMUX", "LAST INTERACTION", "CWD", "ID"],
    );
    let mut rows: Vec<Vec<String>> = Vec::new();
    let mut i: usize = 0;
    while i < sessions.len()
        invariant
            i <= sessions@.len(),
            rows@.len() == i,
            forall|j: int|
                0 <= j < i ==> texts((#[trigger] rows@[j])@) == session_cells(sessions@[j], now),
        decreases sessions@.len() - i,
    {
        let session: &Session = &sessions[i];
        let tmux: &str = match &session.tmux {
            Some(binding) => binding.session.as_str(),
            None => "-",
        };
        let row: Vec<String> = owned(
            [
                truncate(session.title.as_str(), 42).as_str(),
                session.host.as_str(),
                runtime_label(session.runtime),
                tmux,
                format_age(session.last_interaction_unix_seconds, now).as_str(),
                truncate(session.cwd.as_str(), 36).as_str(),
                session.id.as_str(),
            ],
        );
        assert(texts(row@) =~= session_cells(*session, now));
        rows.push(row);
        i += 1;
    }
    proof {
        assert(fits@ =~= session_fits());
        assert(texts(headings@) =~= session_headings());
        assert(headings@.len() == texts(headings@).len());
        assert forall|j: int| 0 <= j < rows@.len() implies (#[trigger] rows@[j])@.len()
            == headings@.len() by {
            assert(texts(rows@[j]@).len() == 7);
        }
        assert(row_texts(rows@) =~= sessions@.map_values(
            |session: Session| session_cells(session, now),
        ));
    }
    render_table(&fits, &headings, &rows)
}

/// The columns of the history.
pub open spec fn history_fits() -> Seq<Fit> {
    seq![
        Fit::Widest,
        Fit::Widest,
        Fit::Left(7),
        Fit::Left(9),
        Fit::Left(9),
        Fit::Right(16),
        Fit::Widest,
        Fit::Ragged,
    ]
}

/// The headings of the history.
pub open spec fn history_headings() -> Seq<Seq<char>> {
    seq![
        "TITLE"@,
        "HOST"@,
        "VIEW"@,
        "STATUS"@,
        "OWNER"@,
        "LAST INTERACTION"@,
        "CWD"@,
        "ID"@,
    ]
}

/// A session in the history.
pub open spec fn history_cells(entry: HistoryEntry, now: u64) -> Seq<Seq<char>> {
    seq![
        clipped(entry.session.title@, 42),
        entry.session.host@,
        view_word(entry.settled),
        activity_word(entry.session.activity),
        runtime_word(entry.session.runtime),
        age_text(entry.session.last_interaction_unix_seconds, now),
        clipped(entry.session.cwd@, 36),
        entry.session.id@,
    ]
}

/// The history as it is printed.
pub fn history_lines(history: &Vec<HistoryEntry>, now: u64) -> (r: Vec<String>)
    ensures
        texts(r@) == (if history@.len() == 0 {
            seq!["No cached sessions matched the history query."@]
        } else {
            table(
                history_fits(),
                history_headings(),
                history@.map_values(|entry: HistoryEntry| history_cells(entry, now)),
            )
        }),
{
    if history.len() == 0 {
        let r: Vec<String> = owned(["No cached sessions matched the history query."]);
        assert(texts(r@) =~= seq!["No cached sessions matched the history query."@]);
        return r;
    }
    let fits: Vec<Fit> = vec![
        Fit::Widest,
        Fit::Widest,
        Fit::Left(7),
        Fit::Left(9),
        Fit::Left(9),
        Fit::Right(16),
        Fit::Widest,
        Fit::Ragged,
    ];
    let headings: Vec<String> = owned(
        ["TITLE", "HOST", "VIEW", "STATUS", "OWNER", "LAST INTERACTION", "CWD", "ID"],
    );
    let mut rows: Vec<Vec<String>> = Vec::new();
    let mut i: usize = 0;
    while i < history.len()
        invariant
            i <= history@.len(),
            rows@.len() == i,
            forall|j: int|
                0 <= j < i ==> texts((#[trigger] rows@[j])@) == history_cells(history@[j], now),
        decreases history@.len() - i,
    {
        let entry: &HistoryEntry = &history[i];
        let row: Vec<String> = owned(
            [
                truncate(entry.session.title.as_str(), 42).as_str(),
                entry.session.host.as_str(),
                if entry.settled { "settled" } else { "active" },
                activity_label(entry.session.activity),
                runtime_label(entry.session.runtime),
                format_age(entry.session.last_interaction_unix_seconds, now).as_str(),
                truncate(entry.session.cwd.as_str(), 36).as_str(),
                entry.session.id.as_str(),
            ],
        );
        assert(texts(row@) =~= history_cells(*entry, now));
        rows.push(row);
        i += 1;
    }
    proof {
        assert(fits@ =~= history_fits());
        assert(texts(headings@) =~= history_headings());
        assert(headings@.len() == texts(headings@).len());
        assert forall|j: int| 0 <= j < rows@.len() implies (#[trigger] rows@[j])@.len()
            == headings@.len() by {
            assert(texts(rows@[j]@).len() == 8);
        }
        assert(row_texts(rows@) =~= history@.map_values(
            |entry: HistoryEntry| history_cells(entry, now),
        ));
    }
    render_table(&fits, &headings, &rows)
}

/// The columns of the list of the multiplexer's sessions.
pub open spec fn tmux_fits() -> Seq<Fit> {
    seq![
        Fit::Widest,
        Fit::Widest,
        Fit::Left(9),
        Fit::Right(7),
        Fit::Right(12),
        Fit::Ragged,
    ]
}

/// The headings of the list of the multiplexer's sessions.
pub open spec fn tmux_headings() -> Seq<Seq<char>> {
    seq!["SESSION"@, "HOST"@, "STATE"@, "WINDOWS"@, "LAST ACTIVE"@, "ID"@]
}

/// A session of the multiplexer in the list.
pub open spec fn tmux_cells(session: TmuxSession, now: u64) -> Seq<Seq<char>> {
    seq![
        session.name@,
        session.host@,
        if session.attached_clients > 0 {
            "attached"@
        } else {
            "detached"@
        },
        decimal(session.windows as nat),
        age_text(session.last_activity_unix_seconds, now),
        session.id@,
    ]
}

/// The list of a host's sessions of the multiplexer.
pub fn tmux_lines(host: &str, sessions: &Vec<TmuxSession>, now: u64) -> (r: Vec<String>)
    ensures
        texts(r@) == (if sessions@.len() == 0 {
            seq!["No matching tmux sessions were found on "@ + host@ + "."@]
        } else {
            table(
                tmux_fits(),
                tmux_headings(),
                sessions@.map_values(|session: TmuxSession| tmux_cells(session, now)),
            )
        }),
{
    if sessions.len() == 0 {
        let mut line: String = "No matching tmux sessions were found on ".to_owned();
        line.append(host);
        line.append(".");
        let mut r: Vec<String> = Vec::new();
        r.push(line);
        assert(texts(r@) =~= seq!["No matching tmux sessions were found on "@ + host@ + "."@]);
        return r;
    }
    let fits: Vec<Fit> = vec![
        Fit::Widest,
        Fit::Widest,
        Fit::Left(9),
        Fit::Right(7),
        Fit::Right(12),
        Fit::Ragged,
    ];
    let headings: Vec<String> = owned(
        ["SESSION", "HOST", "STATE", "WINDOWS", "LAST ACTIVE", "ID"],
    );
    let mut rows: Vec<Vec<String>> = Vec::new();
    let mut i: usize = 0;
    while i < sessions.len()
        invariant
            i <= sessions@.len(),
            rows@.len() == i,
            forall|j: int|
                0 <= j < i ==> texts((#[trigger] rows@[j])@) == tmux_cells(sessions@[j], now),
        decreases sessions@.len() - i,
    {
        let session: &TmuxSession = &sessions[i];
        let row: Vec<String> = owned(
            [
                session.name.as_str(),
                session.host.as_str(),
                if session.attached_clients > 0 { "attached" } else { "detached" },
                decimal_of(session.windows as u64).as_str(),
                format_age(session.last_activity_unix_seconds, now).as_str(),
                session.id.as_str(),
            ],
        );
        assert(texts(row@) =~= tmux_cells(*session, now));
        rows.push(row);
        i += 1;
    }
    proof {
        assert(fits@ =~= tmux_fits());
        assert(texts(headings@) =~= tmux_headings());
        assert(headings@.len() == texts(headings@).len());
        assert forall|j: int| 0 <= j < rows@.len() implies (#[trigger] rows@[j])@.len()
            == headings@.len() by {
            assert(texts(rows@[j]@).len() == 6);
        }
        assert(row_texts(rows@) =~= sessions@.map_values(
            |session: TmuxSession| tmux_cells(session, now),
        ));
    }
    render_table(&fits, &headings, &rows)
}

/// Where a host is reached: `USER@HOSTNAME:PORT`.
pub open spec fn target_text(host: SshHost) -> Seq<char> {
    (match host.user {
        Some(user) => user@ + "@"@,
        None => Seq::empty(),
    }) + host.hostname@ + ":"@ + decimal(host.port as nat)
}

/// Where a host is reached: `USER@HOSTNAME:PORT`.
pub fn render_target(host: &SshHost) -> (r: String)
    ensures
        r@ == target_text(*host),
{
    let mut r: String = String::new();
    if let Some(user) = &host.user {
        r.append(user.as_str());
        r.append("@");
        assert(r@ =~= user@ + "@"@);
    }
    r.append(host.hostname.as_str());
    r.append(":");
    r.append(decimal_of(host.port as u64).as_str());
    r
}

/// The columns of the list of hosts.
pub open spec fn host_fits() -> Seq<Fit> {
    seq![Fit::Widest, Fit::Widest, Fit::Left(12), Fit::Ragged]
}

/// The headings of the list of hosts.
pub open spec fn host_headings() -> Seq<Seq<char>> {
    seq!["ALIAS"@, "TARGET"@, "CONNECTIVITY"@, "SOURCE"@]
}

/// A host in the list.
pub open spec fn host_cells(host: SshHost) -> Seq<Seq<char>> {
    seq![
        host.alias@,
        target_text(host),
        if host.resolution_error is Some {
            "config-error"@
        } else {
            "unknown"@
        },
        host.source@,
    ]
}

/// The list of hosts.
pub fn host_lines(hosts: &Vec<SshHost>) -> (r: Vec<String>)
    ensures
        texts(r@) == (if hosts@.len() == 0 {
            seq!["No literal SSH host aliases were found."@]
        } else {
            table(
                host_fits(),
                host_headings(),
                hosts@.map_values(|host: SshHost| host_cells(host)),
            )
        }),
{
    if hosts.len() == 0 {
        let r: Vec<String> = owned(["No literal SSH host aliases were found."]);
        assert(texts(r@) =~= seq!["No literal SSH host aliases were found."@]);
        return r;
    }
    let fits: Vec<Fit> = vec![Fit::Widest, Fit::Widest, Fit::Left(12), Fit::Ragged];
    let headings: Vec<String> = owned(["ALIAS", "TARGET", "CONNECTIVITY", "SOURCE"]);
    let mut rows: Vec<Vec<String>> = Vec::new();
    let mut i: usize = 0;
    while i < hosts.len()
        invariant
            i <= hosts@.len(),
            rows@.len() == i,
            forall|j: int| 0 <= j < i ==> texts((#[trigger] rows@[j])@) == host_cells(hosts@[j]),
        decreases hosts@.len() - i,
    {
        let host: &SshHost = &hosts[i];
        let row: Vec<String> = owned(
            [
                host.alias.as_str(),
                render_target(host).as_str(),
                if host.resolution_error.is_some() { "config-error" } else { "unknown" },
                host.source.as_str(),
            ],
        );
        assert(texts(row@) =~= host_cells(*host));
        rows.push(row);
        i += 1;
    }
    proof {
        assert(fits@ =~= host_fits());
        assert(texts(headings@) =~= host_headings());
        assert(headings@.len() == texts(headings@).len());
        assert forall|j: int| 0 <= j < rows@.len() implies (#[trigger] rows@[j])@.len()
            == headings@.len() by {
            assert(texts(rows@[j]@).len() == 4);
        }
        assert(row_texts(rows@) =~= hosts@.map_values(|host: SshHost| host_cells(host)));
    }
    render_table(&fits, &headings, &rows)
}

/// What is said of the hosts whose settings could not be resolved.
pub open spec fn resolution_warnings_of(hosts: Seq<SshHost>) -> Seq<Seq<char>>
    decreases hosts.len(),
{
    if hosts.len() == 0 {
        Seq::empty()
    } else {
        let before = resolution_warnings_of(hosts.drop_last());
        match hosts.last().resolution_error {
            Some(error) => before.push(
                "rollcall: could not resolve "@ + hosts.last().alias@ + ": "@ + error@,
            ),
            None => before,
        }
    }
}

/// What is said of the hosts whose settings could not be resolved.
pub fn resolution_warnings(hosts: &Vec<SshHost>) -> (r: Vec<String>)
    ensures
        texts(r@) == resolution_warnings_of(hosts@),
{
    let mut r: Vec<String> = Vec::new();
    let mut i: usize = 0;
    assert(texts(r@) =~= Seq::<Seq<char>>::empty());
    while i < hosts.len()
        invariant
            i <= hosts@.len(),
            texts(r@) == resolution_warnings_of(hosts@.take(i as int)),
        decreases hosts@.len() - i,
    {
        proof {
            assert(hosts@.take(i + 1).drop_last() =~= hosts@.take(i as int));
            assert(hosts@.take(i + 1).last() == hosts@[i as int]);
        }
        if let Some(error) = &hosts[i].resolution_error {
            let mut line: String = "rollcall: could not resolve ".to_owned();
            line.append(hosts[i].alias.as_str());
            line.append(": ");
            line.append(error.as_str());
            proof {
                crate::text::lemma_texts_push(r@, line);
            }
            r.push(line);
        }
        i += 1;
    }
    assert(hosts@.take(i as int) =~= hosts@);
    r
}

// ---- laws ----

/// A search for several words finds no more than a search for some of them.
pub proof fn more_words_narrow_the_search(
    corpus: Seq<char>,
    words: Seq<Seq<char>>,
    more: Seq<Seq<char>>,
)
    ensures
        has_terms(corpus, words + more) <==> has_terms(corpus, words) && has_terms(corpus, more),
{
    let all = words + more;
    if has_terms(corpus, all) {
        assert forall|i: int| 0 <= i < words.len() implies contains_text(
            corpus,
            #[trigger] words[i],
        ) by {
            assert(all[i] == words[i]);
        }
        assert forall|i: int| 0 <= i < more.len() implies contains_text(
            corpus,
            #[trigger] more[i],
        ) by {
            assert(all[words.len() + i] == more[i]);
        }
    }
}

} // verus!
