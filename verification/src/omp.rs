//! The Oh My Pi adapter: session files, live processes and how a session is opened.

use vstd::prelude::*;

use crate::codex::{
    find_native, first_native, is_alphanumeric, is_ascii_alphanumeric, lemma_observation_insert,
};
use crate::domain::{
    clone_binding, lemma_session_views_push, observation_views, session_views, stable_id_text,
    Activity, AgentKind, LiveObservation, ObservationView, RuntimeOwner, Session, SessionView,
    TmuxBinding,
};
use crate::json::{
    document_text, field_of, field_text, field_views, fields_of, find_field, items_of, json_fields,
    json_items, text_field, text_in,
};
use crate::keyed::StringMap;
use crate::probe::{script_command, script_ssh};
use crate::quoting::{any_nul, has_nul, join, shell_command, QuotingError};
use crate::recency::{limit_sessions, limited, recent_first, sort_recent_first};
use crate::text::{
    chars_of, decimal, decimal_of, find, lemma_texts_push, lines, lines_of, owned, parse_number,
    parsed_number, same, split, split_text, starts_text, string_of, strip_prefix, texts, trim,
    trimmed,
};
use crate::tmux::{is_command, is_local_host, CommandOutcome, Handoff, TmuxError};

verus! {

/// The script that prints the beginning of every session file.
pub const SESSION_SCRIPT: &'static str = r#"
root="${PI_CODING_AGENT_DIR:-$HOME/.omp/agent}/sessions"
[ -d "$root" ] || exit 0
if [ -n "${ROLLCALL_SESSION_LIMIT:-}" ]; then
  find "$root" -type f -name '*.jsonl' -printf '%T@\t%p\n' 2>/dev/null |
    sort -nr |
    sed -n "1,${ROLLCALL_SESSION_LIMIT}p" |
    cut -f2- |
    while IFS= read -r file; do
      mtime=$(stat -c %Y "$file" 2>/dev/null || stat -f %m "$file" 2>/dev/null || printf '0')
      printf 'FILE\t%s\t%s\n' "$mtime" "$file"
      sed -n '1,3p' "$file" 2>/dev/null
      printf 'END\n'
    done
else
  find "$root" -type f -name '*.jsonl' -print0 2>/dev/null |
  while IFS= read -r -d '' file; do
    mtime=$(stat -c %Y "$file" 2>/dev/null || stat -f %m "$file" 2>/dev/null || printf '0')
    printf 'FILE\t%s\t%s\n' "$mtime" "$file"
    sed -n '1,3p' "$file" 2>/dev/null
    printf 'END\n'
  done
fi
"#;

/// The script that finds live processes and the session files they hold open.
pub const LIVE_SCRIPT: &'static str = r#"
declare -A pane_session pane_id seen
walk_tree() {
  local pid="$1" session="$2" pane="$3" children child
  pane_session["$pid"]="$session"
  pane_id["$pid"]="$pane"
  if [[ -r "/proc/$pid/task/$pid/children" ]]; then
    read -r children < "/proc/$pid/task/$pid/children" || true
    for child in $children; do walk_tree "$child" "$session" "$pane"; done
  fi
}
if command -v tmux >/dev/null 2>&1; then
  while IFS=$'\t' read -r session pane pid; do
    [[ -n "$pid" ]] && walk_tree "$pid" "$session" "$pane"
  done < <(tmux list-panes -a -F $'#{session_name}\t#{pane_id}\t#{pane_pid}' 2>/dev/null || true)
fi
for proc in /proc/[0-9]*; do
  pid="${proc##*/}"
  [[ -r "$proc/cmdline" ]] || continue
  cmdline="$(tr '\0' ' ' < "$proc/cmdline" 2>/dev/null || true)"
  case " $cmdline " in
    *" omp "*|*"/omp "*|*" oh-my-pi "*|*"/coding-agent"*) ;;
    *) continue ;;
  esac
  session="${pane_session[$pid]-}"
  pane="${pane_id[$pid]-}"
  owner="external"
  [[ -n "$session" ]] && owner="tmux"
  for fd in "$proc"/fd/*; do
    target="$(readlink "$fd" 2>/dev/null || true)"
    case "$target" in
      */sessions/*/*.jsonl)
        base="${target##*/}"
        native="${base%.jsonl}"
        native="${native##*_}"
        key="$native|$owner|$session|$pane"
        [[ -n "${seen[$key]-}" ]] && continue
        seen["$key"]=1
        printf '%s\t%s\t%s\t%s\tworking\n' "$native" "$owner" "$session" "$pane"
        ;;
    esac
  done
done
"#;

/// Why Oh My Pi could not be used.
#[derive(Debug, Eq, PartialEq)]
pub enum OmpError {
    ExternalFrontend(String),
    Start { program: &'static str, source: String },
    CommandFailed(String),
    Json(String),
    Io(String),
    Tmux(TmuxError),
}

impl OmpError {
    /// What the user is told.
    pub open spec fn text(self) -> Seq<char> {
        match self {
            OmpError::ExternalFrontend(session) => "OMP session "@ + session@
                + " is owned by an external frontend; use `rollcall resume` only when a second frontend is intentional"@,
            OmpError::Start { program, source } => "could not start "@ + program@ + ": "@ + source@,
            OmpError::CommandFailed(message) => "OMP command failed: "@ + message@,
            OmpError::Json(error) => "OMP session contained invalid JSON: "@ + error@,
            OmpError::Io(error) => "OMP adapter I/O failed: "@ + error@,
            OmpError::Tmux(error) => error.text(),
        }
    }

    /// What the user is told.
    pub fn message(&self) -> (r: String)
        ensures
            r@ == self.text(),
    {
        match self {
            OmpError::ExternalFrontend(session) => {
                let mut r: String = "OMP session ".to_owned();
                r.append(session.as_str());
                r.append(
                    " is owned by an external frontend; use `rollcall resume` only when a second frontend is intentional",
                );
                r
            },
            OmpError::Start { program, source } => {
                let mut r: String = "could not start ".to_owned();
                r.append(program);
                r.append(": ");
                r.append(source.as_str());
                r
            },
            OmpError::CommandFailed(message) => {
                let mut r: String = "OMP command failed: ".to_owned();
                r.append(message.as_str());
                r
            },
            OmpError::Json(error) => {
                let mut r: String = "OMP session contained invalid JSON: ".to_owned();
                r.append(error.as_str());
                r
            },
            OmpError::Io(error) => {
                let mut r: String = "OMP adapter I/O failed: ".to_owned();
                r.append(error.as_str());
                r
            },
            OmpError::Tmux(error) => error.message(),
        }
    }
}

// ---- commands ----

/// The script that prints the session files, the newest of them where there is a limit.
pub open spec fn session_script_text(limit: Option<usize>) -> Seq<char> {
    match limit {
        Some(n) => "ROLLCALL_SESSION_LIMIT="@ + decimal(n as nat) + " "@ + SESSION_SCRIPT@,
        None => SESSION_SCRIPT@,
    }
}

/// The script that prints the session files.
pub fn session_script(limit: Option<usize>) -> (r: String)
    ensures
        r@ == session_script_text(limit),
{
    match limit {
        Some(n) => {
            let mut r: String = "ROLLCALL_SESSION_LIMIT=".to_owned();
            r.append(decimal_of(n as u64).as_str());
            r.append(" ");
            r.append(SESSION_SCRIPT);
            r
        },
        None => SESSION_SCRIPT.to_owned(),
    }
}

/// The command that runs a script on a host in a login shell.
pub fn run_command(host: &str, script: &str, local_hostname: &str) -> (r: Result<
    (&'static str, Vec<String>),
    OmpError,
>)
    ensures
        r is Err <==> !is_local_host(host@, local_hostname@) && has_nul(script@),
        r matches Err(error) ==> error is CommandFailed && error->CommandFailed_0@
            == "cannot shell-quote string containing nul byte"@,
        r matches Ok(command) ==> if is_local_host(host@, local_hostname@) {
            is_command(command, "bash"@, seq!["-lc"@, script@])
        } else {
            is_command(command, "ssh"@, script_ssh(host@, "-lc"@, script@, false))
        },
{
    proof {
        reveal_strlit("-lc");
        assert(!has_nul("-lc"@));
    }
    match script_command(host, "-lc", script, false, local_hostname) {
        Ok(command) => Ok(command),
        Err(_error) => Err(
            OmpError::CommandFailed("cannot shell-quote string containing nul byte".to_owned()),
        ),
    }
}

/// What a script printed, where it succeeded.
pub fn run(outcome: &CommandOutcome) -> (r: Result<String, OmpError>)
    ensures
        r is Ok <==> outcome.success,
        r matches Ok(output) ==> output@ == outcome.stdout@,
        r matches Err(error) ==> error is CommandFailed && error->CommandFailed_0@ == trimmed(
            outcome.stderr@,
        ),
{
    if outcome.success {
        Ok(outcome.stdout.clone())
    } else {
        Err(OmpError::CommandFailed(trim(outcome.stderr.as_str())))
    }
}

// ---- session files ----

/// What the lines of a session file told so far.
#[verifier::ext_equal]
pub struct FileView {
    pub header: Option<Seq<(Seq<char>, Seq<char>)>>,
    pub title: Option<Seq<char>>,
    pub last_message: Option<Seq<char>>,
    pub completed: bool,
}

/// The last text among the parts of a message.
pub open spec fn parts_text(parts: Seq<Seq<char>>) -> Option<Seq<char>>
    decreases parts.len(),
{
    if parts.len() == 0 {
        None
    } else if document_text(parts.last(), "text"@) is Some {
        document_text(parts.last(), "text"@)
    } else {
        parts_text(parts.drop_last())
    }
}

/// The text of a message's content, where it is a list of parts.
pub open spec fn message_text(message: Seq<char>) -> Option<Seq<char>> {
    match json_fields(message) {
        None => None,
        Some(fields) => match field_of(fields, "content"@) {
            None => None,
            Some(content) => match json_items(content) {
                None => None,
                Some(parts) => parts_text(parts),
            },
        },
    }
}

/// What is known after a line with the given fields: a header, a title, a message of the
/// assistant, or the end of the session.
pub open spec fn with_fields(before: FileView, fields: Seq<(Seq<char>, Seq<char>)>) -> FileView {
    let kind = field_text(fields, "type"@);
    if kind == Some("session"@) {
        FileView { header: Some(fields), ..before }
    } else if kind == Some("title"@) || kind == Some("title_change"@) {
        FileView { title: field_text(fields, "title"@), ..before }
    } else if kind == Some("message"@) {
        match field_of(fields, "message"@) {
            Some(message) => if document_text(message, "role"@) == Some("assistant"@) {
                FileView { last_message: message_text(message), ..before }
            } else {
                before
            },
            None => before,
        }
    } else if kind == Some("custom"@) && field_text(fields, "customType"@) == Some(
        "session_exit"@,
    ) {
        FileView { completed: true, ..before }
    } else {
        before
    }
}

/// What is known after the lines; one that is no object tells nothing.
pub open spec fn file_view(lines: Seq<Seq<char>>) -> FileView
    decreases lines.len(),
{
    if lines.len() == 0 {
        FileView { header: None, title: None, last_message: None, completed: false }
    } else {
        let before = file_view(lines.drop_last());
        match json_fields(lines.last()) {
            Some(fields) => with_fields(before, fields),
            None => before,
        }
    }
}

/// The session that a file tells of: it needs a header with an identifier. A file whose time
/// is not known counts as new.
pub open spec fn file_session(file: FileView, mtime: u64, now: u64) -> Option<SessionView> {
    match file.header {
        None => None,
        Some(header) => {
            let id = match field_text(header, "id"@) {
                Some(id) => id,
                None => Seq::empty(),
            };
            let cwd = match field_text(header, "cwd"@) {
                Some(cwd) => cwd,
                None => "."@,
            };
            let title = match file.title {
                Some(title) => title,
                None => match field_text(header, "title"@) {
                    Some(title) => title,
                    None => cwd,
                },
            };
            let time = if mtime == 0 { now } else { mtime };
            if id.len() == 0 {
                None
            } else {
                Some(
                    SessionView {
                        id: Seq::empty(),
                        host: Seq::empty(),
                        agent: AgentKind::Omp,
                        native_session_id: id,
                        title,
                        cwd,
                        source: "omp"@,
                        activity: if file.completed {
                            Activity::Completed
                        } else {
                            Activity::Unknown
                        },
                        last_message: match file.last_message {
                            Some(message) => message,
                            None => Seq::empty(),
                        },
                        last_interaction_unix_seconds: time,
                        updated_unix_seconds: time,
                        runtime: RuntimeOwner::Resumable,
                        tmux: None,
                    },
                )
            }
        },
    }
}

/// Optional strings as text.
pub open spec fn option_text(value: Option<String>) -> Option<Seq<char>> {
    match value {
        Some(value) => Some(value@),
        None => None,
    }
}

fn is_text(value: &Option<String>, word: &str) -> (r: bool)
    ensures
        r == (option_text(*value) == Some(word@)),
{
    match value {
        Some(value) => same(value.as_str(), word),
        None => false,
    }
}

fn read_message(message: &str) -> (r: Option<String>)
    ensures
        option_text(r) == message_text(message@),
{
    let fields: Vec<(String, String)> = match fields_of(message) {
        Some(fields) => fields,
        None => {
            return None;
        },
    };
    let content: String = match find_field(&fields, "content") {
        Some(content) => content,
        None => {
            return None;
        },
    };
    let parts: Vec<String> = match items_of(content.as_str()) {
        Some(parts) => parts,
        None => {
            return None;
        },
    };
    let ghost views = texts(parts@);
    let mut i: usize = parts.len();
    assert(views.take(i as int) =~= views);
    while i > 0
        invariant
            i <= parts@.len(),
            views == texts(parts@),
            parts_text(views.take(i as int)) == parts_text(views),
            message_text(message@) == parts_text(views),
        decreases i,
    {
        proof {
            assert(views.take(i as int).last() == parts@[i - 1]@);
            assert(views.take(i as int).drop_last() =~= views.take(i - 1));
        }
        i -= 1;
        if let Some(text) = text_in(parts[i].as_str(), "text") {
            return Some(text);
        }
    }
    assert(views.take(0).len() == 0);
    None
}

/// Optional fields as text.
pub open spec fn option_fields(value: Option<Vec<(String, String)>>) -> Option<
    Seq<(Seq<char>, Seq<char>)>,
> {
    match value {
        Some(value) => Some(field_views(value@)),
        None => None,
    }
}

/// Reads the lines of a session file, last written at `mtime`.
pub fn parse_file(lines: &Vec<String>, mtime: u64, now: u64) -> (r: Result<
    Option<Session>,
    OmpError,
>)
    ensures
        r is Ok,
        r matches Ok(found) ==> (match found {
            Some(session) => Some(session.view()),
            None => None,
        }) == file_session(file_view(texts(lines@)), mtime, now),
{
    let mut header: Option<Vec<(String, String)>> = None;
    let mut title: Option<String> = None;
    let mut last_message: Option<String> = None;
    let mut completed: bool = false;
    let ghost views = texts(lines@);
    let mut i: usize = 0;
    assert(views.take(0) =~= Seq::<Seq<char>>::empty());
    while i < lines.len()
        invariant
            i <= lines@.len(),
            views == texts(lines@),
            file_view(views.take(i as int)) == (FileView {
                header: option_fields(header),
                title: option_text(title),
                last_message: option_text(last_message),
                completed,
            }),
        decreases lines@.len() - i,
    {
        proof {
            assert(views.take(i + 1).drop_last() =~= views.take(i as int));
            assert(views.take(i + 1).last() == lines@[i as int]@);
        }
        if let Some(fields) = fields_of(lines[i].as_str()) {
            let kind: Option<String> = text_field(&fields, "type");
            if is_text(&kind, "session") {
                header = Some(fields);
            } else if is_text(&kind, "title") || is_text(&kind, "title_change") {
                title = text_field(&fields, "title");
            } else if is_text(&kind, "message") {
                if let Some(message) = find_field(&fields, "message") {
                    let role: Option<String> = text_in(message.as_str(), "role");
                    if is_text(&role, "assistant") {
                        last_message = read_message(message.as_str());
                    }
                }
            } else if is_text(&kind, "custom") {
                let custom: Option<String> = text_field(&fields, "customType");
                if is_text(&custom, "session_exit") {
                    completed = true;
                }
            }
        }
        i += 1;
    }
    assert(views.take(i as int) =~= views);
    let header: Vec<(String, String)> = match header {
        Some(header) => header,
        None => {
            return Ok(None);
        },
    };
    let native_session_id: String = match text_field(&header, "id") {
        Some(id) => id,
        None => String::new(),
    };
    let cwd: String = match text_field(&header, "cwd") {
        Some(cwd) => cwd,
        None => ".".to_owned(),
    };
    if native_session_id.as_str().is_empty() {
        return Ok(None);
    }
    let title: String = match title {
        Some(title) => title,
        None => match text_field(&header, "title") {
            Some(title) => title,
            None => cwd.clone(),
        },
    };
    let time: u64 = if mtime == 0 { now } else { mtime };
    Ok(
        Some(
            Session {
                id: String::new(),
                host: String::new(),
                agent: AgentKind::Omp,
                native_session_id,
                title,
                cwd,
                source: "omp".to_owned(),
                activity: if completed { Activity::Completed } else { Activity::Unknown },
                last_message: match last_message {
                    Some(message) => message,
                    None => String::new(),
                },
                last_interaction_unix_seconds: time,
                updated_unix_seconds: time,
                runtime: RuntimeOwner::Resumable,
                tmux: None,
            },
        ),
    )
}

/// What the listing of session files told so far.
#[verifier::ext_equal]
pub struct ListingView {
    pub sessions: Seq<SessionView>,
    pub mtime: u64,
    pub lines: Seq<Seq<char>>,
}

/// The time in the rest of a line that begins a file: what stands before the first tab.
pub open spec fn file_time(rest: Seq<char>) -> u64 {
    match parsed_number(split_text(rest, '\t')[0], u64::MAX as nat) {
        Some(n) => n as u64,
        None => 0,
    }
}

/// What is known after a line of the listing.
pub open spec fn with_listing_line(before: ListingView, line: Seq<char>, now: u64) -> ListingView {
    if starts_text(line, "FILE\t"@) {
        ListingView {
            mtime: file_time(line.skip("FILE\t"@.len() as int)),
            lines: Seq::empty(),
            ..before
        }
    } else if line == "END"@ {
        ListingView {
            sessions: match file_session(file_view(before.lines), before.mtime, now) {
                Some(session) => before.sessions.push(session),
                None => before.sessions,
            },
            lines: Seq::empty(),
            ..before
        }
    } else if line.len() > 0 {
        ListingView { lines: before.lines.push(line), ..before }
    } else {
        before
    }
}

/// What is known after the lines of the listing.
pub open spec fn listing(lines: Seq<Seq<char>>, now: u64) -> ListingView
    decreases lines.len(),
{
    if lines.len() == 0 {
        ListingView { sessions: Seq::empty(), mtime: 0, lines: Seq::empty() }
    } else {
        with_listing_line(listing(lines.drop_last(), now), lines.last(), now)
    }
}

fn read_file_time(rest: &str) -> (r: u64)
    ensures
        r == file_time(rest@),
{
    let fields: Vec<String> = split(rest, '\t');
    proof {
        assert(split_text(rest@, '\t').len() > 0);
        assert(texts(fields@)[0] == fields@[0]@);
    }
    match parse_number(fields[0].as_str(), u64::MAX) {
        Some(n) => n,
        None => 0,
    }
}

/// Reads the listing of session files.
pub fn parse_sessions(output: &str, now: u64) -> (r: Result<Vec<Session>, OmpError>)
    ensures
        r is Ok,
        r matches Ok(sessions) ==> session_views(sessions@) == listing(
            lines_of(output@),
            now,
        ).sessions,
{
    let mut sessions: Vec<Session> = Vec::new();
    let mut mtime: u64 = 0;
    let mut pending: Vec<String> = Vec::new();
    let all: Vec<String> = lines(output);
    let ghost views = texts(all@);
    let mut i: usize = 0;
    proof {
        assert(views.take(0) =~= Seq::<Seq<char>>::empty());
        assert(session_views(sessions@) =~= Seq::<SessionView>::empty());
        assert(texts(pending@) =~= Seq::<Seq<char>>::empty());
    }
    while i < all.len()
        invariant
            i <= all@.len(),
            views == texts(all@),
            listing(views.take(i as int), now) == (ListingView {
                sessions: session_views(sessions@),
                mtime,
                lines: texts(pending@),
            }),
        decreases all@.len() - i,
    {
        let line: &String = &all[i];
        proof {
            assert(views.take(i + 1).drop_last() =~= views.take(i as int));
            assert(views.take(i + 1).last() == line@);
        }
        if let Some(rest) = strip_prefix(line.as_str(), "FILE\t") {
            mtime = read_file_time(rest.as_str());
            pending.clear();
            assert(texts(pending@) =~= Seq::<Seq<char>>::empty());
        } else if same(line.as_str(), "END") {
            match parse_file(&pending, mtime, now) {
                Err(error) => {
                    return Err(error);
                },
                Ok(None) => {},
                Ok(Some(session)) => {
                    proof {
                        lemma_session_views_push(sessions@, session);
                    }
                    sessions.push(session);
                },
            }
            pending.clear();
            assert(texts(pending@) =~= Seq::<Seq<char>>::empty());
        } else if !line.as_str().is_empty() {
            let copy: String = line.clone();
            proof {
                lemma_texts_push(pending@, copy);
            }
            pending.push(copy);
        }
        i += 1;
    }
    assert(views.take(i as int) =~= views);
    Ok(sessions)
}

// ---- live processes ----

/// The session that a line tells of, and what it says of it.
pub open spec fn live_line(line: Seq<char>) -> Option<(Seq<char>, ObservationView)> {
    let fields = split_text(line, '\t');
    if fields.len() != 5 {
        None
    } else {
        let activity = if fields[4] == "working"@ { Activity::Working } else { Activity::Unknown };
        if fields[1] == "tmux"@ {
            Some(
                (
                    fields[0],
                    ObservationView {
                        activity,
                        runtime: RuntimeOwner::TmuxFrontend,
                        tmux: Some((fields[2], fields[3])),
                    },
                ),
            )
        } else if fields[1] == "external"@ {
            Some(
                (
                    fields[0],
                    ObservationView {
                        activity,
                        runtime: RuntimeOwner::ExternalFrontend,
                        tmux: None,
                    },
                ),
            )
        } else {
            None
        }
    }
}

/// The observations that the lines tell of; the last line of a session counts.
pub open spec fn live_lines(lines: Seq<Seq<char>>) -> Map<Seq<char>, ObservationView>
    decreases lines.len(),
{
    if lines.len() == 0 {
        Map::empty()
    } else {
        let before = live_lines(lines.drop_last());
        match live_line(lines.last()) {
            Some((id, observation)) => before.insert(id, observation),
            None => before,
        }
    }
}

fn read_live_line(line: &str) -> (r: Option<(String, LiveObservation)>)
    ensures
        r is Some <==> live_line(line@) is Some,
        r matches Some(found) ==> live_line(line@) == Some((found.0@, found.1.view())),
{
    let fields: Vec<String> = split(line, '\t');
    let ghost views = texts(fields@);
    if fields.len() != 5 {
        return None;
    }
    proof {
        assert(views[0] == fields@[0]@);
        assert(views[1] == fields@[1]@);
        assert(views[2] == fields@[2]@);
        assert(views[3] == fields@[3]@);
        assert(views[4] == fields@[4]@);
    }
    let activity: Activity = if same(fields[4].as_str(), "working") {
        Activity::Working
    } else {
        Activity::Unknown
    };
    if same(fields[1].as_str(), "tmux") {
        let binding = TmuxBinding { session: fields[2].clone(), pane: fields[3].clone() };
        Some(
            (
                fields[0].clone(),
                LiveObservation {
                    activity,
                    runtime: RuntimeOwner::TmuxFrontend,
                    tmux: Some(binding),
                },
            ),
        )
    } else if same(fields[1].as_str(), "external") {
        Some(
            (
                fields[0].clone(),
                LiveObservation { activity, runtime: RuntimeOwner::ExternalFrontend, tmux: None },
            ),
        )
    } else {
        None
    }
}

/// Reads what the probe of live processes printed.
pub fn parse_live(output: &str) -> (r: StringMap<LiveObservation>)
    ensures
        observation_views(r@) == live_lines(lines_of(output@)),
{
    let mut observations: StringMap<LiveObservation> = StringMap::new();
    let all: Vec<String> = lines(output);
    let ghost views = texts(all@);
    let mut i: usize = 0;
    assert(views.take(0) =~= Seq::<Seq<char>>::empty());
    assert(observation_views(observations@) =~= Map::<Seq<char>, ObservationView>::empty());
    while i < all.len()
        invariant
            i <= all@.len(),
            views == texts(all@),
            observation_views(observations@) == live_lines(views.take(i as int)),
        decreases all@.len() - i,
    {
        proof {
            assert(views.take(i + 1).drop_last() =~= views.take(i as int));
            assert(views.take(i + 1).last() == all@[i as int]@);
        }
        if let Some((id, observation)) = read_live_line(all[i].as_str()) {
            proof {
                lemma_observation_insert(observations@, id@, observation);
            }
            observations.insert(id, observation);
        }
        i += 1;
    }
    assert(views.take(i as int) =~= views);
    observations
}

/// What the probe of live processes means.
pub fn observe_live(outcome: &CommandOutcome) -> (r: Result<StringMap<LiveObservation>, OmpError>)
    ensures
        r is Ok <==> outcome.success,
        r matches Ok(observations) ==> observation_views(observations@) == live_lines(
            lines_of(outcome.stdout@),
        ),
        r matches Err(error) ==> error is CommandFailed && error->CommandFailed_0@ == trimmed(
            outcome.stderr@,
        ),
{
    match run(outcome) {
        Ok(output) => Ok(parse_live(output.as_str())),
        Err(error) => Err(error),
    }
}

// ---- inventory ----

/// A session with its host and what is known of its live process.
pub open spec fn correlated(
    session: SessionView,
    observed_host: Seq<char>,
    live: Map<Seq<char>, ObservationView>,
) -> SessionView {
    let id = session.native_session_id;
    let named = SessionView {
        host: observed_host,
        agent: AgentKind::Omp,
        id: stable_id_text(observed_host, AgentKind::Omp, id),
        ..session
    };
    if live.dom().contains(id) {
        SessionView {
            runtime: live[id].runtime,
            tmux: live[id].tmux,
            activity: live[id].activity,
            ..named
        }
    } else {
        named
    }
}

/// The sessions with their host and what is known of their live processes.
pub open spec fn all_correlated(
    sessions: Seq<SessionView>,
    observed_host: Seq<char>,
    live: Map<Seq<char>, ObservationView>,
) -> Seq<SessionView> {
    sessions.map_values(|session: SessionView| correlated(session, observed_host, live))
}

/// Gives sessions their host and what is known of their live processes.
pub fn correlate_live(
    sessions: &mut Vec<Session>,
    observed_host: &str,
    live: &StringMap<LiveObservation>,
)
    ensures
        session_views(final(sessions)@) == all_correlated(
            session_views(old(sessions)@),
            observed_host@,
            observation_views(live@),
        ),
{
    let ghost before = sessions@;
    let ghost views = observation_views(live@);
    let mut i: usize = 0;
    while i < sessions.len()
        invariant
            i <= before.len(),
            sessions@.len() == before.len(),
            views == observation_views(live@),
            forall|j: int| i <= j < before.len() ==> sessions@[j] == before[j],
            forall|j: int|
                0 <= j < i ==> (#[trigger] sessions@[j]).view() == correlated(
                    before[j].view(),
                    observed_host@,
                    views,
                ),
        decreases before.len() - i,
    {
        let mut session: Session = sessions[i].clone();
        session.host = observed_host.to_owned();
        session.agent = AgentKind::Omp;
        session.id = session.key().stable_id();
        if let Some(observation) = live.get(session.native_session_id.as_str()) {
            session.runtime = observation.runtime;
            session.tmux = clone_binding(&observation.tmux);
            session.activity = observation.activity;
        }
        sessions.set(i, session);
        i += 1;
    }
    assert(session_views(sessions@) =~= all_correlated(
        session_views(before),
        observed_host@,
        views,
    ));
}

/// The inventory of a host: the sessions of the listing with their live state, the latest
/// first and at most as many as the limit.
pub fn discover(
    output: &str,
    now: u64,
    observed_host: &str,
    live: &StringMap<LiveObservation>,
    limit: Option<usize>,
) -> (r: Result<Vec<Session>, OmpError>)
    ensures
        r is Ok,
        r matches Ok(sessions) ==> exists|rows: Seq<Session>|
            session_views(rows) == all_correlated(
                listing(lines_of(output@), now).sessions,
                observed_host@,
                observation_views(live@),
            ) && sessions@ == limited(#[trigger] recent_first(rows), limit),
{
    let mut sessions: Vec<Session> = match parse_sessions(output, now) {
        Ok(sessions) => sessions,
        Err(error) => {
            return Err(error);
        },
    };
    correlate_live(&mut sessions, observed_host, live);
    let ghost rows = sessions@;
    let mut sorted: Vec<Session> = sort_recent_first(sessions);
    limit_sessions(&mut sorted, limit);
    assert(sorted@ == limited(recent_first(rows), limit));
    Ok(sorted)
}

// ---- opening a session ----

/// The last component of a path that is not empty.
pub open spec fn last_part(parts: Seq<Seq<char>>) -> Seq<char>
    decreases parts.len(),
{
    if parts.len() == 0 {
        "session"@
    } else if parts.last().len() > 0 {
        parts.last()
    } else {
        last_part(parts.drop_last())
    }
}

/// A text with a hyphen for every character that is not an ASCII letter or digit.
pub open spec fn hyphenated(s: Seq<char>) -> Seq<char> {
    s.map_values(|c: char| if is_alphanumeric(c) { c } else { '-' })
}

/// The last eight characters.
pub open spec fn last_eight(s: Seq<char>) -> Seq<char> {
    if s.len() <= 8 {
        s
    } else {
        s.skip(s.len() - 8)
    }
}

/// The name of the multiplexer's session for a session.
pub open spec fn tmux_name(cwd: Seq<char>, native_id: Seq<char>) -> Seq<char> {
    "rc-omp-"@ + hyphenated(last_part(split_text(cwd, '/'))) + "-"@ + last_eight(native_id)
}

/// The name of the multiplexer's session for a session.
pub fn deterministic_tmux_name(cwd: &str, native_id: &str) -> (r: String)
    ensures
        r@ == tmux_name(cwd@, native_id@),
{
    let parts: Vec<String> = split(cwd, '/');
    let ghost views = texts(parts@);
    let mut project: String = "session".to_owned();
    let mut i: usize = parts.len();
    let mut found: bool = false;
    assert(views.take(i as int) =~= views);
    while i > 0 && !found
        invariant
            i <= parts@.len(),
            views == texts(parts@),
            found ==> project@ == last_part(views),
            !found ==> last_part(views.take(i as int)) == last_part(views),
            !found ==> project@ == "session"@,
        decreases i,
    {
        proof {
            assert(views.take(i as int).last() == parts@[i - 1]@);
            assert(views.take(i as int).drop_last() =~= views.take(i - 1));
        }
        i -= 1;
        if !parts[i].as_str().is_empty() {
            project = parts[i].clone();
            found = true;
        }
    }
    assert(views.take(0).len() == 0);
    let name: Vec<char> = chars_of(project.as_str());
    let mut r: String = "rc-omp-".to_owned();
    let ghost start = r@;
    let mut k: usize = 0;
    assert(r@ =~= start + hyphenated(name@.take(0)));
    while k < name.len()
        invariant
            k <= name@.len(),
            r@ == start + hyphenated(name@.take(k as int)),
        decreases name@.len() - k,
    {
        let c: char = name[k];
        let shown: char = if is_ascii_alphanumeric(c) { c } else { '-' };
        assert(hyphenated(name@.take(k + 1)) =~= hyphenated(name@.take(k as int)).push(shown));
        r.push(shown);
        k += 1;
        assert(r@ =~= start + hyphenated(name@.take(k as int)));
    }
    assert(name@.take(k as int) =~= name@);
    r.append("-");
    let id: Vec<char> = chars_of(native_id);
    let from: usize = if id.len() <= 8 { 0 } else { id.len() - 8 };
    let tail: String = string_of(&id, from, id.len());
    assert(tail@ =~= last_eight(native_id@));
    r.append(tail.as_str());
    r
}

/// How a session is opened.
#[derive(Debug, Eq, PartialEq)]
pub enum OmpAttachment {
    /// In the pane in which it runs.
    Pane { host: String, binding: TmuxBinding },
    /// In a new frontend.
    Resume(Session),
}

/// The message of a session that was not found.
pub open spec fn not_found_text(native_id: Seq<char>) -> Seq<char> {
    "OMP session "@ + native_id + " was not found"@
}

/// Decides how a session is opened: in its pane where it has one, not at all where another
/// frontend owns it, and else in a new frontend.
pub fn attach(native_id: &str, sessions: &Vec<Session>) -> (r: Result<OmpAttachment, OmpError>)
    ensures
        match first_native(sessions@, native_id@) {
            None => r matches Err(error) && error is CommandFailed && error->CommandFailed_0@
                == not_found_text(native_id@),
            Some(session) => match session.runtime {
                RuntimeOwner::TmuxFrontend => match session.tmux {
                    Some(binding) => r == Ok::<OmpAttachment, OmpError>(
                        OmpAttachment::Pane { host: session.host, binding },
                    ),
                    None => r matches Err(error) && error is CommandFailed
                        && error->CommandFailed_0@ == "OMP tmux frontend had no binding"@,
                },
                RuntimeOwner::ExternalFrontend => r == Err::<OmpAttachment, OmpError>(
                    OmpError::ExternalFrontend(session.id),
                ),
                _ => r == Ok::<OmpAttachment, OmpError>(OmpAttachment::Resume(session)),
            },
        },
{
    let session: Session = match resume(native_id, sessions) {
        Ok(session) => session,
        Err(error) => {
            return Err(error);
        },
    };
    match session.runtime {
        RuntimeOwner::TmuxFrontend => match &session.tmux {
            Some(binding) => Ok(
                OmpAttachment::Pane { host: session.host.clone(), binding: binding.clone() },
            ),
            None => Err(OmpError::CommandFailed("OMP tmux frontend had no binding".to_owned())),
        },
        RuntimeOwner::ExternalFrontend => Err(OmpError::ExternalFrontend(session.id)),
        _ => Ok(OmpAttachment::Resume(session)),
    }
}

/// The session that the user asked to open in a new frontend, whoever owns it.
pub fn resume(native_id: &str, sessions: &Vec<Session>) -> (r: Result<Session, OmpError>)
    ensures
        match first_native(sessions@, native_id@) {
            None => r matches Err(error) && error is CommandFailed && error->CommandFailed_0@
                == not_found_text(native_id@),
            Some(session) => r == Ok::<Session, OmpError>(session),
        },
{
    match find_native(sessions, native_id) {
        Some(session) => Ok(session),
        None => {
            let mut message: String = "OMP session ".to_owned();
            message.append(native_id);
            message.append(" was not found");
            Err(OmpError::CommandFailed(message))
        },
    }
}

/// The hand-over that opens a session in a new frontend.
pub fn resume_session(session: &Session, inside_tmux: bool, local_hostname: &str) -> (r: Result<
    Handoff,
    OmpError,
>)
    ensures
        has_nul(session.native_session_id@) ==> (r matches Err(error) && error is CommandFailed
            && error->CommandFailed_0@ == "cannot shell-quote string containing nul byte"@),
        r is Err <==> has_nul(session.native_session_id@) || (!is_local_host(
            session.host@,
            local_hostname@,
        ) && (has_nul(tmux_name(session.cwd@, session.native_session_id@)) || has_nul(
            session.cwd@,
        ))),
        !has_nul(session.native_session_id@) ==> (r matches Err(error) ==> error == OmpError::Tmux(
            TmuxError::Quote(QuotingError::Nul),
        )),
        r matches Ok(handoff) ==> ({
            let name = tmux_name(session.cwd@, session.native_session_id@);
            let login = shell_command(
                crate::tmux::login_words(
                    shell_command(seq!["omp"@, "--resume"@, session.native_session_id@]),
                ),
            );
            if is_local_host(session.host@, local_hostname@) {
                handoff.program@ == "tmux"@ && texts(handoff.arguments@)
                    == crate::tmux::local_resume(inside_tmux, name, session.cwd@, login)
            } else {
                handoff.program@ == "ssh"@ && texts(handoff.arguments@)
                    == crate::tmux::terminal_ssh(
                    session.host@,
                    shell_command(
                        seq!["tmux"@] + crate::tmux::new_session_words(
                            "-A"@,
                            name,
                            session.cwd@,
                            login,
                        ),
                    ),
                )
            }
        }),
{
    let words: Vec<String> = owned(["omp", "--resume", session.native_session_id.as_str()]);
    proof {
        let expected = seq!["omp"@, "--resume"@, session.native_session_id@];
        assert(texts(words@) =~= expected);
        reveal_strlit("omp");
        reveal_strlit("--resume");
        assert(!has_nul("omp"@));
        assert(!has_nul("--resume"@));
        assert(expected[2] == session.native_session_id@);
        assert(any_nul(expected) == has_nul(session.native_session_id@));
    }
    let command: String = match join(&words) {
        Ok(command) => command,
        Err(_error) => {
            return Err(
                OmpError::CommandFailed("cannot shell-quote string containing nul byte".to_owned()),
            );
        },
    };
    let name: String = deterministic_tmux_name(
        session.cwd.as_str(),
        session.native_session_id.as_str(),
    );
    match crate::tmux::resume_command(
        session.host.as_str(),
        name.as_str(),
        session.cwd.as_str(),
        command.as_str(),
        inside_tmux,
        local_hostname,
    ) {
        Ok(handoff) => Ok(handoff),
        Err(error) => Err(OmpError::Tmux(error)),
    }
}

} // verus!
