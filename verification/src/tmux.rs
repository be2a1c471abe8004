//! The terminal multiplexer: its inventory, and the commands that hand a terminal over.

use vstd::prelude::*;

use crate::order::{ranked, stable_sort, Ranked};
use crate::quoting::{
    any_nul, has_nul, join, lemma_decimal_has_no_nul, reads_back, shell_command, QuotingError,
};
use crate::text::{
    chars_of, clone_strings, contains, contains_text, debug, debug_text, decimal, decimal_of, find,
    is_control, is_control_char, is_whitespace, lemma_first_index, lemma_split_first,
    lemma_texts_push, lines, lines_of, owned, parse_number, parsed_number, same, split, split_text,
    string_of, texts, trim, trimmed, trimmed_end,
};

verus! {

/// The columns in which the multiplexer lists its sessions.
pub const SESSION_FORMAT: &'static str =
    "#{session_name}\t#{session_created}\t#{session_activity}\t#{session_attached}\t#{session_windows}";

/// A session of the multiplexer.
#[derive(Debug, Eq, PartialEq)]
pub struct TmuxSession {
    pub id: String,
    pub host: String,
    pub name: String,
    pub created_unix_seconds: u64,
    pub last_activity_unix_seconds: u64,
    pub attached_clients: u32,
    pub windows: u32,
}

/// Why the multiplexer could not be used.
#[derive(Debug, Eq, PartialEq)]
pub enum TmuxError {
    InvalidSessionId(String),
    Quote(QuotingError),
    Start { program: &'static str, source: String },
    CommandFailed { context: String, message: String },
    MalformedOutput(String),
}

impl TmuxError {
    /// What the user is told.
    pub open spec fn text(self) -> Seq<char> {
        match self {
            TmuxError::InvalidSessionId(session) => "invalid tmux session "@ + debug_text(session@)
                + "; expected a name or HOST:tmux:NAME"@,
            TmuxError::Quote(_) =>
                "could not quote remote tmux command: cannot shell-quote string containing nul byte"@,
            TmuxError::Start { program, source } => "could not start "@ + program@ + ": "@ + source@,
            TmuxError::CommandFailed { context, message } => context@ + " failed: "@ + message@,
            TmuxError::MalformedOutput(line) => "tmux returned an unrecognized session row: "@
                + debug_text(line@),
        }
    }

    /// What the user is told.
    pub fn message(&self) -> (r: String)
        ensures
            r@ == self.text(),
    {
        match self {
            TmuxError::InvalidSessionId(session) => {
                let mut r: String = "invalid tmux session ".to_owned();
                r.append(debug(session.as_str()).as_str());
                r.append("; expected a name or HOST:tmux:NAME");
                r
            },
            TmuxError::Quote(_) =>
                "could not quote remote tmux command: cannot shell-quote string containing nul byte".to_owned(),
            TmuxError::Start { program, source } => {
                let mut r: String = "could not start ".to_owned();
                r.append(program);
                r.append(": ");
                r.append(source.as_str());
                r
            },
            TmuxError::CommandFailed { context, message } => {
                let mut r: String = context.clone();
                r.append(" failed: ");
                r.append(message.as_str());
                r
            },
            TmuxError::MalformedOutput(line) => {
                let mut r: String = "tmux returned an unrecognized session row: ".to_owned();
                r.append(debug(line.as_str()).as_str());
                r
            },
        }
    }
}

/// What a finished command left behind.
#[derive(Debug, Eq, PartialEq)]
pub struct CommandOutcome {
    pub success: bool,
    pub status: String,
    pub stdout: String,
    pub stderr: String,
}

/// What a failed command says of itself: its trimmed error output, or else its status.
pub open spec fn failure_text(outcome: CommandOutcome) -> Seq<char> {
    if trimmed(outcome.stderr@).len() == 0 {
        outcome.status@
    } else {
        trimmed(outcome.stderr@)
    }
}

/// What a failed command says of itself.
pub fn failure_message(outcome: &CommandOutcome) -> (r: String)
    ensures
        r@ == failure_text(*outcome),
{
    let message: String = trim(outcome.stderr.as_str());
    if message.as_str().is_empty() {
        outcome.status.clone()
    } else {
        message
    }
}

/// The host is the one this program runs on.
pub open spec fn is_local_host(host: Seq<char>, local_hostname: Seq<char>) -> bool {
    host == "local"@ || host == local_hostname
}

/// Whether the host is the one this program runs on.
pub fn is_local(host: &str, local_hostname: &str) -> (r: bool)
    ensures
        r == is_local_host(host@, local_hostname@),
{
    same(host, "local") || same(host, local_hostname)
}

/// The name of this host: the one in the environment, else the one that `hostname` printed,
/// else `local`; names that are empty do not count.
pub fn local_hostname(environment: Option<String>, printed: Option<String>) -> (r: String)
    ensures
        environment matches Some(name) && name@.len() > 0 ==> r@ == environment->0@,
        !(environment matches Some(name) && name@.len() > 0) ==> r@ == (
        if printed matches Some(name) && trimmed(name@).len() > 0 {
            trimmed(printed->0@)
        } else {
            "local"@
        }),
        r@.len() > 0,
{
    proof {
        reveal_strlit("local");
    }
    if let Some(name) = environment {
        if !name.as_str().is_empty() {
            return name;
        }
    }
    if let Some(name) = printed {
        let name: String = trim(name.as_str());
        if !name.as_str().is_empty() {
            return name;
        }
    }
    "local".to_owned()
}

// ---- targets ----

/// A session of the multiplexer on a host.
#[derive(Debug, Eq, PartialEq)]
pub struct TmuxTarget {
    pub host: String,
    pub name: String,
}

/// The identifier of a session of the multiplexer: `HOST:tmux:NAME`.
pub open spec fn target_id(host: Seq<char>, name: Seq<char>) -> Seq<char> {
    host + seq![':'] + ("tmux"@ + seq![':'] + name)
}

impl TmuxTarget {
    /// The identifier of the target.
    pub fn id(&self) -> (r: String)
        ensures
            r@ == target_id(self.host@, self.name@),
    {
        let mut r: String = self.host.clone();
        r.push(':');
        r.append("tmux");
        r.push(':');
        r.append(self.name.as_str());
        assert(r@ =~= target_id(self.host@, self.name@));
        r
    }
}

/// The session names a target: a name without a colon stands for a local session, and an
/// identifier for one on its host, in whose name colons may stand.
pub open spec fn names_target(session: Seq<char>, host: Seq<char>, name: Seq<char>) -> bool {
    &&& name.len() > 0
    &&& {
        ||| !session.contains(':') && host == "local"@ && name == session
        ||| host.len() > 0 && !host.contains(':') && session == target_id(host, name)
    }
}

/// Reads a session's name or identifier.
pub fn parse_target(session: &str) -> (r: Result<TmuxTarget, TmuxError>)
    ensures
        r matches Ok(target) ==> names_target(session@, target.host@, target.name@),
        r matches Err(error) ==> error is InvalidSessionId && error->InvalidSessionId_0@ == session@
            && forall|host: Seq<char>, name: Seq<char>|
            !#[trigger] names_target(session@, host, name),
{
    let chars: Vec<char> = chars_of(session);
    let first: usize = find(&chars, 0, ':');
    let ghost whole = chars@;
    proof {
        assert(chars@.skip(0) =~= whole);
        lemma_first_index(whole, ':');
        lemma_tmux_word();
        assert forall|host: Seq<char>, name: Seq<char>|
            whole.contains(':') && #[trigger] names_target(session@, host, name) implies first
            == host.len() && whole.take(first as int) == host && whole.skip(first + 1) == "tmux"@
            + seq![':'] + name by {
            lemma_split_first(host, ':', "tmux"@ + seq![':'] + name);
            assert(whole.take(first as int) =~= host);
            assert(whole.skip(first + 1) =~= "tmux"@ + seq![':'] + name);
        }
    }
    if first == chars.len() {
        if chars.len() == 0 {
            assert forall|host: Seq<char>, name: Seq<char>| !#[trigger] names_target(
                session@,
                host,
                name,
            ) by {
                assert(target_id(host, name).len() > 0);
            }
            return Err(TmuxError::InvalidSessionId(session.to_owned()));
        }
        return Ok(TmuxTarget { host: "local".to_owned(), name: session.to_owned() });
    }
    let second: usize = find(&chars, first + 1, ':');
    let ghost rest = whole.skip(first + 1);
    proof {
        lemma_first_index(rest, ':');
        assert forall|host: Seq<char>, name: Seq<char>| #[trigger]
            names_target(session@, host, name) implies second - first - 1 == "tmux"@.len()
            && second < whole.len() && rest.take(second - first - 1) == "tmux"@ && whole.skip(
            second + 1,
        ) == name by {
            lemma_split_first("tmux"@, ':', name);
            assert(rest.take(second - first - 1) =~= "tmux"@);
            assert(whole.skip(second + 1) =~= name);
        }
    }
    if first > 0 && second < chars.len() && second + 1 < chars.len() {
        let kind: String = string_of(&chars, first + 1, second);
        assert(kind@ =~= rest.take(second - first - 1));
        if same(kind.as_str(), "tmux") {
            let host: String = string_of(&chars, 0, first);
            let name: String = string_of(&chars, second + 1, chars.len());
            proof {
                assert(host@ =~= whole.take(first as int));
                assert(name@ =~= whole.skip(second + 1));
                assert(whole =~= target_id(host@, name@));
                assert forall|j: int| 0 <= j < host@.len() implies host@[j] != ':' by {
                    assert(whole[j] == host@[j]);
                }
            }
            return Ok(TmuxTarget { host, name });
        }
    }
    Err(TmuxError::InvalidSessionId(session.to_owned()))
}

/// What is in the word between the colons.
proof fn lemma_tmux_word()
    ensures
        !"tmux"@.contains(':'),
        "tmux"@.len() == 4,
{
    reveal_strlit("tmux");
}

/// The target that an identifier names is the one it was made of.
pub proof fn target_ids_round_trip(host: Seq<char>, name: Seq<char>)
    requires
        host.len() > 0,
        !host.contains(':'),
        name.len() > 0,
    ensures
        names_target(target_id(host, name), host, name),
        forall|h: Seq<char>, n: Seq<char>| #[trigger]
            names_target(target_id(host, name), h, n) ==> h == host && n == name,
{
    let id = target_id(host, name);
    lemma_tmux_word();
    lemma_split_first(host, ':', "tmux"@ + seq![':'] + name);
    assert(id[host.len() as int] == ':');
    assert(id.contains(':'));
    assert forall|h: Seq<char>, n: Seq<char>| #[trigger] names_target(id, h, n) implies h == host
        && n == name by {
        lemma_split_first(h, ':', "tmux"@ + seq![':'] + n);
        assert(h =~= id.take(host.len() as int));
        assert(host =~= id.take(host.len() as int));
        assert(n =~= id.skip(host.len() as int + 6));
        assert(name =~= id.skip(host.len() as int + 6));
    }
}

// ---- inventory ----

/// A row of the inventory: a name and four numbers, with a tab between each two.
pub open spec fn is_row(line: Seq<char>) -> bool {
    let fields = split_text(line, '\t');
    &&& fields.len() == 5
    &&& parsed_number(fields[1], u64::MAX as nat) is Some
    &&& parsed_number(fields[2], u64::MAX as nat) is Some
    &&& parsed_number(fields[3], u32::MAX as nat) is Some
    &&& parsed_number(fields[4], u32::MAX as nat) is Some
}

/// The session that a row tells of.
pub open spec fn is_row_of(session: TmuxSession, host: Seq<char>, line: Seq<char>) -> bool {
    let fields = split_text(line, '\t');
    &&& is_row(line)
    &&& session.id@ == target_id(host, fields[0])
    &&& session.host@ == host
    &&& session.name@ == fields[0]
    &&& parsed_number(fields[1], u64::MAX as nat) == Some(session.created_unix_seconds as nat)
    &&& parsed_number(fields[2], u64::MAX as nat) == Some(session.last_activity_unix_seconds as nat)
    &&& parsed_number(fields[3], u32::MAX as nat) == Some(session.attached_clients as nat)
    &&& parsed_number(fields[4], u32::MAX as nat) == Some(session.windows as nat)
}

/// Reads a row of the inventory.
pub fn parse_session(host: &str, line: &str) -> (r: Result<TmuxSession, TmuxError>)
    ensures
        r is Ok <==> is_row(line@),
        r matches Ok(session) ==> is_row_of(session, host@, line@),
        r matches Err(error) ==> error is MalformedOutput && error->MalformedOutput_0@ == line@,
{
    let fields: Vec<String> = split(line, '\t');
    let ghost views = texts(fields@);
    if fields.len() != 5 {
        return Err(TmuxError::MalformedOutput(line.to_owned()));
    }
    proof {
        assert(views[0] == fields@[0]@);
        assert(views[1] == fields@[1]@);
        assert(views[2] == fields@[2]@);
        assert(views[3] == fields@[3]@);
        assert(views[4] == fields@[4]@);
    }
    let created: Option<u64> = parse_number(fields[1].as_str(), u64::MAX);
    let activity: Option<u64> = parse_number(fields[2].as_str(), u64::MAX);
    let attached: Option<u64> = parse_number(fields[3].as_str(), u32::MAX as u64);
    let windows: Option<u64> = parse_number(fields[4].as_str(), u32::MAX as u64);
    match (created, activity, attached, windows) {
        (Some(created), Some(activity), Some(attached), Some(windows)) => {
            let target = TmuxTarget { host: host.to_owned(), name: fields[0].clone() };
            Ok(
                TmuxSession {
                    id: target.id(),
                    host: host.to_owned(),
                    name: fields[0].clone(),
                    created_unix_seconds: created,
                    last_activity_unix_seconds: activity,
                    attached_clients: attached as u32,
                    windows: windows as u32,
                },
            )
        },
        _ => Err(TmuxError::MalformedOutput(line.to_owned())),
    }
}

impl Ranked for TmuxSession {
    open spec fn at_most(self, other: Self) -> bool {
        self.last_activity_unix_seconds >= other.last_activity_unix_seconds
    }

    proof fn at_most_total(a: Self, b: Self) {
    }

    proof fn at_most_transitive(a: Self, b: Self, c: Self) {
    }

    fn is_at_most(&self, other: &Self) -> (r: bool) {
        self.last_activity_unix_seconds >= other.last_activity_unix_seconds
    }
}

/// The message says that there is no server, hence no session.
pub open spec fn says_no_server(message: Seq<char>) -> bool {
    ||| contains_text(message, "no server running"@)
    ||| contains_text(message, "failed to connect to server"@)
    ||| contains_text(message, "error connecting to"@)
    ||| contains_text(message, "no sessions"@)
}

/// Whether the message says that there is no server.
pub fn is_missing_tmux_server(message: &str) -> (r: bool)
    ensures
        r == says_no_server(message@),
{
    contains(message, "no server running") || contains(message, "failed to connect to server")
        || contains(message, "error connecting to") || contains(message, "no sessions")
}

/// The lines that are not empty.
pub open spec fn nonempty_lines(s: Seq<char>) -> Seq<Seq<char>> {
    lines_of(s).filter(|line: Seq<char>| line.len() > 0)
}

/// The first line that is no row.
pub open spec fn is_first_fault(lines: Seq<Seq<char>>, k: int) -> bool {
    &&& 0 <= k < lines.len()
    &&& !is_row(lines[k])
    &&& forall|j: int| 0 <= j < k ==> is_row(#[trigger] lines[j])
}

/// One session for each line, in order.
pub open spec fn are_rows_of(
    sessions: Seq<TmuxSession>,
    host: Seq<char>,
    rows: Seq<Seq<char>>,
) -> bool {
    &&& sessions.len() == rows.len()
    &&& forall|i: int| 0 <= i < rows.len() ==> is_row_of(#[trigger] sessions[i], host, rows[i])
}

/// The command that lists the sessions of a host.
pub fn discover_command(host: &str, local_hostname: &str) -> (r: Result<
    (&'static str, Vec<String>),
    TmuxError,
>)
    ensures
        is_local_host(host@, local_hostname@) ==> (r matches Ok(command) && command.0@ == "tmux"@
            && texts(command.1@) == seq!["list-sessions"@, "-F"@, SESSION_FORMAT@]),
        r is Ok,
        !is_local_host(host@, local_hostname@) ==> (r matches Ok(command) ==> command.0@ == "ssh"@
            && texts(command.1@) == batch_ssh(
            host@,
            shell_command(seq!["tmux"@, "list-sessions"@, "-F"@, SESSION_FORMAT@]),
        )),
{
    if is_local(host, local_hostname) {
        let arguments: Vec<String> = owned(["list-sessions", "-F", SESSION_FORMAT]);
        assert(texts(arguments@) =~= seq!["list-sessions"@, "-F"@, SESSION_FORMAT@]);
        return Ok(("tmux", arguments));
    }
    let words: Vec<String> = owned(["tmux", "list-sessions", "-F", SESSION_FORMAT]);
    proof {
        assert(texts(words@) =~= seq!["tmux"@, "list-sessions"@, "-F"@, SESSION_FORMAT@]);
        lemma_plain_words();
        assert(any_nul(texts(words@)) == has_nul(SESSION_FORMAT@)) by {
            assert(texts(words@)[3] == SESSION_FORMAT@);
        }
        reveal_strlit(
            "#{session_name}\t#{session_created}\t#{session_activity}\t#{session_attached}\t#{session_windows}",
        );
        assert(!has_nul(SESSION_FORMAT@));
    }
    match join(&words) {
        Err(error) => Err(TmuxError::Quote(error)),
        Ok(remote) => {
            let arguments: Vec<String> = owned(
                [
                    "-o",
                    "BatchMode=yes",
                    "-o",
                    "ConnectTimeout=5",
                    "-o",
                    "ConnectionAttempts=1",
                    "--",
                    host,
                    remote.as_str(),
                ],
            );
            assert(texts(arguments@) =~= batch_ssh(host@, remote@));
            Ok(("ssh", arguments))
        },
    }
}

/// The arguments of a connection that asks nothing.
pub open spec fn batch_ssh(host: Seq<char>, command: Seq<char>) -> Seq<Seq<char>> {
    seq![
        "-o"@,
        "BatchMode=yes"@,
        "-o"@,
        "ConnectTimeout=5"@,
        "-o"@,
        "ConnectionAttempts=1"@,
        "--"@,
        host,
        command,
    ]
}

/// The fixed words of the commands hold no NUL.
proof fn lemma_plain_words()
    ensures
        !has_nul("tmux"@),
        !has_nul("list-sessions"@),
        !has_nul("-F"@),
        !has_nul("-t"@),
        !has_nul("-p"@),
        !has_nul("-J"@),
        !has_nul("-S"@),
        !has_nul("-s"@),
        !has_nul("-c"@),
        !has_nul("-A"@),
        !has_nul("-u"@),
        !has_nul("--"@),
        !has_nul(";"@),
        !has_nul("attach-session"@),
        !has_nul("switch-client"@),
        !has_nul("select-window"@),
        !has_nul("select-pane"@),
        !has_nul("capture-pane"@),
        !has_nul("rename-session"@),
        !has_nul("new-session"@),
        !has_nul("exec"@),
        !has_nul("bash"@),
        !has_nul("-lc"@),
        !has_nul("env"@),
        !has_nul("ssh"@),
        !has_nul("TMUX"@),
        !has_nul("TMUX_PANE"@),
        !has_nul("codex"@),
        !has_nul("--remote"@),
        !has_nul("resume"@),
        !has_nul("unix://"@),
{
    reveal_strlit("tmux");
    reveal_strlit("list-sessions");
    reveal_strlit("-F");
    reveal_strlit("-t");
    reveal_strlit("-p");
    reveal_strlit("-J");
    reveal_strlit("-S");
    reveal_strlit("-s");
    reveal_strlit("-c");
    reveal_strlit("-A");
    reveal_strlit("-u");
    reveal_strlit("--");
    reveal_strlit(";");
    reveal_strlit("attach-session");
    reveal_strlit("switch-client");
    reveal_strlit("select-window");
    reveal_strlit("select-pane");
    reveal_strlit("capture-pane");
    reveal_strlit("rename-session");
    reveal_strlit("new-session");
    reveal_strlit("exec");
    reveal_strlit("bash");
    reveal_strlit("-lc");
    reveal_strlit("env");
    reveal_strlit("ssh");
    reveal_strlit("TMUX");
    reveal_strlit("TMUX_PANE");
    reveal_strlit("codex");
    reveal_strlit("--remote");
    reveal_strlit("resume");
    reveal_strlit("unix://");
}

/// The host under whose name the sessions of a host are listed.
pub open spec fn observed_host_text(host: Seq<char>, local_hostname: Seq<char>) -> Seq<char> {
    if is_local_host(host, local_hostname) {
        local_hostname
    } else {
        host
    }
}

/// What a failed inventory says it was doing.
pub open spec fn inventory_context(host: Seq<char>, local_hostname: Seq<char>) -> Seq<char> {
    if is_local_host(host, local_hostname) {
        "local tmux inventory"@
    } else {
        "tmux inventory on "@ + host
    }
}

/// Reads what the listing command left behind: no server means no session, any other failure
/// is one, and otherwise every non-empty line is a row. The session that was used last
/// comes first.
pub fn discover(host: &str, local_hostname: &str, outcome: &CommandOutcome) -> (r: Result<
    Vec<TmuxSession>,
    TmuxError,
>)
    ensures
        !outcome.success && says_no_server(trimmed(outcome.stderr@)) ==> (r matches Ok(sessions)
            && sessions@.len() == 0),
        !outcome.success && !says_no_server(trimmed(outcome.stderr@)) ==> (r matches Err(error)
            && error is CommandFailed && error->context@ == inventory_context(host@, local_hostname@)
            && error->message@ == failure_text(*outcome)),
        outcome.success ==> (r is Ok <==> forall|i: int|
            0 <= i < nonempty_lines(outcome.stdout@).len() ==> is_row(
                #[trigger] nonempty_lines(outcome.stdout@)[i],
            )),
        outcome.success ==> (r matches Ok(sessions) ==> exists|rows: Seq<TmuxSession>|
            #[trigger] are_rows_of(
                rows,
                observed_host_text(host@, local_hostname@),
                nonempty_lines(outcome.stdout@),
            ) && sessions@ == ranked(rows)),
        outcome.success ==> (r matches Err(error) ==> error is MalformedOutput && exists|k: int|
            #[trigger] is_first_fault(nonempty_lines(outcome.stdout@), k) && nonempty_lines(
                outcome.stdout@,
            )[k] == error->MalformedOutput_0@),
{
    let local: bool = is_local(host, local_hostname);
    if !outcome.success {
        let message: String = trim(outcome.stderr.as_str());
        if is_missing_tmux_server(message.as_str()) {
            return Ok(Vec::new());
        }
        let context: String = if local {
            "local tmux inventory".to_owned()
        } else {
            let mut context: String = "tmux inventory on ".to_owned();
            context.append(host);
            context
        };
        return Err(TmuxError::CommandFailed { context, message: failure_message(outcome) });
    }
    let observed: &str = if local { local_hostname } else { host };
    let all: Vec<String> = lines(outcome.stdout.as_str());
    let ghost keep = |line: Seq<char>| line.len() > 0;
    let ghost views = texts(all@);
    let mut sessions: Vec<TmuxSession> = Vec::new();
    let mut i: usize = 0;
    assert(views.take(0).filter(keep) =~= Seq::<Seq<char>>::empty()) by {
        reveal(Seq::filter);
    }
    while i < all.len()
        invariant
            i <= all@.len(),
            keep == (|line: Seq<char>| line.len() > 0),
            views == texts(all@),
            views == lines_of(outcome.stdout@),
            outcome.success,
            observed@ == observed_host_text(host@, local_hostname@),
            are_rows_of(sessions@, observed@, views.take(i as int).filter(keep)),
        decreases all@.len() - i,
    {
        let line: &String = &all[i];
        let ghost kept = views.take(i as int).filter(keep);
        proof {
            assert(views[i as int] == line@);
            assert(views.take(i + 1) =~= views.take(i as int).push(line@));
            views.take(i as int).lemma_filter_push(line@, keep);
        }
        if !line.as_str().is_empty() {
            match parse_session(observed, line.as_str()) {
                Ok(session) => {
                    sessions.push(session);
                    assert forall|k: int| 0 <= k < kept.push(line@).len() implies is_row_of(
                        #[trigger] sessions@[k],
                        observed@,
                        kept.push(line@)[k],
                    ) by {}
                },
                Err(error) => {
                    proof {
                        let k = kept.len() as int;
                        lemma_filter_prefix(views, i + 1, keep);
                        assert(kept.push(line@)[k] == line@);
                        assert(nonempty_lines(outcome.stdout@)[k] == line@);
                        assert forall|j: int| 0 <= j < k implies is_row(
                            #[trigger] nonempty_lines(outcome.stdout@)[j],
                        ) by {
                            assert(nonempty_lines(outcome.stdout@)[j] == kept.push(line@)[j]);
                            assert(is_row_of(sessions@[j], observed@, kept[j]));
                        }
                        assert(is_first_fault(nonempty_lines(outcome.stdout@), k));
                    }
                    return Err(error);
                },
            }
        }
        i += 1;
    }
    proof {
        assert(views.take(i as int) =~= views);
        assert forall|k: int|
            0 <= k < nonempty_lines(outcome.stdout@).len() implies is_row(
            #[trigger] nonempty_lines(outcome.stdout@)[k],
        ) by {
            assert(is_row_of(sessions@[k], observed@, views.filter(keep)[k]));
        }
    }
    let ghost rows = sessions@;
    let sorted: Vec<TmuxSession> = stable_sort(sessions);
    assert(are_rows_of(
        rows,
        observed_host_text(host@, local_hostname@),
        nonempty_lines(outcome.stdout@),
    ));
    Ok(sorted)
}

/// What a filter keeps of a prefix is a prefix of what it keeps.
proof fn lemma_filter_prefix<A>(s: Seq<A>, n: int, keep: spec_fn(A) -> bool)
    requires
        0 <= n <= s.len(),
    ensures
        s.take(n).filter(keep).len() <= s.filter(keep).len(),
        forall|k: int|
            0 <= k < s.take(n).filter(keep).len() ==> s.take(n).filter(keep)[k]
                == #[trigger] s.filter(keep)[k],
    decreases s.len() - n,
{
    if n < s.len() {
        lemma_filter_prefix(s, n + 1, keep);
        assert(s.take(n + 1) =~= s.take(n).push(s[n]));
        s.take(n).lemma_filter_push(s[n], keep);
    } else {
        assert(s.take(n) =~= s);
    }
}

// ---- commands ----

/// The arguments of a connection with a terminal.
pub open spec fn terminal_ssh(host: Seq<char>, command: Seq<char>) -> Seq<Seq<char>> {
    seq!["-t"@, "--"@, host, command]
}

fn make_terminal_ssh(host: &str, command: &str) -> (r: Vec<String>)
    ensures
        texts(r@) == terminal_ssh(host@, command@),
{
    let r: Vec<String> = owned(["-t", "--", host, command]);
    assert(texts(r@) =~= terminal_ssh(host@, command@));
    r
}

/// A command line: the program and its arguments.
pub open spec fn is_command(
    command: (&'static str, Vec<String>),
    program: Seq<char>,
    arguments: Seq<Seq<char>>,
) -> bool {
    command.0@ == program && texts(command.1@) == arguments
}

/// The command that attaches to a target: on this host it switches the client that is
/// already inside, or attaches; elsewhere it attaches through a connection.
pub fn attach_command(target: &TmuxTarget, inside_tmux: bool, local_hostname: &str) -> (r: Result<
    (&'static str, Vec<String>),
    TmuxError,
>)
    ensures
        is_local_host(target.host@, local_hostname@) ==> (r matches Ok(command) && is_command(
            command,
            "tmux"@,
            seq![
                if inside_tmux { "switch-client"@ } else { "attach-session"@ },
                "-t"@,
                target.name@,
            ],
        )),
        !is_local_host(target.host@, local_hostname@) ==> (r is Err <==> has_nul(target.name@)),
        !is_local_host(target.host@, local_hostname@) && r is Ok ==> reads_back(
            seq!["tmux"@, "attach-session"@, "-t"@, target.name@],
        ),
        r matches Err(error) ==> error == TmuxError::Quote(QuotingError::Nul),
        !is_local_host(target.host@, local_hostname@) ==> (r matches Ok(command) ==> is_command(
            command,
            "ssh"@,
            terminal_ssh(
                target.host@,
                shell_command(seq!["tmux"@, "attach-session"@, "-t"@, target.name@]),
            ),
        )),
{
    if is_local(target.host.as_str(), local_hostname) {
        let action: &str = if inside_tmux { "switch-client" } else { "attach-session" };
        let arguments: Vec<String> = owned([action, "-t", target.name.as_str()]);
        assert(texts(arguments@) =~= seq![action@, "-t"@, target.name@]);
        return Ok(("tmux", arguments));
    }
    let words: Vec<String> = owned(["tmux", "attach-session", "-t", target.name.as_str()]);
    proof {
        let expected = seq!["tmux"@, "attach-session"@, "-t"@, target.name@];
        assert(texts(words@) =~= expected);
        lemma_plain_words();
        assert(expected[3] == target.name@);
        assert(any_nul(expected) == has_nul(target.name@));
    }
    match join(&words) {
        Err(error) => Err(TmuxError::Quote(error)),
        Ok(remote) => Ok(("ssh", make_terminal_ssh(target.host.as_str(), remote.as_str()))),
    }
}

/// The words that show a pane and attach to its session.
pub open spec fn pane_words(pane: Seq<char>, action: Seq<char>, name: Seq<char>) -> Seq<Seq<char>> {
    seq![
        "select-window"@,
        "-t"@,
        pane,
        ";"@,
        "select-pane"@,
        "-t"@,
        pane,
        ";"@,
        action,
        "-t"@,
        name,
    ]
}

/// The command that attaches to the exact pane of a session. A client is switched only where
/// the session is on this host.
pub fn attach_pane_command(
    target: &TmuxTarget,
    pane: &str,
    inside_tmux: bool,
    local_hostname: &str,
) -> (r: Result<(&'static str, Vec<String>), TmuxError>)
    ensures
        is_local_host(target.host@, local_hostname@) ==> (r matches Ok(command) && is_command(
            command,
            "tmux"@,
            pane_words(
                pane@,
                if inside_tmux { "switch-client"@ } else { "attach-session"@ },
                target.name@,
            ),
        )),
        !is_local_host(target.host@, local_hostname@) ==> (r is Err <==> has_nul(target.name@)
            || has_nul(pane@)),
        !is_local_host(target.host@, local_hostname@) && r is Ok ==> reads_back(
            seq!["tmux"@] + pane_words(pane@, "attach-session"@, target.name@),
        ),
        r matches Err(error) ==> error == TmuxError::Quote(QuotingError::Nul),
        !is_local_host(target.host@, local_hostname@) ==> (r matches Ok(command) ==> is_command(
            command,
            "ssh"@,
            terminal_ssh(
                target.host@,
                shell_command(
                    seq!["tmux"@] + pane_words(pane@, "attach-session"@, target.name@),
                ),
            ),
        )),
{
    let local: bool = is_local(target.host.as_str(), local_hostname);
    let action: &str = if inside_tmux && local { "switch-client" } else { "attach-session" };
    if local {
        let arguments: Vec<String> = owned(
            [
                "select-window",
                "-t",
                pane,
                ";",
                "select-pane",
                "-t",
                pane,
                ";",
                action,
                "-t",
                target.name.as_str(),
            ],
        );
        assert(texts(arguments@) =~= pane_words(pane@, action@, target.name@));
        return Ok(("tmux", arguments));
    }
    let words: Vec<String> = owned(
        [
            "tmux",
            "select-window",
            "-t",
            pane,
            ";",
            "select-pane",
            "-t",
            pane,
            ";",
            action,
            "-t",
            target.name.as_str(),
        ],
    );
    proof {
        let expected = seq!["tmux"@] + pane_words(pane@, "attach-session"@, target.name@);
        assert(texts(words@) =~= expected);
        lemma_plain_words();
        assert(expected[3] == pane@);
        assert(expected[7] == pane@);
        assert(expected[11] == target.name@);
        assert(any_nul(expected) == (has_nul(target.name@) || has_nul(pane@)));
    }
    match join(&words) {
        Err(error) => Err(TmuxError::Quote(error)),
        Ok(remote) => Ok(("ssh", make_terminal_ssh(target.host.as_str(), remote.as_str()))),
    }
}

/// How many lines of a pane are captured: at least one and at most a thousand.
pub open spec fn capture_lines(lines: usize) -> nat {
    if lines < 1 {
        1
    } else if lines > 1_000 {
        1_000
    } else {
        lines as nat
    }
}

/// The words that print the end of a pane.
pub open spec fn capture_words(pane: Seq<char>, lines: usize) -> Seq<Seq<char>> {
    seq![
        "capture-pane"@,
        "-p"@,
        "-J"@,
        "-S"@,
        "-"@ + decimal(capture_lines(lines)),
        "-t"@,
        pane,
    ]
}

/// The command that prints the end of a pane, through a connection that asks nothing where
/// the pane is elsewhere.
pub fn capture_pane_command(
    target: &TmuxTarget,
    pane: &str,
    lines: usize,
    local_hostname: &str,
) -> (r: Result<(&'static str, Vec<String>), TmuxError>)
    ensures
        is_local_host(target.host@, local_hostname@) ==> (r matches Ok(command) && is_command(
            command,
            "tmux"@,
            capture_words(pane@, lines),
        )),
        !is_local_host(target.host@, local_hostname@) ==> (r is Err <==> has_nul(pane@)),
        !is_local_host(target.host@, local_hostname@) && r is Ok ==> reads_back(
            seq!["tmux"@] + capture_words(pane@, lines),
        ),
        r matches Err(error) ==> error == TmuxError::Quote(QuotingError::Nul),
        !is_local_host(target.host@, local_hostname@) ==> (r matches Ok(command) ==> is_command(
            command,
            "ssh"@,
            seq!["-T"@] + batch_ssh(
                target.host@,
                shell_command(seq!["tmux"@] + capture_words(pane@, lines)),
            ),
        )),
{
    let bounded: u64 = if lines < 1 {
        1
    } else if lines > 1_000 {
        1_000
    } else {
        lines as u64
    };
    let mut start: String = "-".to_owned();
    start.append(decimal_of(bounded).as_str());
    if is_local(target.host.as_str(), local_hostname) {
        let arguments: Vec<String> = owned(
            ["capture-pane", "-p", "-J", "-S", start.as_str(), "-t", pane],
        );
        assert(texts(arguments@) =~= capture_words(pane@, lines));
        return Ok(("tmux", arguments));
    }
    let words: Vec<String> = owned(
        ["tmux", "capture-pane", "-p", "-J", "-S", start.as_str(), "-t", pane],
    );
    proof {
        let expected = seq!["tmux"@] + capture_words(pane@, lines);
        assert(texts(words@) =~= expected);
        lemma_plain_words();
        lemma_decimal_has_no_nul(capture_lines(lines));
        reveal_strlit("-");
        let d = decimal(capture_lines(lines));
        assert forall|i: int| 0 <= i < start@.len() implies start@[i] != '\0' by {
            if i > 0 {
                assert(start@[i] == d[i - 1]);
            }
        }
        assert(expected[7] == pane@);
        assert(any_nul(expected) == has_nul(pane@));
    }
    match join(&words) {
        Err(error) => Err(TmuxError::Quote(error)),
        Ok(remote) => {
            let arguments: Vec<String> = owned(
                [
                    "-T",
                    "-o",
                    "BatchMode=yes",
                    "-o",
                    "ConnectTimeout=5",
                    "-o",
                    "ConnectionAttempts=1",
                    "--",
                    target.host.as_str(),
                    remote.as_str(),
                ],
            );
            assert(texts(arguments@) =~= seq!["-T"@] + batch_ssh(target.host@, remote@));
            Ok(("ssh", arguments))
        },
    }
}

/// A character that a captured pane may hold: no control character but line feed and tab.
pub open spec fn is_shown(c: char) -> bool {
    c == '\n' || c == '\t' || !is_control_char(c)
}

/// The capture of a pane without terminal control characters and trailing white space.
pub fn sanitize_capture(capture: &str) -> (r: String)
    ensures
        r@ == trimmed_end(capture@.filter(|c: char| is_shown(c))),
{
    let ghost keep = |c: char| is_shown(c);
    let chars: Vec<char> = chars_of(capture);
    let mut kept: Vec<char> = Vec::new();
    let mut i: usize = 0;
    assert(chars@.take(0).filter(keep) =~= Seq::<char>::empty()) by {
        reveal(Seq::filter);
    }
    while i < chars.len()
        invariant
            i <= chars@.len(),
            keep == (|c: char| is_shown(c)),
            kept@ == chars@.take(i as int).filter(keep),
        decreases chars@.len() - i,
    {
        let c: char = chars[i];
        proof {
            assert(chars@.take(i + 1) =~= chars@.take(i as int).push(c));
            chars@.take(i as int).lemma_filter_push(c, keep);
        }
        if c == '\n' || c == '\t' || !is_control(c) {
            kept.push(c);
        }
        i += 1;
    }
    assert(chars@.take(i as int) =~= capture@);
    let mut end: usize = kept.len();
    assert(kept@.take(end as int) =~= kept@);
    while end > 0 && is_whitespace(kept[end - 1])
        invariant
            end <= kept@.len(),
            trimmed_end(kept@.take(end as int)) == trimmed_end(kept@),
        decreases end,
    {
        assert(kept@.take(end as int).drop_last() =~= kept@.take(end - 1));
        end -= 1;
    }
    let r: String = string_of(&kept, 0, end);
    assert(r@ =~= kept@.take(end as int));
    r
}

/// The command that renames a session.
pub fn rename_session_command(target: &TmuxTarget, desired: &str, local_hostname: &str) -> (r: Result<
    (&'static str, Vec<String>),
    TmuxError,
>)
    ensures
        is_local_host(target.host@, local_hostname@) ==> (r matches Ok(command) && is_command(
            command,
            "tmux"@,
            seq!["rename-session"@, "-t"@, target.name@, desired@],
        )),
        !is_local_host(target.host@, local_hostname@) ==> (r is Err <==> has_nul(target.name@)
            || has_nul(desired@)),
        !is_local_host(target.host@, local_hostname@) && r is Ok ==> reads_back(
            seq!["tmux"@, "rename-session"@, "-t"@, target.name@, desired@],
        ),
        r matches Err(error) ==> error == TmuxError::Quote(QuotingError::Nul),
        !is_local_host(target.host@, local_hostname@) ==> (r matches Ok(command) ==> is_command(
            command,
            "ssh"@,
            seq![
                "-T"@,
                "--"@,
                target.host@,
                shell_command(seq!["tmux"@, "rename-session"@, "-t"@, target.name@, desired@]),
            ],
        )),
{
    if is_local(target.host.as_str(), local_hostname) {
        let arguments: Vec<String> = owned(
            ["rename-session", "-t", target.name.as_str(), desired],
        );
        assert(texts(arguments@) =~= seq!["rename-session"@, "-t"@, target.name@, desired@]);
        return Ok(("tmux", arguments));
    }
    let words: Vec<String> = owned(["tmux", "rename-session", "-t", target.name.as_str(), desired]);
    proof {
        let expected = seq!["tmux"@, "rename-session"@, "-t"@, target.name@, desired@];
        assert(texts(words@) =~= expected);
        lemma_plain_words();
        assert(expected[3] == target.name@);
        assert(expected[4] == desired@);
        assert(any_nul(expected) == (has_nul(target.name@) || has_nul(desired@)));
    }
    match join(&words) {
        Err(error) => Err(TmuxError::Quote(error)),
        Ok(remote) => {
            let arguments: Vec<String> = owned(["-T", "--", target.host.as_str(), remote.as_str()]);
            assert(texts(arguments@) =~= seq!["-T"@, "--"@, target.host@, remote@]);
            Ok(("ssh", arguments))
        },
    }
}

/// The words that run a command in a login shell.
pub open spec fn login_words(command: Seq<char>) -> Seq<Seq<char>> {
    seq!["exec"@, "bash"@, "-lc"@, command]
}

/// The words that create a session with a command, or attach to it where it exists.
pub open spec fn new_session_words(
    flag: Seq<char>,
    name: Seq<char>,
    cwd: Seq<char>,
    login: Seq<char>,
) -> Seq<Seq<char>> {
    seq!["new-session"@, flag, "-s"@, name, "-c"@, cwd, login]
}

/// The arguments of a local resume: inside the multiplexer the session is created detached
/// and the client switched to it.
pub open spec fn local_resume(
    inside_tmux: bool,
    name: Seq<char>,
    cwd: Seq<char>,
    login: Seq<char>,
) -> Seq<Seq<char>> {
    if inside_tmux {
        new_session_words("-Ad"@, name, cwd, login) + seq![";"@, "switch-client"@, "-t"@, name]
    } else {
        new_session_words("-A"@, name, cwd, login)
    }
}

/// The command that opens a session with a native command, or attaches to it where it runs.
pub fn resume_command_args(
    target: &TmuxTarget,
    cwd: &str,
    command: &str,
    inside_tmux: bool,
    local_hostname: &str,
) -> (r: Result<(&'static str, Vec<String>), TmuxError>)
    ensures
        r is Ok ==> reads_back(login_words(command@)),
        !is_local_host(target.host@, local_hostname@) && r is Ok ==> reads_back(
            seq!["tmux"@] + new_session_words(
                "-A"@,
                target.name@,
                cwd@,
                shell_command(login_words(command@)),
            ),
        ),
        r matches Err(error) ==> error == TmuxError::Quote(QuotingError::Nul),
        r is Err <==> has_nul(command@) || (!is_local_host(target.host@, local_hostname@) && (
        has_nul(target.name@) || has_nul(cwd@))),
        is_local_host(target.host@, local_hostname@) ==> (r matches Ok(line) ==> is_command(
            line,
            "tmux"@,
            local_resume(
                inside_tmux,
                target.name@,
                cwd@,
                shell_command(login_words(command@)),
            ),
        )),
        !is_local_host(target.host@, local_hostname@) ==> (r matches Ok(line) ==> is_command(
            line,
            "ssh"@,
            terminal_ssh(
                target.host@,
                shell_command(
                    seq!["tmux"@] + new_session_words(
                        "-A"@,
                        target.name@,
                        cwd@,
                        shell_command(login_words(command@)),
                    ),
                ),
            ),
        )),
{
    let login: Vec<String> = owned(["exec", "bash", "-lc", command]);
    proof {
        lemma_plain_words();
        assert(texts(login@) =~= login_words(command@));
        assert(login_words(command@)[3] == command@);
        assert(any_nul(login_words(command@)) == has_nul(command@));
    }
    let login_command: String = match join(&login) {
        Ok(command) => command,
        Err(error) => {
            return Err(TmuxError::Quote(error));
        },
    };
    if is_local(target.host.as_str(), local_hostname) {
        if inside_tmux {
            let arguments: Vec<String> = owned(
                [
                    "new-session",
                    "-Ad",
                    "-s",
                    target.name.as_str(),
                    "-c",
                    cwd,
                    login_command.as_str(),
                    ";",
                    "switch-client",
                    "-t",
                    target.name.as_str(),
                ],
            );
            assert(texts(arguments@) =~= local_resume(true, target.name@, cwd@, login_command@));
            return Ok(("tmux", arguments));
        }
        let arguments: Vec<String> = owned(
            [
                "new-session",
                "-A",
                "-s",
                target.name.as_str(),
                "-c",
                cwd,
                login_command.as_str(),
            ],
        );
        assert(texts(arguments@) =~= local_resume(false, target.name@, cwd@, login_command@));
        return Ok(("tmux", arguments));
    }
    let words: Vec<String> = owned(
        [
            "tmux",
            "new-session",
            "-A",
            "-s",
            target.name.as_str(),
            "-c",
            cwd,
            login_command.as_str(),
        ],
    );
    proof {
        let expected = seq!["tmux"@] + new_session_words(
            "-A"@,
            target.name@,
            cwd@,
            login_command@,
        );
        assert(texts(words@) =~= expected);
        assert(expected[4] == target.name@);
        assert(expected[6] == cwd@);
        assert(any_nul(expected) == (has_nul(target.name@) || has_nul(cwd@)));
    }
    match join(&words) {
        Err(error) => Err(TmuxError::Quote(error)),
        Ok(remote) => Ok(("ssh", make_terminal_ssh(target.host.as_str(), remote.as_str()))),
    }
}

/// The words that resume a Codex thread over its app-server's socket.
pub open spec fn codex_resume_words(
    socket: Seq<char>,
    native_session_id: Seq<char>,
) -> Seq<Seq<char>> {
    seq![
        "exec"@,
        "codex"@,
        "--remote"@,
        "unix://"@ + socket,
        "resume"@,
        native_session_id,
    ]
}

/// The command that opens a Codex thread in a session, or attaches to it where it runs.
pub fn resume_codex_command(
    target: &TmuxTarget,
    cwd: &str,
    native_session_id: &str,
    app_server_socket: &str,
    inside_tmux: bool,
    local_hostname: &str,
) -> (r: Result<(&'static str, Vec<String>), TmuxError>)
    ensures
        r is Ok ==> reads_back(codex_resume_words(app_server_socket@, native_session_id@)),
        r is Ok ==> reads_back(
            login_words(shell_command(codex_resume_words(app_server_socket@, native_session_id@))),
        ),
        !is_local_host(target.host@, local_hostname@) && r is Ok ==> reads_back(
            seq!["tmux"@] + new_session_words(
                "-A"@,
                target.name@,
                cwd@,
                shell_command(
                    login_words(
                        shell_command(codex_resume_words(app_server_socket@, native_session_id@)),
                    ),
                ),
            ),
        ),
        r matches Err(error) ==> error == TmuxError::Quote(QuotingError::Nul),
        r is Err <==> has_nul(native_session_id@) || has_nul(app_server_socket@) || (
        !is_local_host(target.host@, local_hostname@) && (has_nul(target.name@) || has_nul(cwd@))),
        is_local_host(target.host@, local_hostname@) ==> (r matches Ok(line) ==> is_command(
            line,
            "tmux"@,
            local_resume(
                inside_tmux,
                target.name@,
                cwd@,
                shell_command(
                    login_words(
                        shell_command(codex_resume_words(app_server_socket@, native_session_id@)),
                    ),
                ),
            ),
        )),
        !is_local_host(target.host@, local_hostname@) ==> (r matches Ok(line) ==> is_command(
            line,
            "ssh"@,
            terminal_ssh(
                target.host@,
                shell_command(
                    seq!["tmux"@] + new_session_words(
                        "-A"@,
                        target.name@,
                        cwd@,
                        shell_command(
                            login_words(
                                shell_command(
                                    codex_resume_words(app_server_socket@, native_session_id@),
                                ),
                            ),
                        ),
                    ),
                ),
            ),
        )),
{
    let mut endpoint: String = "unix://".to_owned();
    endpoint.append(app_server_socket);
    let words: Vec<String> = owned(
        ["exec", "codex", "--remote", endpoint.as_str(), "resume", native_session_id],
    );
    proof {
        lemma_plain_words();
        let expected = codex_resume_words(app_server_socket@, native_session_id@);
        assert(texts(words@) =~= expected);
        let prefix = "unix://"@;
        assert(has_nul(endpoint@) == has_nul(app_server_socket@)) by {
            if has_nul(app_server_socket@) {
                let k = choose|k: int|
                    0 <= k < app_server_socket@.len() && app_server_socket@[k] == '\0';
                assert(endpoint@[prefix.len() + k] == '\0');
            }
            if has_nul(endpoint@) {
                let k = choose|k: int| 0 <= k < endpoint@.len() && endpoint@[k] == '\0';
                if k < prefix.len() {
                    assert(prefix[k] == '\0');
                } else {
                    assert(app_server_socket@[k - prefix.len()] == '\0');
                }
            }
        }
        assert(expected[3] == endpoint@);
        assert(expected[5] == native_session_id@);
        assert(any_nul(expected) == (has_nul(native_session_id@) || has_nul(app_server_socket@)));
    }
    match join(&words) {
        Err(error) => Err(TmuxError::Quote(error)),
        Ok(command) => resume_command_args(
            target,
            cwd,
            command.as_str(),
            inside_tmux,
            local_hostname,
        ),
    }
}

// ---- hand-over ----

/// A hand-over of the terminal: the command, and what it is called where it fails.
#[derive(Debug, Eq, PartialEq)]
pub struct Handoff {
    pub program: &'static str,
    pub arguments: Vec<String>,
    pub context: String,
}

/// The hand-over runs the command under the given name.
pub open spec fn hands_over(
    r: Result<Handoff, TmuxError>,
    command: Result<(&'static str, Vec<String>), TmuxError>,
    context: Seq<char>,
) -> bool {
    match (r, command) {
        (Ok(handoff), Ok(command)) => handoff.program == command.0 && handoff.arguments
            == command.1 && handoff.context@ == context,
        (Err(error), Err(expected)) => error == expected,
        _ => false,
    }
}

fn hand_over(
    command: Result<(&'static str, Vec<String>), TmuxError>,
    context: String,
) -> (r: Result<Handoff, TmuxError>)
    ensures
        hands_over(r, command, context@),
{
    match command {
        Ok((program, arguments)) => Ok(Handoff { program, arguments, context }),
        Err(error) => Err(error),
    }
}

/// What a hand-over's end means.
pub fn handed_over(handoff: &Handoff, success: bool, status: &str) -> (r: Result<(), TmuxError>)
    ensures
        r is Ok <==> success,
        r matches Err(error) ==> error is CommandFailed && error->context@ == handoff.context@
            && error->message@ == status@,
{
    if success {
        Ok(())
    } else {
        Err(
            TmuxError::CommandFailed {
                context: handoff.context.clone(),
                message: status.to_owned(),
            },
        )
    }
}

/// The hand-over that attaches to a session of the multiplexer.
pub fn attach(session: &str, inside_tmux: bool, local_hostname: &str) -> (r: Result<
    Handoff,
    TmuxError,
>)
    ensures
        (forall|host: Seq<char>, name: Seq<char>| !#[trigger] names_target(session@, host, name))
            ==> (r matches Err(error) && error is InvalidSessionId && error->InvalidSessionId_0@
            == session@),
        forall|host: Seq<char>, name: Seq<char>| #[trigger]
            names_target(session@, host, name) ==> match r {
                Ok(handoff) => handoff.context@ == "attachment to "@ + target_id(host, name) && (
                if is_local_host(host, local_hostname@) {
                    handoff.program@ == "tmux"@ && texts(handoff.arguments@) == seq![
                        if inside_tmux { "switch-client"@ } else { "attach-session"@ },
                        "-t"@,
                        name,
                    ]
                } else {
                    handoff.program@ == "ssh"@ && texts(handoff.arguments@) == terminal_ssh(
                        host,
                        shell_command(seq!["tmux"@, "attach-session"@, "-t"@, name]),
                    )
                }),
                Err(error) => error == TmuxError::Quote(QuotingError::Nul) && !is_local_host(
                    host,
                    local_hostname@,
                ) && has_nul(name),
            },
{
    match parse_target(session) {
        Err(error) => Err(error),
        Ok(target) => {
            proof {
                assert forall|host: Seq<char>, name: Seq<char>| #[trigger]
                    names_target(session@, host, name) implies host == target.host@ && name
                    == target.name@ by {
                    lemma_one_target(session@, host, name, target.host@, target.name@);
                }
            }
            let mut context: String = "attachment to ".to_owned();
            context.append(target.id().as_str());
            hand_over(attach_command(&target, inside_tmux, local_hostname), context)
        },
    }
}

/// A session names one target at most.
proof fn lemma_one_target(
    session: Seq<char>,
    host: Seq<char>,
    name: Seq<char>,
    other_host: Seq<char>,
    other_name: Seq<char>,
)
    requires
        names_target(session, host, name),
        names_target(session, other_host, other_name),
    ensures
        host == other_host,
        name == other_name,
{
    if session.contains(':') {
        target_ids_round_trip(host, name);
    } else {
        if session == target_id(host, name) {
            assert(session[host.len() as int] == ':');
        }
        if session == target_id(other_host, other_name) {
            assert(session[other_host.len() as int] == ':');
        }
    }
}

/// The hand-over that attaches to the exact pane of a session.
pub fn attach_pane(
    host: &str,
    session_name: &str,
    pane: &str,
    inside_tmux: bool,
    local_hostname: &str,
) -> (r: Result<Handoff, TmuxError>)
    ensures
        match r {
            Ok(handoff) => handoff.context@ == "attachment to "@ + target_id(host@, session_name@)
                + " pane "@ + pane@ && (if is_local_host(host@, local_hostname@) {
                handoff.program@ == "tmux"@ && texts(handoff.arguments@) == pane_words(
                    pane@,
                    if inside_tmux { "switch-client"@ } else { "attach-session"@ },
                    session_name@,
                )
            } else {
                handoff.program@ == "ssh"@ && texts(handoff.arguments@) == terminal_ssh(
                    host@,
                    shell_command(
                        seq!["tmux"@] + pane_words(pane@, "attach-session"@, session_name@),
                    ),
                )
            }),
            Err(error) => error == TmuxError::Quote(QuotingError::Nul),
        },
        r is Err <==> !is_local_host(host@, local_hostname@) && (has_nul(session_name@) || has_nul(
            pane@,
        )),
{
    let target = TmuxTarget { host: host.to_owned(), name: session_name.to_owned() };
    let mut context: String = "attachment to ".to_owned();
    context.append(target.id().as_str());
    context.append(" pane ");
    context.append(pane);
    hand_over(attach_pane_command(&target, pane, inside_tmux, local_hostname), context)
}

/// The hand-over that opens a session with a native command.
pub fn resume_command(
    host: &str,
    session_name: &str,
    cwd: &str,
    command: &str,
    inside_tmux: bool,
    local_hostname: &str,
) -> (r: Result<Handoff, TmuxError>)
    ensures
        r is Err <==> has_nul(command@) || (!is_local_host(host@, local_hostname@) && (has_nul(
            session_name@,
        ) || has_nul(cwd@))),
        match r {
            Ok(handoff) => handoff.context@ == "resuming session in "@ + target_id(
                host@,
                session_name@,
            ) && (if is_local_host(host@, local_hostname@) {
                handoff.program@ == "tmux"@ && texts(handoff.arguments@) == local_resume(
                    inside_tmux,
                    session_name@,
                    cwd@,
                    shell_command(login_words(command@)),
                )
            } else {
                handoff.program@ == "ssh"@ && texts(handoff.arguments@) == terminal_ssh(
                    host@,
                    shell_command(
                        seq!["tmux"@] + new_session_words(
                            "-A"@,
                            session_name@,
                            cwd@,
                            shell_command(login_words(command@)),
                        ),
                    ),
                )
            }),
            Err(error) => error == TmuxError::Quote(QuotingError::Nul),
        },
{
    let target = TmuxTarget { host: host.to_owned(), name: session_name.to_owned() };
    let mut context: String = "resuming session in ".to_owned();
    context.append(target.id().as_str());
    hand_over(resume_command_args(&target, cwd, command, inside_tmux, local_hostname), context)
}

/// The hand-over that opens a Codex thread.
pub fn resume_codex(
    host: &str,
    session_name: &str,
    cwd: &str,
    native_session_id: &str,
    app_server_socket: &str,
    inside_tmux: bool,
    local_hostname: &str,
) -> (r: Result<Handoff, TmuxError>)
    ensures
        r is Err <==> has_nul(native_session_id@) || has_nul(app_server_socket@) || (
        !is_local_host(host@, local_hostname@) && (has_nul(session_name@) || has_nul(cwd@))),
        match r {
            Ok(handoff) => handoff.context@ == "resuming Codex session "@ + native_session_id@
                + " in "@ + target_id(host@, session_name@) && ({
                let login = shell_command(
                    login_words(
                        shell_command(codex_resume_words(app_server_socket@, native_session_id@)),
                    ),
                );
                if is_local_host(host@, local_hostname@) {
                    handoff.program@ == "tmux"@ && texts(handoff.arguments@) == local_resume(
                        inside_tmux,
                        session_name@,
                        cwd@,
                        login,
                    )
                } else {
                    handoff.program@ == "ssh"@ && texts(handoff.arguments@) == terminal_ssh(
                        host@,
                        shell_command(
                            seq!["tmux"@] + new_session_words("-A"@, session_name@, cwd@, login),
                        ),
                    )
                }
            }),
            Err(error) => error == TmuxError::Quote(QuotingError::Nul),
        },
{
    let target = TmuxTarget { host: host.to_owned(), name: session_name.to_owned() };
    let mut context: String = "resuming Codex session ".to_owned();
    context.append(native_session_id);
    context.append(" in ");
    context.append(target.id().as_str());
    hand_over(
        resume_codex_command(
            &target,
            cwd,
            native_session_id,
            app_server_socket,
            inside_tmux,
            local_hostname,
        ),
        context,
    )
}

/// What the capture of a pane's end means.
pub fn capture_pane(host: &str, session_name: &str, pane: &str, outcome: &CommandOutcome) -> (r:
    Result<String, TmuxError>)
    ensures
        r is Ok <==> outcome.success,
        r matches Ok(capture) ==> capture@ == trimmed_end(
            outcome.stdout@.filter(|c: char| is_shown(c)),
        ),
        r matches Err(error) ==> error is CommandFailed && error->context@ == "capturing "@
            + target_id(host@, session_name@) + " pane "@ + pane@ && error->message@
            == failure_text(*outcome),
{
    if outcome.success {
        return Ok(sanitize_capture(outcome.stdout.as_str()));
    }
    let target = TmuxTarget { host: host.to_owned(), name: session_name.to_owned() };
    let mut context: String = "capturing ".to_owned();
    context.append(target.id().as_str());
    context.append(" pane ");
    context.append(pane);
    Err(TmuxError::CommandFailed { context, message: failure_message(outcome) })
}

/// The command that renames a session, where its name is not the desired one already.
pub fn rename_session(host: &str, current: &str, desired: &str, local_hostname: &str) -> (r: Result<
    Option<(&'static str, Vec<String>)>,
    TmuxError,
>)
    ensures
        current@ == desired@ ==> r == Ok::<
            Option<(&'static str, Vec<String>)>,
            TmuxError,
        >(None),
        current@ != desired@ ==> (r is Err <==> !is_local_host(host@, local_hostname@) && (has_nul(
            current@,
        ) || has_nul(desired@))),
        current@ != desired@ ==> match r {
            Ok(Some(command)) => if is_local_host(host@, local_hostname@) {
                is_command(command, "tmux"@, seq!["rename-session"@, "-t"@, current@, desired@])
            } else {
                is_command(
                    command,
                    "ssh"@,
                    seq![
                        "-T"@,
                        "--"@,
                        host@,
                        shell_command(
                            seq!["tmux"@, "rename-session"@, "-t"@, current@, desired@],
                        ),
                    ],
                )
            },
            Ok(None) => false,
            Err(error) => error == TmuxError::Quote(QuotingError::Nul),
        },
{
    if same(current, desired) {
        return Ok(None);
    }
    let target = TmuxTarget { host: host.to_owned(), name: current.to_owned() };
    match rename_session_command(&target, desired, local_hostname) {
        Ok(command) => Ok(Some(command)),
        Err(error) => Err(error),
    }
}

/// What the end of a renaming means.
pub fn renamed_session(host: &str, current: &str, desired: &str, outcome: &CommandOutcome) -> (r:
    Result<(), TmuxError>)
    ensures
        r is Ok <==> outcome.success,
        r matches Err(error) ==> error is CommandFailed && error->context@ == "renaming "@
            + target_id(host@, current@) + " to "@ + desired@ && error->message@ == failure_text(
            *outcome,
        ),
{
    if outcome.success {
        return Ok(());
    }
    let target = TmuxTarget { host: host.to_owned(), name: current.to_owned() };
    let mut context: String = "renaming ".to_owned();
    context.append(target.id().as_str());
    context.append(" to ");
    context.append(desired);
    Err(TmuxError::CommandFailed { context, message: failure_message(outcome) })
}

/// The client that opened the picker: the one named in the environment, where it is not
/// empty.
pub fn named_client(environment: Option<String>) -> (r: Option<String>)
    ensures
        r == (if environment matches Some(name) && name@.len() > 0 {
            environment
        } else {
            None
        }),
{
    match environment {
        Some(name) => if name.as_str().is_empty() {
            None
        } else {
            Some(name)
        },
        None => None,
    }
}

/// The client that opened the picker, as the multiplexer names it.
pub fn origin_client(outcome: &CommandOutcome) -> (r: Result<String, TmuxError>)
    ensures
        r is Ok <==> outcome.success && trimmed(outcome.stdout@).len() > 0,
        r matches Ok(client) ==> client@ == trimmed(outcome.stdout@),
        r matches Err(error) ==> error is CommandFailed && error->context@
            == "finding the originating tmux client"@ && error->message@ == outcome.stderr@,
{
    let client: String = trim(outcome.stdout.as_str());
    if !outcome.success || client.as_str().is_empty() {
        return Err(
            TmuxError::CommandFailed {
                context: "finding the originating tmux client".to_owned(),
                message: outcome.stderr.clone(),
            },
        );
    }
    Ok(client)
}

/// The arguments with the client named behind each `switch-client` that begins a command.
pub open spec fn targeted(arguments: Seq<Seq<char>>, client: Seq<char>) -> Seq<Seq<char>>
    decreases arguments.len(),
{
    if arguments.len() == 0 {
        Seq::empty()
    } else {
        let before = targeted(arguments.drop_last(), client).push(arguments.last());
        if arguments.last() == "switch-client"@ && (arguments.len() == 1 || arguments[arguments.len()
            - 2] == ";"@) {
            before.push("-c"@).push(client)
        } else {
            before
        }
    }
}

/// Names the client behind each `switch-client` that begins a command.
pub fn target_client(arguments: &Vec<String>, client: &str) -> (r: Vec<String>)
    ensures
        texts(r@) == targeted(texts(arguments@), client@),
{
    let mut r: Vec<String> = Vec::new();
    let ghost views = texts(arguments@);
    let mut i: usize = 0;
    assert(views.take(0) =~= Seq::<Seq<char>>::empty());
    assert(texts(r@) =~= Seq::<Seq<char>>::empty());
    while i < arguments.len()
        invariant
            i <= arguments@.len(),
            views == texts(arguments@),
            texts(r@) == targeted(views.take(i as int), client@),
        decreases arguments@.len() - i,
    {
        let argument: String = arguments[i].clone();
        proof {
            let next = views.take(i + 1);
            assert(next.drop_last() =~= views.take(i as int));
            assert(next.last() == argument@);
            assert(i > 0 ==> next[next.len() - 2] == arguments@[i - 1]@);
            lemma_texts_push(r@, argument);
        }
        let begins: bool = i == 0 || same(arguments[i - 1].as_str(), ";");
        let switches: bool = same(argument.as_str(), "switch-client") && begins;
        r.push(argument);
        if switches {
            let flag: String = "-c".to_owned();
            proof {
                lemma_texts_push(r@, flag);
            }
            r.push(flag);
            let name: String = client.to_owned();
            proof {
                lemma_texts_push(r@, name);
            }
            r.push(name);
        }
        i += 1;
    }
    assert(views.take(i as int) =~= views);
    r
}

/// The words that connect outside the multiplexer.
pub open spec fn outside_ssh_words(arguments: Seq<Seq<char>>) -> Seq<Seq<char>> {
    seq!["env"@, "-u"@, "TMUX"@, "-u"@, "TMUX_PANE"@, "ssh"@] + arguments
}

/// The words that return to a session on a server's socket.
pub open spec fn return_words(socket: Seq<char>, session: Seq<char>) -> Seq<Seq<char>> {
    seq![
        "exec"@,
        "env"@,
        "-u"@,
        "TMUX"@,
        "-u"@,
        "TMUX_PANE"@,
        "tmux"@,
        "-S"@,
        socket,
        "attach-session"@,
        "-t"@,
        session,
    ]
}

/// The command that replaces a client by a connection, and brings it back to its session on
/// its own socket when the connection ends, however it ends.
pub fn remote_client_command(arguments: &Vec<String>, session: &str, socket: &str) -> (r: Result<
    String,
    TmuxError,
>)
    ensures
        r is Ok ==> reads_back(outside_ssh_words(texts(arguments@))) && reads_back(
            return_words(socket@, session@),
        ),
        r matches Err(error) ==> error == TmuxError::Quote(QuotingError::Nul),
        r is Err <==> any_nul(texts(arguments@)) || has_nul(session@) || has_nul(socket@),
        r matches Ok(command) ==> command@ == shell_command(outside_ssh_words(texts(arguments@)))
            + "; status=$?; if [ \"$status\" -ne 0 ]; then printf '\\nRollcall: SSH exited with status %s. Press Enter to return to tmux.\\n' \"$status\"; read -r reply; fi; "@
            + shell_command(return_words(socket@, session@)),
{
    let mut words: Vec<String> = owned(["env", "-u", "TMUX", "-u", "TMUX_PANE", "ssh"]);
    let ghost head = texts(words@);
    let mut i: usize = 0;
    assert(texts(arguments@.take(0)) =~= Seq::<Seq<char>>::empty());
    assert(texts(words@) =~= head + texts(arguments@.take(0)));
    while i < arguments.len()
        invariant
            i <= arguments@.len(),
            texts(words@) == head + texts(arguments@.take(i as int)),
        decreases arguments@.len() - i,
    {
        let word: String = arguments[i].clone();
        proof {
            lemma_texts_push(words@, word);
            assert(arguments@.take(i + 1) =~= arguments@.take(i as int).push(word));
            lemma_texts_push(arguments@.take(i as int), word);
            assert(head + texts(arguments@.take(i as int)).push(word@) =~= (head + texts(
                arguments@.take(i as int),
            )).push(word@));
        }
        words.push(word);
        i += 1;
    }
    proof {
        assert(arguments@.take(i as int) =~= arguments@);
        let expected = outside_ssh_words(texts(arguments@));
        assert(texts(words@) =~= expected);
        lemma_plain_words();
        assert(any_nul(expected) == any_nul(texts(arguments@))) by {
            if any_nul(texts(arguments@)) {
                let k = choose|k: int|
                    0 <= k < texts(arguments@).len() && has_nul(#[trigger] texts(arguments@)[k]);
                assert(expected[k + 6] == texts(arguments@)[k]);
            }
            if any_nul(expected) {
                let k = choose|k: int| 0 <= k < expected.len() && has_nul(#[trigger] expected[k]);
                if k >= 6 {
                    assert(texts(arguments@)[k - 6] == expected[k]);
                }
            }
        }
    }
    let connect: String = match join(&words) {
        Ok(command) => command,
        Err(error) => {
            return Err(TmuxError::Quote(error));
        },
    };
    let back: Vec<String> = owned(
        [
            "exec",
            "env",
            "-u",
            "TMUX",
            "-u",
            "TMUX_PANE",
            "tmux",
            "-S",
            socket,
            "attach-session",
            "-t",
            session,
        ],
    );
    proof {
        let expected = return_words(socket@, session@);
        assert(texts(back@) =~= expected);
        assert(expected[8] == socket@);
        assert(expected[11] == session@);
        assert(any_nul(expected) == (has_nul(session@) || has_nul(socket@)));
    }
    match join(&back) {
        Err(error) => Err(TmuxError::Quote(error)),
        Ok(back) => {
            let mut r: String = connect;
            r.append(
                "; status=$?; if [ \"$status\" -ne 0 ]; then printf '\\nRollcall: SSH exited with status %s. Press Enter to return to tmux.\\n' \"$status\"; read -r reply; fi; ",
            );
            r.append(back.as_str());
            Ok(r)
        },
    }
}

/// What runs a hand-over.
#[derive(Debug, Eq, PartialEq)]
pub enum AttachmentPlan {
    /// Run the command.
    Run { program: &'static str, arguments: Vec<String> },
    /// List the clients, and let the connection take the place of this one.
    ReplaceClient { client: String, arguments: Vec<String> },
}

/// The arguments of a connection with the remote command run in a login shell, which is where
/// a host may set the multiplexer's socket and the search path.
pub open spec fn with_login_shell(arguments: Seq<Seq<char>>) -> Seq<Seq<char>> {
    if arguments.len() == 0 {
        arguments
    } else {
        arguments.drop_last().push(
            shell_command(seq!["bash"@, "-lc"@, arguments.last()]),
        )
    }
}

/// Decides how a hand-over is run. A picker in a popup names its client: a connection then
/// takes the place of that client, and a local switch is aimed at it.
pub fn plan_attachment(
    program: &'static str,
    arguments: &Vec<String>,
    popup_client: Option<String>,
    inside_tmux: bool,
) -> (r: Result<AttachmentPlan, TmuxError>)
    ensures
        r is Ok && program@ == "ssh"@ && arguments@.len() > 0 ==> reads_back(
            seq!["bash"@, "-lc"@, arguments@.last()@],
        ),
        r matches Err(error) ==> error == TmuxError::Quote(QuotingError::Nul),
        r is Err <==> program@ == "ssh"@ && arguments@.len() > 0 && has_nul(arguments@.last()@),
        r matches Ok(plan) ==> (if program@ == "ssh"@ {
            if popup_client is Some && inside_tmux {
                plan matches AttachmentPlan::ReplaceClient { client, arguments: rest } && client@
                    == popup_client->0@ && texts(rest@) == with_login_shell(texts(arguments@))
            } else {
                plan matches AttachmentPlan::Run { program: p, arguments: rest } && p@ == program@
                    && texts(rest@) == with_login_shell(texts(arguments@))
            }
        } else {
            plan matches AttachmentPlan::Run { program: p, arguments: rest } && p@ == program@
                && texts(rest@) == (if program@ == "tmux"@ && popup_client is Some {
                targeted(texts(arguments@), popup_client->0@)
            } else {
                texts(arguments@)
            })
        }),
{
    let mut rest: Vec<String> = clone_strings(arguments);
    if same(program, "ssh") {
        let n: usize = rest.len();
        if n > 0 {
            let words: Vec<String> = owned(["bash", "-lc", rest[n - 1].as_str()]);
            let ghost last = arguments@.last()@;
            proof {
                lemma_plain_words();
                let expected = seq!["bash"@, "-lc"@, last];
                assert(texts(words@) =~= expected);
                assert(expected[2] == last);
                assert(any_nul(expected) == has_nul(last));
            }
            match join(&words) {
                Ok(command) => {
                    rest.set(n - 1, command);
                    proof {
                        let views = texts(arguments@);
                        assert(views.last() == last);
                        assert(texts(rest@) =~= with_login_shell(views));
                    }
                },
                Err(error) => {
                    return Err(TmuxError::Quote(error));
                },
            }
        }
        if let Some(client) = popup_client {
            if inside_tmux {
                return Ok(AttachmentPlan::ReplaceClient { client, arguments: rest });
            }
        }
        return Ok(AttachmentPlan::Run { program, arguments: rest });
    }
    if same(program, "tmux") {
        if let Some(client) = popup_client {
            let arguments: Vec<String> = target_client(&rest, client.as_str());
            return Ok(AttachmentPlan::Run { program, arguments });
        }
    }
    Ok(AttachmentPlan::Run { program, arguments: rest })
}

/// A line of the client list: the client's name, its session and its server's socket, the
/// last of which may hold tabs.
pub open spec fn is_client_line(
    line: Seq<char>,
    client: Seq<char>,
    session: Seq<char>,
    socket: Seq<char>,
) -> bool {
    &&& !client.contains('\t')
    &&& !session.contains('\t')
    &&& line == client + seq!['\t'] + (session + seq!['\t'] + socket)
}

/// Some line of the list is the client's.
pub open spec fn lists_client(listing: Seq<Seq<char>>, client: Seq<char>) -> bool {
    exists|i: int, session: Seq<char>, socket: Seq<char>|
        0 <= i < listing.len() && #[trigger] is_client_line(listing[i], client, session, socket)
}

/// The first line of the list that is the client's.
pub open spec fn first_client_line(
    listing: Seq<Seq<char>>,
    i: int,
    client: Seq<char>,
    session: Seq<char>,
    socket: Seq<char>,
) -> bool {
    &&& 0 <= i < listing.len()
    &&& is_client_line(listing[i], client, session, socket)
    &&& !lists_client(listing.take(i), client)
}

/// The client's first line in the list gives its session and socket.
pub open spec fn finds_client(
    listing: Seq<Seq<char>>,
    client: Seq<char>,
    session: Seq<char>,
    socket: Seq<char>,
) -> bool {
    exists|i: int| #[trigger] first_client_line(listing, i, client, session, socket)
}

/// Finds the session and the socket of a client in the list.
pub fn find_client(listing: &str, client: &str) -> (r: Option<(String, String)>)
    ensures
        r is Some <==> lists_client(lines_of(listing@), client@),
        r matches Some(found) ==> finds_client(
            lines_of(listing@),
            client@,
            found.0@,
            found.1@,
        ),
{
    let all: Vec<String> = lines(listing);
    let ghost views = texts(all@);
    let mut i: usize = 0;
    while i < all.len()
        invariant
            i <= all@.len(),
            views == texts(all@),
            views == lines_of(listing@),
            !lists_client(views.take(i as int), client@),
        decreases all@.len() - i,
    {
        let chars: Vec<char> = chars_of(all[i].as_str());
        let ghost line = chars@;
        assert(views[i as int] == line);
        let first: usize = find(&chars, 0, '\t');
        proof {
            assert(chars@.skip(0) =~= line);
            lemma_first_index(line, '\t');
        }
        let second: usize = if first < chars.len() {
            find(&chars, first + 1, '\t')
        } else {
            chars.len()
        };
        let ghost rest = line.skip(first + 1);
        proof {
            lemma_first_index(rest, '\t');
            assert forall|s: Seq<char>, t: Seq<char>| #[trigger]
                is_client_line(line, client@, s, t) implies first == client@.len() && first
                < line.len() && line.take(first as int) == client@ && rest == s + seq!['\t'] + t
                && second - first - 1 == s.len() && second < line.len() by {
                lemma_split_first(client@, '\t', s + seq!['\t'] + t);
                assert(line.take(first as int) =~= client@);
                assert(rest =~= s + seq!['\t'] + t);
                lemma_split_first(s, '\t', t);
            }
        }
        if first < chars.len() && second < chars.len() {
            let name: String = string_of(&chars, 0, first);
            if same(name.as_str(), client) {
                let session: String = string_of(&chars, first + 1, second);
                let socket: String = string_of(&chars, second + 1, chars.len());
                proof {
                    assert(line =~= client@ + seq!['\t'] + (session@ + seq!['\t'] + socket@));
                    assert forall|j: int| 0 <= j < client@.len() implies client@[j] != '\t' by {
                        assert(line[j] == client@[j]);
                    }
                    assert forall|j: int| 0 <= j < session@.len() implies session@[j] != '\t' by {
                        assert(rest[j] == session@[j]);
                    }
                    assert(is_client_line(views[i as int], client@, session@, socket@));
                }
                assert(first_client_line(views, i as int, client@, session@, socket@));
                assert(finds_client(lines_of(listing@), client@, session@, socket@));
                return Some((session, socket));
            }
            proof {
                assert(name@ =~= line.take(first as int));
            }
        }
        proof {
            assert forall|s: Seq<char>, t: Seq<char>| !#[trigger] is_client_line(
                line,
                client@,
                s,
                t,
            ) by {}
            let next = views.take(i + 1);
            if lists_client(next, client@) {
                let (k, s, t) = choose|k: int, s: Seq<char>, t: Seq<char>|
                    0 <= k < next.len() && #[trigger] is_client_line(next[k], client@, s, t);
                if k < i {
                    assert(is_client_line(views.take(i as int)[k], client@, s, t));
                }
            }
        }
        i += 1;
    }
    assert(views.take(i as int) =~= views);
    None
}

/// The command that lets a connection take the place of a client, once the clients were
/// listed.
pub fn replace_client(
    client: &str,
    arguments: &Vec<String>,
    listed: bool,
    listing: &str,
) -> (r: Result<(&'static str, Vec<String>), TmuxError>)
    ensures
        !listed || !lists_client(lines_of(listing@), client@) ==> (r matches Err(error)
            && error is CommandFailed && error->context@ == "finding the popup client's session"@
            && error->message@ == "client "@ + debug_text(client@) + " is no longer attached"@),
        listed && lists_client(lines_of(listing@), client@) ==> exists|
            session: Seq<char>,
            socket: Seq<char>,
        |
            #[trigger] finds_client(lines_of(listing@), client@, session, socket)
                && match r {
                Ok(command) => is_command(
                    command,
                    "tmux"@,
                    seq![
                        "detach-client"@,
                        "-t"@,
                        client@,
                        "-E"@,
                        shell_command(outside_ssh_words(texts(arguments@)))
                            + "; status=$?; if [ \"$status\" -ne 0 ]; then printf '\\nRollcall: SSH exited with status %s. Press Enter to return to tmux.\\n' \"$status\"; read -r reply; fi; "@
                            + shell_command(return_words(socket, session)),
                    ],
                ),
                Err(error) => error == TmuxError::Quote(QuotingError::Nul) && (any_nul(
                    texts(arguments@),
                ) || has_nul(session) || has_nul(socket)),
            },
{
    let found: Option<(String, String)> = find_client(listing, client);
    if listed {
        if let Some((session, socket)) = found {
            assert(finds_client(lines_of(listing@), client@, session@, socket@));
            return match remote_client_command(arguments, session.as_str(), socket.as_str()) {
                Ok(command) => {
                    let words: Vec<String> = owned(
                        ["detach-client", "-t", client, "-E", command.as_str()],
                    );
                    assert(texts(words@) =~= seq![
                        "detach-client"@,
                        "-t"@,
                        client@,
                        "-E"@,
                        command@,
                    ]);
                    Ok(("tmux", words))
                },
                Err(error) => Err(error),
            };
        }
    }
    let mut message: String = "client ".to_owned();
    message.append(debug(client).as_str());
    message.append(" is no longer attached");
    Err(
        TmuxError::CommandFailed {
            context: "finding the popup client's session".to_owned(),
            message,
        },
    )
}

} // verus!
