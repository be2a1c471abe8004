//! The adapters that read session files and databases through one probe script.

use vstd::prelude::*;
use vstd::utf8::{encode_utf8, encode_utf8_decode_utf8};

use crate::domain::{
    clone_binding, observation_views, stable_id_text, AgentKind, LiveObservation, ObservationView,
    RuntimeOwner, Session, SessionView, TmuxBinding,
};
use crate::keyed::StringMap;
use crate::probe::{script_command, script_ssh};
use crate::quoting::{
    any_nul, has_nul, join, lemma_decimal_has_no_nul, reads_back, shell_command,
};
use crate::text::{chars_of, decimal, decimal_of, owned, same, texts, trim, trimmed};
use crate::tmux::{is_command, is_local_host, CommandOutcome, TmuxError};

verus! {

/// Why a native adapter could not be used.
#[derive(Debug, Eq, PartialEq)]
pub enum NativeError {
    Io(String),
    Json(String),
    Command(String),
    Tmux(TmuxError),
}

impl NativeError {
    /// What the user is told.
    pub open spec fn text(self) -> Seq<char> {
        match self {
            NativeError::Io(error) => "native session probe could not start: "@ + error@,
            NativeError::Json(error) => "invalid native session inventory: "@ + error@,
            NativeError::Command(message) => message@,
            NativeError::Tmux(error) => error.text(),
        }
    }

    /// What the user is told.
    pub fn message(&self) -> (r: String)
        ensures
            r@ == self.text(),
    {
        match self {
            NativeError::Io(error) => {
                let mut r: String = "native session probe could not start: ".to_owned();
                r.append(error.as_str());
                r
            },
            NativeError::Json(error) => {
                let mut r: String = "invalid native session inventory: ".to_owned();
                r.append(error.as_str());
                r
            },
            NativeError::Command(message) => message.clone(),
            NativeError::Tmux(error) => error.message(),
        }
    }
}

/// An error that is a message of its own.
pub open spec fn says(error: NativeError, message: Seq<char>) -> bool {
    error is Command && error->Command_0@ == message
}

/// A session as the probe tells of it, with what is needed to open it again.
#[derive(Debug, Eq, PartialEq)]
pub struct NativeSession {
    pub session: Session,
    pub locator: String,
    pub raw_id: String,
    pub profile: Option<String>,
    pub ownership_uncertain: bool,
}

impl Clone for NativeSession {
    fn clone(&self) -> (r: Self)
        ensures
            r == *self,
    {
        NativeSession {
            session: self.session.clone(),
            locator: self.locator.clone(),
            raw_id: self.raw_id.clone(),
            profile: match &self.profile {
                Some(profile) => Some(profile.clone()),
                None => None,
            },
            ownership_uncertain: self.ownership_uncertain,
        }
    }
}

// ---- the probe ----

/// The words that run the probe.
pub open spec fn probe_words(
    probe: Seq<char>,
    agent: AgentKind,
    limit: Option<usize>,
    live_only: bool,
) -> Seq<Seq<char>> {
    seq![
        "python3"@,
        "-c"@,
        probe,
        agent.name(),
        match limit {
            Some(n) => decimal(n as nat),
            None => "all"@,
        },
        if live_only {
            "live"@
        } else {
            "inventory"@
        },
    ]
}

proof fn lemma_names_have_no_nul(agent: AgentKind)
    ensures
        !has_nul(agent.name()),
{
    reveal_strlit("codex");
    reveal_strlit("omp");
    reveal_strlit("pi");
    reveal_strlit("hermes");
    reveal_strlit("agy");
}

proof fn lemma_probe_nul(probe: Seq<char>, agent: AgentKind, limit: Option<usize>, live_only: bool)
    ensures
        any_nul(probe_words(probe, agent, limit, live_only)) == has_nul(probe),
{
    let words = probe_words(probe, agent, limit, live_only);
    reveal_strlit("python3");
    reveal_strlit("-c");
    reveal_strlit("all");
    reveal_strlit("live");
    reveal_strlit("inventory");
    lemma_names_have_no_nul(agent);
    if let Some(n) = limit {
        lemma_decimal_has_no_nul(n as nat);
    }
    assert(!has_nul(words[0]));
    assert(!has_nul(words[1]));
    assert(words[2] == probe);
    assert(!has_nul(words[3]));
    assert(!has_nul(words[4]));
    assert(!has_nul(words[5]));
}

/// The command that runs the probe on a host in a login shell.
pub fn probe_command(
    host: &str,
    agent: AgentKind,
    limit: Option<usize>,
    live_only: bool,
    probe: &str,
    local_hostname: &str,
) -> (r: Result<(&'static str, Vec<String>), NativeError>)
    ensures
        r is Err <==> has_nul(probe@),
        r matches Err(error) ==> says(error, "cannot shell-quote string containing nul byte"@),
        r matches Ok(command) ==> ({
            let words = probe_words(probe@, agent, limit, live_only);
            let script = shell_command(words);
            reads_back(words) && if is_local_host(host@, local_hostname@) {
                is_command(command, "bash"@, seq!["-lc"@, script])
            } else {
                is_command(command, "ssh"@, script_ssh(host@, "-lc"@, script, false))
            }
        }),
{
    let limit_word: String = match limit {
        Some(n) => decimal_of(n as u64),
        None => "all".to_owned(),
    };
    let mode: &str = if live_only { "live" } else { "inventory" };
    let words: Vec<String> = owned(
        ["python3", "-c", probe, agent.as_str(), limit_word.as_str(), mode],
    );
    proof {
        assert(texts(words@) =~= probe_words(probe@, agent, limit, live_only));
        lemma_probe_nul(probe@, agent, limit, live_only);
        reveal_strlit("-lc");
        assert(!has_nul("-lc"@));
    }
    let script: String = match join(&words) {
        Ok(script) => script,
        Err(_error) => {
            return Err(
                NativeError::Command("cannot shell-quote string containing nul byte".to_owned()),
            );
        },
    };
    match script_command(host, "-lc", script.as_str(), false, local_hostname) {
        Ok(command) => Ok(command),
        Err(_error) => Err(
            NativeError::Command("cannot shell-quote string containing nul byte".to_owned()),
        ),
    }
}

/// What is said of a probe that failed.
pub open spec fn probe_failure_text(
    host: Seq<char>,
    agent: AgentKind,
    outcome: CommandOutcome,
) -> Seq<char> {
    agent.name() + " probe on "@ + host + ": "@ + trimmed(outcome.stderr@)
}

/// What the probe printed, where it succeeded.
pub fn probe_output(host: &str, agent: AgentKind, outcome: &CommandOutcome) -> (r: Result<
    String,
    NativeError,
>)
    ensures
        r is Ok <==> outcome.success,
        r matches Ok(output) ==> output@ == outcome.stdout@,
        r matches Err(error) ==> says(error, probe_failure_text(host@, agent, *outcome)),
{
    if outcome.success {
        Ok(outcome.stdout.clone())
    } else {
        let mut message: String = agent.as_str().to_owned();
        message.append(" probe on ");
        message.append(host);
        message.append(": ");
        message.append(trim(outcome.stderr.as_str()).as_str());
        Err(NativeError::Command(message))
    }
}

/// A record of the probe: which session, and how it is opened again.
pub open spec fn relabelled_from(
    after: NativeSession,
    before: NativeSession,
    observed_host: Seq<char>,
    agent: AgentKind,
) -> bool {
    &&& after.session.view() == (SessionView {
        host: observed_host,
        agent,
        id: stable_id_text(observed_host, agent, before.session.native_session_id@),
        ..before.session.view()
    })
    &&& after.session.tmux == before.session.tmux
    &&& after.locator == before.locator
    &&& after.raw_id == before.raw_id
    &&& after.profile == before.profile
    &&& after.ownership_uncertain == before.ownership_uncertain
}

/// Gives the records of a probe the host and the agent that were asked, and the identifier
/// that follows from them.
pub fn relabel(records: Vec<NativeSession>, observed_host: &str, agent: AgentKind) -> (r: Vec<
    NativeSession,
>)
    ensures
        r@.len() == records@.len(),
        forall|i: int|
            0 <= i < r@.len() ==> relabelled_from(
                #[trigger] r@[i],
                records@[i],
                observed_host@,
                agent,
            ),
{
    let mut r: Vec<NativeSession> = Vec::new();
    let mut i: usize = 0;
    while i < records.len()
        invariant
            i <= records@.len(),
            r@.len() == i,
            forall|j: int|
                0 <= j < i ==> relabelled_from(
                    #[trigger] r@[j],
                    records@[j],
                    observed_host@,
                    agent,
                ),
        decreases records@.len() - i,
    {
        let mut record: NativeSession = records[i].clone();
        record.session.host = observed_host.to_owned();
        record.session.agent = agent;
        record.session.id = record.session.key().stable_id();
        r.push(record);
        i += 1;
    }
    r
}

/// The inventory: the sessions of the records.
pub fn discover(records: &Vec<NativeSession>) -> (r: Vec<Session>)
    ensures
        r@ == records@.map_values(|record: NativeSession| record.session),
{
    let mut r: Vec<Session> = Vec::new();
    let mut i: usize = 0;
    while i < records.len()
        invariant
            i <= records@.len(),
            r@.len() == i,
            forall|j: int| 0 <= j < i ==> r@[j] == (#[trigger] records@[j]).session,
        decreases records@.len() - i,
    {
        r.push(records[i].session.clone());
        i += 1;
    }
    assert(r@ =~= records@.map_values(|record: NativeSession| record.session));
    r
}

/// What the records tell of live processes, by native identifier; the last record of a
/// session counts, and one that could only be resumed tells nothing.
pub open spec fn live_records(records: Seq<NativeSession>) -> Map<Seq<char>, ObservationView>
    decreases records.len(),
{
    if records.len() == 0 {
        Map::empty()
    } else {
        let before = live_records(records.drop_last());
        let session = records.last().session.view();
        if session.runtime is Resumable {
            before
        } else {
            before.insert(
                session.native_session_id,
                ObservationView {
                    activity: session.activity,
                    runtime: session.runtime,
                    tmux: session.tmux,
                },
            )
        }
    }
}

/// What the records tell of live processes.
pub fn observe_live(records: &Vec<NativeSession>) -> (r: StringMap<LiveObservation>)
    ensures
        observation_views(r@) == live_records(records@),
{
    let mut observations: StringMap<LiveObservation> = StringMap::new();
    let mut i: usize = 0;
    assert(records@.take(0) =~= Seq::<NativeSession>::empty());
    assert(observation_views(observations@) =~= Map::<Seq<char>, ObservationView>::empty());
    while i < records.len()
        invariant
            i <= records@.len(),
            observation_views(observations@) == live_records(records@.take(i as int)),
        decreases records@.len() - i,
    {
        let session: &Session = &records[i].session;
        proof {
            assert(records@.take(i + 1).drop_last() =~= records@.take(i as int));
            assert(records@.take(i + 1).last() == records@[i as int]);
        }
        let live: bool = match session.runtime {
            RuntimeOwner::Resumable => false,
            _ => true,
        };
        if live {
            let observation = LiveObservation {
                activity: session.activity,
                runtime: session.runtime,
                tmux: clone_binding(&session.tmux),
            };
            proof {
                crate::codex::lemma_observation_insert(
                    observations@,
                    session.native_session_id@,
                    observation,
                );
            }
            observations.insert(session.native_session_id.clone(), observation);
        }
        i += 1;
    }
    assert(records@.take(i as int) =~= records@);
    observations
}

// ---- opening a session ----

/// The words of the command that opens a session again in its own program.
pub open spec fn resume_words(row: NativeSession) -> Option<Seq<Seq<char>>> {
    match row.session.agent {
        AgentKind::Pi => Some(seq!["pi"@, "--session"@, row.locator@]),
        AgentKind::Agy => Some(
            match row.profile {
                Some(project) => seq![
                    "agy"@,
                    "--conversation"@,
                    row.raw_id@,
                    "--project"@,
                    project@,
                ],
                None => seq!["agy"@, "--conversation"@, row.raw_id@],
            },
        ),
        AgentKind::Hermes => Some(
            match row.profile {
                Some(profile) => seq![
                    "hermes"@,
                    "--profile"@,
                    profile@,
                    "--resume"@,
                    row.raw_id@,
                ],
                None => seq![
                    "env"@,
                    "HERMES_HOME="@ + row.locator@,
                    "hermes"@,
                    "--profile"@,
                    "default"@,
                    "--resume"@,
                    row.raw_id@,
                ],
            },
        ),
        _ => None,
    }
}

fn words_to_resume(row: &NativeSession) -> (r: Option<Vec<String>>)
    ensures
        r is Some <==> resume_words(*row) is Some,
        r matches Some(words) ==> resume_words(*row) == Some(texts(words@)),
{
    match row.session.agent {
        AgentKind::Pi => {
            let words: Vec<String> = owned(["pi", "--session", row.locator.as_str()]);
            assert(texts(words@) =~= resume_words(*row)->0);
            Some(words)
        },
        AgentKind::Agy => {
            let words: Vec<String> = match &row.profile {
                Some(project) => owned(
                    [
                        "agy",
                        "--conversation",
                        row.raw_id.as_str(),
                        "--project",
                        project.as_str(),
                    ],
                ),
                None => owned(["agy", "--conversation", row.raw_id.as_str()]),
            };
            assert(texts(words@) =~= resume_words(*row)->0);
            Some(words)
        },
        AgentKind::Hermes => {
            let words: Vec<String> = match &row.profile {
                Some(profile) => owned(
                    ["hermes", "--profile", profile.as_str(), "--resume", row.raw_id.as_str()],
                ),
                None => {
                    let mut home: String = "HERMES_HOME=".to_owned();
                    home.append(row.locator.as_str());
                    owned(
                        [
                            "env",
                            home.as_str(),
                            "hermes",
                            "--profile",
                            "default",
                            "--resume",
                            row.raw_id.as_str(),
                        ],
                    )
                },
            };
            assert(texts(words@) =~= resume_words(*row)->0);
            Some(words)
        },
        _ => None,
    }
}

/// The command that opens a session again in its own program. Reading it as a shell does
/// gives back the words.
pub fn resume_command(row: &NativeSession) -> (r: Result<String, NativeError>)
    ensures
        match resume_words(*row) {
            None => r matches Err(error) && says(error, "unsupported native adapter"@),
            Some(words) => if any_nul(words) {
                r matches Err(error) && says(
                    error,
                    "cannot shell-quote string containing nul byte"@,
                )
            } else {
                r matches Ok(command) && command@ == shell_command(words) && reads_back(words)
                    && !has_nul(command@)
            },
        },
{
    match words_to_resume(row) {
        None => Err(NativeError::Command("unsupported native adapter".to_owned())),
        Some(words) => match join(&words) {
            Ok(command) => Ok(command),
            Err(_error) => Err(
                NativeError::Command("cannot shell-quote string containing nul byte".to_owned()),
            ),
        },
    }
}

/// A byte in two hexadecimal digits.
pub open spec fn hex_byte(byte: u8) -> Seq<char> {
    seq!["0123456789abcdef"@[byte as int / 16], "0123456789abcdef"@[byte as int % 16]]
}

/// Bytes in hexadecimal digits.
pub open spec fn hex(bytes: Seq<u8>) -> Seq<char>
    decreases bytes.len(),
{
    if bytes.len() == 0 {
        Seq::empty()
    } else {
        hex(bytes.drop_last()) + hex_byte(bytes.last())
    }
}

/// The name of the multiplexer's session for a session: its whole identity, in hexadecimal
/// digits.
pub open spec fn tmux_name(agent: AgentKind, native_id: Seq<char>) -> Seq<char> {
    "rc-"@ + agent.name() + "-"@ + hex(encode_utf8(native_id))
}

/// The name of the multiplexer's session for a session.
pub fn deterministic_tmux_name(agent: AgentKind, native_id: &str) -> (r: String)
    ensures
        r@ == tmux_name(agent, native_id@),
{
    let digits: Vec<char> = chars_of("0123456789abcdef");
    proof {
        reveal_strlit("0123456789abcdef");
    }
    let mut r: String = "rc-".to_owned();
    r.append(agent.as_str());
    r.append("-");
    let ghost start = r@;
    let bytes: &[u8] = native_id.as_bytes();
    let mut i: usize = 0;
    assert(bytes@.take(0) =~= Seq::<u8>::empty());
    assert(r@ =~= start + hex(bytes@.take(0)));
    while i < bytes.len()
        invariant
            i <= bytes@.len(),
            digits@ == "0123456789abcdef"@,
            digits@.len() == 16,
            r@ == start + hex(bytes@.take(i as int)),
        decreases bytes@.len() - i,
    {
        let byte: u8 = bytes[i];
        proof {
            assert(bytes@.take(i + 1).drop_last() =~= bytes@.take(i as int));
            assert(bytes@.take(i + 1).last() == byte);
            assert(byte as int / 16 < 16);
        }
        r.push(digits[(byte / 16) as usize]);
        r.push(digits[(byte % 16) as usize]);
        i += 1;
        assert(r@ =~= start + hex(bytes@.take(i as int)));
    }
    assert(bytes@.take(i as int) =~= bytes@);
    r
}

/// How a session is opened.
#[derive(Debug, Eq, PartialEq)]
pub enum NativeAttachment {
    /// In the pane in which it runs.
    Pane(TmuxBinding),
    /// In a new session of the multiplexer that runs the command.
    Resume { name: String, cwd: String, command: String },
}

/// The first record with a native identifier.
pub open spec fn first_record(records: Seq<NativeSession>, native_id: Seq<char>) -> Option<
    NativeSession,
>
    decreases records.len(),
{
    if records.len() == 0 {
        None
    } else if records[0].session.native_session_id@ == native_id {
        Some(records[0])
    } else {
        first_record(records.drop_first(), native_id)
    }
}

fn find_record(records: &Vec<NativeSession>, native_id: &str) -> (r: Option<NativeSession>)
    ensures
        r == first_record(records@, native_id@),
{
    let mut i: usize = 0;
    assert(records@.skip(0) =~= records@);
    while i < records.len()
        invariant
            i <= records@.len(),
            first_record(records@.skip(i as int), native_id@) == first_record(
                records@,
                native_id@,
            ),
        decreases records@.len() - i,
    {
        proof {
            assert(records@.skip(i as int)[0] == records@[i as int]);
            assert(records@.skip(i as int).drop_first() =~= records@.skip(i + 1));
        }
        if same(records[i].session.native_session_id.as_str(), native_id) {
            return Some(records[i].clone());
        }
        i += 1;
    }
    assert(records@.skip(i as int).len() == 0);
    None
}

/// What is said where the owner of a session is not known for certain.
pub open spec fn uncertain_text(id: Seq<char>) -> Seq<char> {
    id
        + " may already be open in another frontend; refusing an implicit second writer. Use its existing terminal, or `rollcall resume` deliberately. See docs/native-adapters.md for live ownership requirements."@
}

/// What is said of a session that is open elsewhere.
pub open spec fn external_text(id: Seq<char>) -> Seq<char> {
    id
        + " is open outside a verified terminal; use its existing frontend or `rollcall resume` deliberately."@
}

/// What is said of a session whose workspace is not known.
pub open spec fn homeless_text(id: Seq<char>) -> Seq<char> {
    id + " has no known workspace path; reopen it in its native harness"@
}

/// Whether a result opens a record's session again in its own program, or says why not.
pub open spec fn resumes(
    r: Result<NativeAttachment, NativeError>,
    agent: AgentKind,
    row: NativeSession,
) -> bool {
    if row.session.cwd@.len() == 0 {
        r is Err && says(r->Err_0, homeless_text(row.session.id@))
    } else {
        match resume_words(row) {
            None => r is Err && says(r->Err_0, "unsupported native adapter"@),
            Some(words) => if any_nul(words) {
                r is Err && says(r->Err_0, "cannot shell-quote string containing nul byte"@)
            } else {
                &&& r is Ok
                &&& r->Ok_0 is Resume
                &&& r->Ok_0->name@ == tmux_name(agent, row.session.native_session_id@)
                &&& r->Ok_0->cwd@ == row.session.cwd@
                &&& r->Ok_0->command@ == shell_command(words)
                &&& reads_back(words)
            },
        }
    }
}

/// Whether a result is how a record's session is opened: not at all where another program
/// may write to it, in its pane where it has one, and else again in its own program. A
/// deliberate resumption asks for none of that.
pub open spec fn attaches(
    r: Result<NativeAttachment, NativeError>,
    agent: AgentKind,
    row: NativeSession,
    force_resume: bool,
) -> bool {
    if force_resume {
        resumes(r, agent, row)
    } else if row.ownership_uncertain {
        r is Err && says(r->Err_0, uncertain_text(row.session.id@))
    } else {
        match row.session.tmux {
            Some(binding) => r == Ok::<NativeAttachment, NativeError>(
                NativeAttachment::Pane(binding),
            ),
            None => if row.session.runtime is ExternalFrontend {
                r is Err && says(r->Err_0, external_text(row.session.id@))
            } else {
                resumes(r, agent, row)
            },
        }
    }
}

fn resume_record(agent: AgentKind, row: &NativeSession) -> (r: Result<
    NativeAttachment,
    NativeError,
>)
    ensures
        resumes(r, agent, *row),
{
    if row.session.cwd.as_str().is_empty() {
        let mut message: String = row.session.id.clone();
        message.append(" has no known workspace path; reopen it in its native harness");
        return Err(NativeError::Command(message));
    }
    match resume_command(row) {
        Ok(command) => Ok(
            NativeAttachment::Resume {
                name: deterministic_tmux_name(agent, row.session.native_session_id.as_str()),
                cwd: row.session.cwd.clone(),
                command,
            },
        ),
        Err(error) => Err(error),
    }
}

/// Decides how a session is opened.
pub fn attach(
    host: &str,
    agent: AgentKind,
    native_id: &str,
    force_resume: bool,
    records: &Vec<NativeSession>,
) -> (r: Result<NativeAttachment, NativeError>)
    ensures
        match first_record(records@, native_id@) {
            None => r is Err && says(
                r->Err_0,
                agent.name() + " session "@ + native_id@ + " was not found on "@ + host@,
            ),
            Some(row) => attaches(r, agent, row, force_resume),
        },
{
    let row: NativeSession = match find_record(records, native_id) {
        Some(row) => row,
        None => {
            let mut message: String = agent.as_str().to_owned();
            message.append(" session ");
            message.append(native_id);
            message.append(" was not found on ");
            message.append(host);
            return Err(NativeError::Command(message));
        },
    };
    if !force_resume {
        if row.ownership_uncertain {
            let mut message: String = row.session.id.clone();
            message.append(
                " may already be open in another frontend; refusing an implicit second writer. Use its existing terminal, or `rollcall resume` deliberately. See docs/native-adapters.md for live ownership requirements.",
            );
            return Err(NativeError::Command(message));
        }
        if let Some(binding) = &row.session.tmux {
            return Ok(NativeAttachment::Pane(binding.clone()));
        }
        let external: bool = match row.session.runtime {
            RuntimeOwner::ExternalFrontend => true,
            _ => false,
        };
        if external {
            let mut message: String = row.session.id.clone();
            message.append(
                " is open outside a verified terminal; use its existing frontend or `rollcall resume` deliberately.",
            );
            return Err(NativeError::Command(message));
        }
    }
    resume_record(agent, &row)
}

// ---- laws ----

proof fn lemma_hex_len(bytes: Seq<u8>)
    ensures
        hex(bytes).len() == 2 * bytes.len(),
    decreases bytes.len(),
{
    if bytes.len() > 0 {
        lemma_hex_len(bytes.drop_last());
    }
}

proof fn lemma_hex_digits_distinct(i: int, j: int)
    requires
        0 <= i < 16,
        0 <= j < 16,
        "0123456789abcdef"@[i] == "0123456789abcdef"@[j],
    ensures
        i == j,
{
    reveal_strlit("0123456789abcdef");
}

proof fn lemma_hex_injective(a: Seq<u8>, b: Seq<u8>)
    requires
        hex(a) == hex(b),
    ensures
        a == b,
    decreases a.len(),
{
    lemma_hex_len(a);
    lemma_hex_len(b);
    if a.len() > 0 {
        let n = hex(a).len() as int;
        let x = a.last();
        let y = b.last();
        lemma_hex_len(a.drop_last());
        lemma_hex_len(b.drop_last());
        assert(hex(a)[n - 2] == hex_byte(x)[0]);
        assert(hex(b)[n - 2] == hex_byte(y)[0]);
        assert(hex(a)[n - 1] == hex_byte(x)[1]);
        assert(hex(b)[n - 1] == hex_byte(y)[1]);
        lemma_hex_digits_distinct(x as int / 16, y as int / 16);
        lemma_hex_digits_distinct(x as int % 16, y as int % 16);
        assert(hex(a).take(n - 2) =~= hex(a.drop_last()));
        assert(hex(b).take(n - 2) =~= hex(b.drop_last()));
        lemma_hex_injective(a.drop_last(), b.drop_last());
        assert(a =~= a.drop_last().push(x));
        assert(b =~= b.drop_last().push(y));
    } else {
        assert(a =~= b);
    }
}

/// Two sessions of one program never share a session of the multiplexer: the name keeps the
/// whole identity.
pub proof fn tmux_names_keep_the_identity(agent: AgentKind, a: Seq<char>, b: Seq<char>)
    requires
        tmux_name(agent, a) == tmux_name(agent, b),
    ensures
        a == b,
{
    let prefix = "rc-"@ + agent.name() + "-"@;
    let x = hex(encode_utf8(a));
    let y = hex(encode_utf8(b));
    assert((prefix + x).skip(prefix.len() as int) =~= x);
    assert((prefix + y).skip(prefix.len() as int) =~= y);
    lemma_hex_injective(encode_utf8(a), encode_utf8(b));
    encode_utf8_decode_utf8(a);
    encode_utf8_decode_utf8(b);
}

/// Without a deliberate resumption, a session that another program may be writing to is
/// never opened a second time.
pub proof fn no_second_writer_by_accident(
    r: Result<NativeAttachment, NativeError>,
    agent: AgentKind,
    row: NativeSession,
)
    requires
        attaches(r, agent, row, false),
        row.ownership_uncertain || (row.session.runtime is ExternalFrontend
            && row.session.tmux is None),
    ensures
        r is Err,
{
}

} // verus!
