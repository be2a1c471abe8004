//! The Codex adapter: threads, live processes and how a thread is opened.

use vstd::prelude::*;

use crate::codex_runtime::RuntimeError;
use crate::domain::{
    clone_binding, lemma_session_views_push, merge_observed_activity, merged_activity,
    observation_views, session_views, stable_id_text, Activity, AgentKind, LiveObservation,
    ObservationView, RuntimeOwner, Session, SessionKey, SessionView, TmuxBinding,
};
use crate::json::{document_text, json_text, text_in, text_of};
use crate::keyed::StringMap;
use crate::probe::{script_command, script_ssh};
use crate::quoting::{has_nul, QuotingError};
use crate::text::{
    ascii_lower_char, ascii_lower_of, chars_of, clip, clipped, file_name, file_name_text, joined,
    join_with, lemma_utf8_len_add, lemma_utf8_len_bound, lines, lines_of, same, split, split_text,
    starts_text, starts_with, string_of, texts, trim, trimmed, utf8_len, utf8_width, width_of,
    words, words_of,
};
use crate::tmux::{
    is_command, is_local, is_local_host, observed_host_text, CommandOutcome, TmuxError,
};

verus! {

/// The script that finds live Codex processes, what owns them and what they do.
pub const LIVE_OBSERVATION_SCRIPT: &'static str = r#"
declare -A pane_session pane_id seen

latest_lifecycle() {
  local target="$1"
  if command -v tac >/dev/null 2>&1; then
    tac -- "$target" 2>/dev/null |
      grep -m1 -E '"type":"(task_started|task_complete|turn_aborted)"'
  elif tail -r /dev/null >/dev/null 2>&1; then
    tail -r "$target" 2>/dev/null |
      grep -m1 -E '"type":"(task_started|task_complete|turn_aborted)"'
  else
    tail -n 4096 "$target" 2>/dev/null |
      grep -E '"type":"(task_started|task_complete|turn_aborted)"' |
      tail -n 1
  fi
}

walk_tree() {
  local pid="$1" session="$2" pane="$3" children child
  pane_session["$pid"]="$session"
  pane_id["$pid"]="$pane"
  if [[ -r "/proc/$pid/task/$pid/children" ]]; then
    read -r children < "/proc/$pid/task/$pid/children" || true
    for child in $children; do
      walk_tree "$child" "$session" "$pane"
    done
  fi
}

if command -v tmux >/dev/null 2>&1; then
  pane_format=$'#{session_name}\t#{pane_id}\t#{pane_pid}'
  while IFS=$'\t' read -r session pane pid; do
    [[ -n "$pid" ]] && walk_tree "$pid" "$session" "$pane"
  done < <(tmux list-panes -a -F "$pane_format" 2>/dev/null || true)
fi

for proc in /proc/[0-9]*; do
  pid="${proc##*/}"
  [[ -r "$proc/comm" ]] || continue
  read -r comm < "$proc/comm" || continue
  [[ "$comm" == codex ]] || continue
  cmdline="$(tr '\0' ' ' < "$proc/cmdline" 2>/dev/null || true)"
  is_app_server=0
  is_rollcall_backend=0
  case " $cmdline " in
    *" app-server "*) is_app_server=1 ;;
  esac
  case " $cmdline " in
    *" app-server "*"--listen "*"unix://"*)
      case "$cmdline" in
        */rollcall/codex-*.sock*) is_rollcall_backend=1 ;;
      esac
    ;;
  esac
  session="${pane_session[$pid]-}"
  pane="${pane_id[$pid]-}"
  if [[ "$is_rollcall_backend" == 1 && "$session" == rc-codex-* ]]; then
    owner="shared"
    session=""
    pane=""
  elif [[ "$is_app_server" == 1 ]]; then
    owner="external"
    session=""
    pane=""
  elif [[ -n "$session" ]]; then
    owner="tmux"
  else
    owner="external"
  fi
  if [[ "$owner" == tmux &&
        "$cmdline" =~ (^|[[:space:]])resume[[:space:]]+([0-9a-fA-F-]{36})([[:space:]]|$) ]]; then
    native="${BASH_REMATCH[2]}"
    key="$native|$owner|$session|$pane"
    if [[ -z "${seen[$key]-}" ]]; then
      seen["$key"]=1
      printf '%s\t%s\t%s\t%s\t%s\n' \
        "$native" "$owner" "$session" "$pane" "unknown"
    fi
  fi
  for fd in "$proc"/fd/*; do
    target="$(readlink "$fd" 2>/dev/null || true)"
    case "$target" in
      */sessions/*/rollout-*.jsonl)
        base="${target##*/}"
        native="${base%.jsonl}"
        native="${native: -36}"
        key="$native|$owner|$session|$pane"
        [[ -n "${seen[$key]-}" ]] && continue
        seen["$key"]=1
        lifecycle="$(latest_lifecycle "$target" || true)"
        case "$lifecycle" in
          *'"type":"task_started"'*) activity="working" ;;
          *'"type":"task_complete"'*|*'"type":"turn_aborted"'*) activity="completed" ;;
          *) activity="unknown" ;;
        esac
        printf '%s\t%s\t%s\t%s\t%s\n' \
          "$native" "$owner" "$session" "$pane" "$activity"
        ;;
    esac
  done
done
"#;

/// The script that tells whether Codex is installed.
pub const AVAILABLE_SCRIPT: &'static str = "command -v codex >/dev/null 2>&1";

/// Why Codex could not be used.
#[derive(Debug, Eq, PartialEq)]
pub enum CodexError {
    MissingSession(String),
    ExternalFrontend(String),
    Protocol(String),
    Quote(QuotingError),
    Start { program: &'static str, source: String },
    Io(String),
    Json(String),
    Runtime(RuntimeError),
    Tmux(TmuxError),
}

impl CodexError {
    /// What the user is told.
    pub open spec fn text(self) -> Seq<char> {
        match self {
            CodexError::MissingSession(session) => "Codex session "@ + session@
                + " was not found on its host"@,
            CodexError::ExternalFrontend(session) => "Codex session "@ + session@
                + " is owned by an external frontend; close or release it before resuming through Rollcall"@,
            CodexError::Protocol(message) => "Codex app-server protocol error: "@ + message@,
            CodexError::Quote(_) =>
                "could not quote remote command: cannot shell-quote string containing nul byte"@,
            CodexError::Start { program, source } => "could not start "@ + program@ + ": "@
                + source@,
            CodexError::Io(error) => "Codex adapter I/O failed: "@ + error@,
            CodexError::Json(error) => "Codex adapter returned invalid JSON: "@ + error@,
            CodexError::Runtime(error) => error.text(),
            CodexError::Tmux(error) => error.text(),
        }
    }

    /// What the user is told.
    pub fn message(&self) -> (r: String)
        ensures
            r@ == self.text(),
    {
        match self {
            CodexError::MissingSession(session) => {
                let mut r: String = "Codex session ".to_owned();
                r.append(session.as_str());
                r.append(" was not found on its host");
                r
            },
            CodexError::ExternalFrontend(session) => {
                let mut r: String = "Codex session ".to_owned();
                r.append(session.as_str());
                r.append(
                    " is owned by an external frontend; close or release it before resuming through Rollcall",
                );
                r
            },
            CodexError::Protocol(message) => {
                let mut r: String = "Codex app-server protocol error: ".to_owned();
                r.append(message.as_str());
                r
            },
            CodexError::Quote(_) =>
                "could not quote remote command: cannot shell-quote string containing nul byte".to_owned(),
            CodexError::Start { program, source } => {
                let mut r: String = "could not start ".to_owned();
                r.append(program);
                r.append(": ");
                r.append(source.as_str());
                r
            },
            CodexError::Io(error) => {
                let mut r: String = "Codex adapter I/O failed: ".to_owned();
                r.append(error.as_str());
                r
            },
            CodexError::Json(error) => {
                let mut r: String = "Codex adapter returned invalid JSON: ".to_owned();
                r.append(error.as_str());
                r
            },
            CodexError::Runtime(error) => error.message(),
            CodexError::Tmux(error) => error.message(),
        }
    }
}

/// The host under whose name its sessions are known.
pub fn observed_host(host: &str, local_hostname: &str) -> (r: String)
    ensures
        r@ == observed_host_text(host@, local_hostname@),
{
    if is_local(host, local_hostname) {
        local_hostname.to_owned()
    } else {
        host.to_owned()
    }
}

/// The command that tells by its status whether Codex is installed on a host.
pub fn available(host: &str, local_hostname: &str) -> (r: Result<
    (&'static str, Vec<String>),
    CodexError,
>)
    ensures
        r is Ok,
        r matches Ok(command) ==> if is_local_host(host@, local_hostname@) {
            is_command(command, "bash"@, seq!["-c"@, AVAILABLE_SCRIPT@])
        } else {
            is_command(command, "ssh"@, script_ssh(host@, "-c"@, AVAILABLE_SCRIPT@, false))
        },
{
    proof {
        reveal_strlit("-c");
        assert(!has_nul("-c"@));
        reveal_strlit("command -v codex >/dev/null 2>&1");
        assert(!has_nul(AVAILABLE_SCRIPT@));
    }
    match script_command(host, "-c", AVAILABLE_SCRIPT, false, local_hostname) {
        Ok(command) => Ok(command),
        Err(error) => Err(CodexError::Quote(error)),
    }
}

/// The command that looks for live Codex processes on a host.
pub fn observe_command(host: &str, local_hostname: &str) -> (r: Result<
    (&'static str, Vec<String>),
    CodexError,
>)
    ensures
        r is Err <==> !is_local_host(host@, local_hostname@) && has_nul(LIVE_OBSERVATION_SCRIPT@),
        r matches Err(error) ==> error == CodexError::Quote(QuotingError::Nul),
        r matches Ok(command) ==> if is_local_host(host@, local_hostname@) {
            is_command(command, "bash"@, seq!["-c"@, LIVE_OBSERVATION_SCRIPT@])
        } else {
            is_command(command, "ssh"@, script_ssh(host@, "-c"@, LIVE_OBSERVATION_SCRIPT@, false))
        },
{
    proof {
        reveal_strlit("-c");
        assert(!has_nul("-c"@));
    }
    match script_command(host, "-c", LIVE_OBSERVATION_SCRIPT, false, local_hostname) {
        Ok(command) => Ok(command),
        Err(error) => Err(CodexError::Quote(error)),
    }
}

// ---- live processes ----

/// How much an owner says: a terminal frontend can be attached to, an external frontend must
/// be left alone, and a backend alone can be given a frontend.
pub open spec fn priority(runtime: RuntimeOwner) -> int {
    match runtime {
        RuntimeOwner::Resumable | RuntimeOwner::SharedBackend => 0,
        RuntimeOwner::ExternalFrontend => 1,
        RuntimeOwner::TmuxFrontend => 2,
    }
}

fn owner_priority(runtime: RuntimeOwner) -> (r: u8)
    ensures
        r == priority(runtime),
{
    match runtime {
        RuntimeOwner::Resumable | RuntimeOwner::SharedBackend => 0,
        RuntimeOwner::ExternalFrontend => 1,
        RuntimeOwner::TmuxFrontend => 2,
    }
}

/// What two observations of one session's activity say together.
pub open spec fn live_activity(current: Activity, observed: Activity) -> Activity {
    if current is Working || observed is Working {
        Activity::Working
    } else if current is Completed || observed is Completed {
        Activity::Completed
    } else {
        Activity::Unknown
    }
}

/// Merges two observations of one session's activity.
pub fn merge_live_activity(current: Activity, observed: Activity) -> (r: Activity)
    ensures
        r == live_activity(current, observed),
{
    match (current, observed) {
        (Activity::Working, _) | (_, Activity::Working) => Activity::Working,
        (Activity::Completed, _) | (_, Activity::Completed) => Activity::Completed,
        _ => Activity::Unknown,
    }
}

/// The order in which activities are observed does not matter.
pub proof fn live_activity_is_order_independent(a: Activity, b: Activity, c: Activity)
    ensures
        live_activity(a, b) == live_activity(b, a),
        live_activity(live_activity(a, b), c) == live_activity(a, live_activity(b, c)),
{
}

/// The owner and the pane that the fields of a line tell of, where they tell of one.
pub open spec fn observed_owner(
    owner: Seq<char>,
    session: Seq<char>,
    pane: Seq<char>,
) -> Option<(RuntimeOwner, Option<(Seq<char>, Seq<char>)>)> {
    if owner == "shared"@ {
        Some((RuntimeOwner::SharedBackend, None))
    } else if owner == "external"@ {
        Some((RuntimeOwner::ExternalFrontend, None))
    } else if owner == "tmux"@ && session.len() > 0 {
        Some((RuntimeOwner::TmuxFrontend, Some((session, pane))))
    } else {
        None
    }
}

/// The activity that a field tells of.
pub open spec fn observed_activity(activity: Seq<char>) -> Activity {
    if activity == "working"@ {
        Activity::Working
    } else if activity == "completed"@ {
        Activity::Completed
    } else {
        Activity::Unknown
    }
}

/// The session that a line tells of, and what it says of it.
pub open spec fn observed_line(line: Seq<char>) -> Option<(Seq<char>, ObservationView)> {
    let fields = split_text(line, '\t');
    if fields.len() != 5 {
        None
    } else {
        match observed_owner(fields[1], fields[2], fields[3]) {
            None => None,
            Some((runtime, tmux)) => Some(
                (
                    fields[0],
                    ObservationView { activity: observed_activity(fields[4]), runtime, tmux },
                ),
            ),
        }
    }
}

/// Two observations of one session together: the owner that says more counts, the earlier
/// one where they say as much.
pub open spec fn combined(existing: ObservationView, new: ObservationView) -> ObservationView {
    let stronger = priority(new.runtime) > priority(existing.runtime);
    ObservationView {
        activity: live_activity(existing.activity, new.activity),
        runtime: if stronger { new.runtime } else { existing.runtime },
        tmux: if stronger { new.tmux } else { existing.tmux },
    }
}

/// The observations after a line.
pub open spec fn with_line(
    before: Map<Seq<char>, ObservationView>,
    line: Seq<char>,
) -> Map<Seq<char>, ObservationView> {
    match observed_line(line) {
        None => before,
        Some((id, new)) => before.insert(
            id,
            if before.dom().contains(id) { combined(before[id], new) } else { new },
        ),
    }
}

/// The observations that the lines tell of.
pub open spec fn observed(lines: Seq<Seq<char>>) -> Map<Seq<char>, ObservationView>
    decreases lines.len(),
{
    if lines.len() == 0 {
        Map::empty()
    } else {
        with_line(observed(lines.drop_last()), lines.last())
    }
}

/// Reads one line.
fn read_line(line: &str) -> (r: Option<(String, LiveObservation)>)
    ensures
        r is Some <==> observed_line(line@) is Some,
        r matches Some(found) ==> observed_line(line@) == Some((found.0@, found.1.view())),
{
    let fields: Vec<String> = split(line, '\t');
    let ghost views = texts(fields@);
    if fields.len() != 5 {
        return None;
    }
    proof {
        assert(views[0] == fields@[0]@);
        assert(views[1] == fields@[1]@);
        assert(views[2] == fields@[2]@);
        assert(views[3] == fields@[3]@);
        assert(views[4] == fields@[4]@);
    }
    let owner: &str = fields[1].as_str();
    let activity: Activity = if same(fields[4].as_str(), "working") {
        Activity::Working
    } else if same(fields[4].as_str(), "completed") {
        Activity::Completed
    } else {
        Activity::Unknown
    };
    if same(owner, "shared") {
        return Some(
            (
                fields[0].clone(),
                LiveObservation { activity, runtime: RuntimeOwner::SharedBackend, tmux: None },
            ),
        );
    }
    if same(owner, "external") {
        return Some(
            (
                fields[0].clone(),
                LiveObservation { activity, runtime: RuntimeOwner::ExternalFrontend, tmux: None },
            ),
        );
    }
    if same(owner, "tmux") && !fields[2].as_str().is_empty() {
        let binding = TmuxBinding { session: fields[2].clone(), pane: fields[3].clone() };
        return Some(
            (
                fields[0].clone(),
                LiveObservation {
                    activity,
                    runtime: RuntimeOwner::TmuxFrontend,
                    tmux: Some(binding),
                },
            ),
        );
    }
    None
}

/// Inserting an observation inserts what it says.
pub proof fn lemma_observation_insert(
    observations: Map<Seq<char>, LiveObservation>,
    id: Seq<char>,
    observation: LiveObservation,
)
    ensures
        observation_views(observations.insert(id, observation)) == observation_views(
            observations,
        ).insert(id, observation.view()),
{
    assert(observation_views(observations.insert(id, observation)) =~= observation_views(
        observations,
    ).insert(id, observation.view()));
}

/// Reads what the probe of live processes printed: of several observations of one session,
/// the owner that says most counts, whatever their order.
pub fn parse_live_observations(output: &str) -> (r: StringMap<LiveObservation>)
    ensures
        observation_views(r@) == observed(lines_of(output@)),
{
    let mut observations: StringMap<LiveObservation> = StringMap::new();
    let all: Vec<String> = lines(output);
    let ghost views = texts(all@);
    let mut i: usize = 0;
    assert(views.take(0) =~= Seq::<Seq<char>>::empty());
    assert(observation_views(observations@) =~= Map::<Seq<char>, ObservationView>::empty());
    while i < all.len()
        invariant
            i <= all@.len(),
            views == texts(all@),
            observation_views(observations@) == observed(views.take(i as int)),
        decreases all@.len() - i,
    {
        proof {
            assert(views.take(i + 1).drop_last() =~= views.take(i as int));
            assert(views.take(i + 1).last() == all@[i as int]@);
        }
        if let Some((id, new)) = read_line(all[i].as_str()) {
            let next: LiveObservation = match observations.get(id.as_str()) {
                Some(existing) => {
                    let activity: Activity = merge_live_activity(existing.activity, new.activity);
                    if owner_priority(new.runtime) > owner_priority(existing.runtime) {
                        LiveObservation { activity, runtime: new.runtime, tmux: new.tmux }
                    } else {
                        LiveObservation {
                            activity,
                            runtime: existing.runtime,
                            tmux: clone_binding(&existing.tmux),
                        }
                    }
                },
                None => new,
            };
            proof {
                lemma_observation_insert(observations@, id@, next);
            }
            observations.insert(id, next);
        }
        i += 1;
    }
    assert(views.take(i as int) =~= views);
    observations
}

/// What the probe of live processes means.
pub fn observe_live(outcome: &CommandOutcome) -> (r: Result<StringMap<LiveObservation>, CodexError>)
    ensures
        r is Ok <==> outcome.success,
        r matches Ok(observations) ==> observation_views(observations@) == observed(
            lines_of(outcome.stdout@),
        ),
        r matches Err(error) ==> error is Protocol && error->Protocol_0@ == trimmed(
            outcome.stderr@,
        ),
{
    if outcome.success {
        Ok(parse_live_observations(outcome.stdout.as_str()))
    } else {
        Err(CodexError::Protocol(trim(outcome.stderr.as_str())))
    }
}

/// The line tells of the session with the owner.
pub open spec fn tells_owner(line: Seq<char>, id: Seq<char>, runtime: RuntimeOwner) -> bool {
    observed_line(line) matches Some(found) && found.0 == id && found.1.runtime == runtime
}

/// The line tells of the session with the activity.
pub open spec fn tells_activity(line: Seq<char>, id: Seq<char>, activity: Activity) -> bool {
    observed_line(line) matches Some(found) && found.0 == id && found.1.activity == activity
}

/// Some line tells of the session with the owner.
pub open spec fn some_owner(
    lines: Seq<Seq<char>>,
    id: Seq<char>,
    runtime: RuntimeOwner,
) -> bool {
    exists|i: int|
        0 <= i < lines.len() && #[trigger] tells_owner(lines[i], id, runtime)
}

/// Some line tells of the session with the activity.
pub open spec fn some_activity(lines: Seq<Seq<char>>, id: Seq<char>, activity: Activity) -> bool {
    exists|i: int|
        0 <= i < lines.len() && #[trigger] tells_activity(lines[i], id, activity)
}

/// Ownership precedence is attachable terminal frontend, external frontend, shared backend,
/// and activity precedence is working, completed, unknown: both depend on which lines there
/// are, not on their order. The terminal is treated in `the_terminal_does_not_depend_on_order`.
pub proof fn observations_do_not_depend_on_order(lines: Seq<Seq<char>>, id: Seq<char>)
    ensures
        observed(lines).dom().contains(id) <==> some_owner(lines, id, RuntimeOwner::TmuxFrontend)
            || some_owner(lines, id, RuntimeOwner::ExternalFrontend) || some_owner(
            lines,
            id,
            RuntimeOwner::SharedBackend,
        ),
        observed(lines).dom().contains(id) ==> observed(lines)[id].runtime == (if some_owner(
            lines,
            id,
            RuntimeOwner::TmuxFrontend,
        ) {
            RuntimeOwner::TmuxFrontend
        } else if some_owner(lines, id, RuntimeOwner::ExternalFrontend) {
            RuntimeOwner::ExternalFrontend
        } else {
            RuntimeOwner::SharedBackend
        }),
        observed(lines).dom().contains(id) ==> observed(lines)[id].activity == (if some_activity(
            lines,
            id,
            Activity::Working,
        ) {
            Activity::Working
        } else if some_activity(lines, id, Activity::Completed) {
            Activity::Completed
        } else {
            Activity::Unknown
        }),
    decreases lines.len(),
{
    if lines.len() > 0 {
        let rest = lines.drop_last();
        let last = lines.last();
        observations_do_not_depend_on_order(rest, id);
        assert forall|activity: Activity| #[trigger]
            some_activity(rest, id, activity) implies observed(rest).dom().contains(id) by {
            let i = choose|i: int|
                0 <= i < rest.len() && #[trigger] tells_activity(rest[i], id, activity);
            let runtime = (observed_line(rest[i])->0).1.runtime;
            assert(tells_owner(rest[i], id, runtime));
            assert(some_owner(rest, id, runtime));
        }
        assert forall|runtime: RuntimeOwner| #[trigger] some_owner(lines, id, runtime) == (some_owner(
            rest,
            id,
            runtime,
        ) || tells_owner(last, id, runtime)) by {
            if some_owner(rest, id, runtime) {
                let i = choose|i: int|
                    0 <= i < rest.len() && #[trigger] tells_owner(rest[i], id, runtime);
                assert(lines[i] == rest[i]);
                assert(tells_owner(lines[i], id, runtime));
            }
            if some_owner(lines, id, runtime) {
                let i = choose|i: int|
                    0 <= i < lines.len() && #[trigger] tells_owner(lines[i], id, runtime);
                if i < rest.len() {
                    assert(tells_owner(rest[i], id, runtime));
                }
            }
            assert(lines[lines.len() - 1] == last);
            assert(tells_owner(lines[lines.len() - 1], id, runtime) == tells_owner(last, id, runtime));
        }
        assert forall|activity: Activity| #[trigger] some_activity(lines, id, activity) == (
        some_activity(rest, id, activity) || tells_activity(last, id, activity)) by {
            if some_activity(rest, id, activity) {
                let i = choose|i: int|
                    0 <= i < rest.len() && #[trigger] tells_activity(rest[i], id, activity);
                assert(lines[i] == rest[i]);
                assert(tells_activity(lines[i], id, activity));
            }
            if some_activity(lines, id, activity) {
                let i = choose|i: int|
                    0 <= i < lines.len() && #[trigger] tells_activity(lines[i], id, activity);
                if i < rest.len() {
                    assert(tells_activity(rest[i], id, activity));
                }
            }
            assert(lines[lines.len() - 1] == last);
            assert(tells_activity(lines[lines.len() - 1], id, activity) == tells_activity(last, id, activity));
        }
    }
}

/// The line tells of the session in the terminal.
pub open spec fn tells_binding(
    line: Seq<char>,
    id: Seq<char>,
    binding: (Seq<char>, Seq<char>),
) -> bool {
    observed_line(line) matches Some(found) && found.0 == id && found.1.tmux == Some(binding)
}

/// Some line tells of the session in the terminal.
pub open spec fn some_binding(
    lines: Seq<Seq<char>>,
    id: Seq<char>,
    binding: (Seq<char>, Seq<char>),
) -> bool {
    exists|i: int| 0 <= i < lines.len() && #[trigger] tells_binding(lines[i], id, binding)
}

/// The terminal of a session is one that some line tells of, and where some line tells of
/// one the session has one.
pub proof fn lemma_observed_binding(lines: Seq<Seq<char>>, id: Seq<char>)
    ensures
        observed(lines).dom().contains(id) ==> (observed(lines)[id].tmux is Some
            <==> observed(lines)[id].runtime is TmuxFrontend),
        forall|binding: (Seq<char>, Seq<char>)|
            observed(lines).dom().contains(id) && observed(lines)[id].tmux == Some(binding)
                ==> #[trigger] some_binding(lines, id, binding),
        forall|binding: (Seq<char>, Seq<char>)| #[trigger]
            some_binding(lines, id, binding) ==> observed(lines).dom().contains(id)
                && observed(lines)[id].tmux is Some,
    decreases lines.len(),
{
    if lines.len() > 0 {
        let rest = lines.drop_last();
        let last = lines.last();
        lemma_observed_binding(rest, id);
        assert(lines[lines.len() - 1] == last);
        assert forall|binding: (Seq<char>, Seq<char>)| #[trigger]
            some_binding(lines, id, binding) == (some_binding(rest, id, binding)
                || tells_binding(last, id, binding)) by {
            if some_binding(rest, id, binding) {
                let i = choose|i: int|
                    0 <= i < rest.len() && #[trigger] tells_binding(rest[i], id, binding);
                assert(tells_binding(lines[i], id, binding));
            }
            if some_binding(lines, id, binding) {
                let i = choose|i: int|
                    0 <= i < lines.len() && #[trigger] tells_binding(lines[i], id, binding);
                if i < rest.len() {
                    assert(tells_binding(rest[i], id, binding));
                }
            }
            if tells_binding(last, id, binding) {
                assert(tells_binding(lines[lines.len() - 1], id, binding));
            }
        }
    }
}

/// Where the lines tell of a session in no two terminals, its terminal depends on which
/// lines there are, not on their order: it is the one that some line tells of.
pub proof fn the_terminal_does_not_depend_on_order(
    lines: Seq<Seq<char>>,
    id: Seq<char>,
    binding: (Seq<char>, Seq<char>),
)
    requires
        forall|a: (Seq<char>, Seq<char>), b: (Seq<char>, Seq<char>)| #[trigger]
            some_binding(lines, id, a) && #[trigger] some_binding(lines, id, b) ==> a == b,
    ensures
        observed(lines).dom().contains(id) && observed(lines)[id].tmux == Some(binding)
            <==> some_binding(lines, id, binding),
{
    lemma_observed_binding(lines, id);
    if some_binding(lines, id, binding) {
        let told = observed(lines)[id].tmux->0;
        assert(some_binding(lines, id, told));
    }
}

// ---- names ----

/// The characters of a text from the given byte count before its end, where a character
/// begins there; else all of it.
pub open spec fn byte_suffix(s: Seq<char>, bytes: nat) -> Seq<char> {
    if exists|k: int| #[trigger] cuts_at(s, k, bytes) {
        s.skip(choose|k: int| #[trigger] cuts_at(s, k, bytes))
    } else {
        s
    }
}

/// So many bytes follow the first `k` characters.
pub open spec fn cuts_at(s: Seq<char>, k: int, bytes: nat) -> bool {
    0 <= k <= s.len() && utf8_len(s.skip(k)) == bytes
}

/// Fewer bytes follow more characters.
proof fn lemma_suffix_shrinks(s: Seq<char>, j: int, k: int)
    requires
        0 <= j < k <= s.len(),
    ensures
        utf8_len(s.skip(j)) > utf8_len(s.skip(k)),
{
    let head = s.subrange(j, k);
    assert(s.skip(j) =~= head + s.skip(k));
    lemma_utf8_len_add(head, s.skip(k));
    lemma_utf8_len_bound(head);
}

fn suffix(s: &Vec<char>) -> (r: String)
    ensures
        r@ == byte_suffix(s@, 8),
{
    let mut k: usize = s.len();
    let mut bytes: usize = 0;
    assert(s@.skip(k as int) =~= Seq::<char>::empty());
    while k > 0 && bytes < 8
        invariant
            k <= s@.len(),
            bytes == utf8_len(s@.skip(k as int)),
            bytes <= 11,
            k < s@.len() ==> utf8_len(s@.skip(k + 1)) < 8,
        decreases k,
    {
        proof {
            let one = seq![s@[k - 1]];
            assert(s@.skip(k - 1) =~= one + s@.skip(k as int));
            lemma_utf8_len_add(one, s@.skip(k as int));
            assert(one.drop_last() =~= Seq::<char>::empty());
            assert(utf8_len(one.drop_last()) == 0);
            assert(one.last() == s@[k - 1]);
            assert(utf8_len(one) == utf8_width(s@[k - 1]));
        }
        bytes += width_of(s[k - 1]);
        k -= 1;
    }
    if bytes == 8 {
        proof {
            assert(cuts_at(s@, k as int, 8));
            let other = choose|k: int| #[trigger] cuts_at(s@, k, 8);
            if other < k {
                lemma_suffix_shrinks(s@, other, k as int);
            } else if other > k {
                lemma_suffix_shrinks(s@, k as int, other);
            }
            assert(s@.subrange(k as int, s@.len() as int) =~= s@.skip(k as int));
        }
        string_of(s, k, s.len())
    } else {
        proof {
            assert forall|other: int| !#[trigger] cuts_at(s@, other, 8) by {
                if cuts_at(s@, other, 8) {
                    if other < k {
                        lemma_suffix_shrinks(s@, other, k as int);
                    } else if other > k {
                        if other > k + 1 {
                            lemma_suffix_shrinks(s@, k + 1, other);
                        }
                    }
                }
            }
            assert(s@.subrange(0, s@.len() as int) =~= s@);
        }
        string_of(s, 0, s.len())
    }
}

/// An ASCII letter or digit.
pub open spec fn is_alphanumeric(c: char) -> bool {
    ('0' <= c && c <= '9') || ('a' <= c && c <= 'z') || ('A' <= c && c <= 'Z')
}

/// Whether the character is an ASCII letter or digit.
pub fn is_ascii_alphanumeric(c: char) -> (r: bool)
    ensures
        r == is_alphanumeric(c),
{
    ('0' <= c && c <= '9') || ('a' <= c && c <= 'z') || ('A' <= c && c <= 'Z')
}

/// A component of a name: the ASCII letters and digits in lower case, with one hyphen for
/// whatever stands between two of them, ended at about two dozen characters. The flag says
/// that something stands behind the last letter or digit.
pub open spec fn slugged(s: Seq<char>) -> (Seq<char>, bool)
    decreases s.len(),
{
    if s.len() == 0 {
        (Seq::empty(), false)
    } else {
        let (slug, pending) = slugged(s.drop_last());
        let c = s.last();
        if slug.len() >= 24 {
            (slug, pending)
        } else if is_alphanumeric(c) {
            if pending && slug.len() > 0 {
                (slug.push('-').push(ascii_lower_char(c)), false)
            } else {
                (slug.push(ascii_lower_char(c)), false)
            }
        } else {
            (slug, true)
        }
    }
}

/// A component is short, holds only lower-case letters, digits and hyphens, neither begins
/// nor ends with a hyphen and has no two of them in a row. It is empty exactly where the text
/// has no letter or digit.
pub proof fn slugs_are_plain(s: Seq<char>)
    ensures
        slugged(s).0.len() == 25 ==> slugged(s).0[23] == '-',
        forall|i: int, j: int|
            0 <= i && j == i + 1 && j < slugged(s).0.len() && #[trigger] slugged(s).0[i] == '-'
                ==> #[trigger] slugged(s).0[j] != '-',
        slugged(s).0.len() == 0 <==> forall|i: int|
            0 <= i < s.len() ==> !is_alphanumeric(#[trigger] s[i]),
        slugged(s).0.len() <= 25,
        forall|i: int|
            0 <= i < slugged(s).0.len() ==> (#[trigger] slugged(s).0[i] == '-' || ('0'
                <= slugged(s).0[i] && slugged(s).0[i] <= '9') || ('a' <= slugged(s).0[i]
                && slugged(s).0[i] <= 'z')),
        slugged(s).0.len() > 0 ==> slugged(s).0[0] != '-' && slugged(s).0.last() != '-',
    decreases s.len(),
{
    if s.len() > 0 {
        let rest = s.drop_last();
        slugs_are_plain(rest);
        if forall|i: int| 0 <= i < rest.len() ==> !is_alphanumeric(#[trigger] rest[i]) {
            assert forall|i: int|
                0 <= i < s.len() && !is_alphanumeric(s.last()) implies !is_alphanumeric(
                #[trigger] s[i],
            ) by {
                if i < rest.len() {
                    assert(rest[i] == s[i]);
                }
            }
        } else {
            let i = choose|i: int| 0 <= i < rest.len() && is_alphanumeric(#[trigger] rest[i]);
            assert(s[i] == rest[i]);
        }
        assert(s[s.len() - 1] == s.last());
    }
}

/// What is read of the beginning of a component is that beginning, but for a hyphen at its
/// end.
proof fn lemma_slug_of_prefix(s: Seq<char>, n: int)
    requires
        0 <= n <= slugged(s).0.len(),
    ensures
        ({
            let slug = slugged(s).0;
            slugged(slug.take(n)) == (if n > 0 && slug[n - 1] == '-' {
                (slug.take(n - 1), true)
            } else {
                (slug.take(n), false)
            })
        }),
    decreases n,
{
    let slug = slugged(s).0;
    slugs_are_plain(s);
    if n == 0 {
        assert(slug.take(0) =~= Seq::<char>::empty());
    } else {
        lemma_slug_of_prefix(s, n - 1);
        let c = slug[n - 1];
        assert(slug.take(n).drop_last() =~= slug.take(n - 1));
        assert(slug.take(n).last() == c);
        if n >= 2 && slug[n - 2] == '-' {
            assert(c != '-');
            assert(slug.take(n) =~= slug.take(n - 2).push('-').push(c));
        } else if c != '-' {
            assert(slug.take(n) =~= slug.take(n - 1).push(c));
        }
    }
}

/// A component of a component is itself.
pub proof fn a_slug_of_a_slug_is_itself(s: Seq<char>)
    ensures
        slugged(slugged(s).0).0 == slugged(s).0,
{
    let slug = slugged(s).0;
    slugs_are_plain(s);
    lemma_slug_of_prefix(s, slug.len() as int);
    assert(slug.take(slug.len() as int) =~= slug);
}

/// Once a component is long enough, nothing more is added.
proof fn lemma_slug_stops(s: Seq<char>, n: int)
    requires
        0 <= n <= s.len(),
        slugged(s.take(n)).0.len() >= 24,
    ensures
        slugged(s).0 == slugged(s.take(n)).0,
    decreases s.len() - n,
{
    if n < s.len() {
        assert(s.take(n + 1).drop_last() =~= s.take(n));
        lemma_slug_stops(s, n + 1);
    } else {
        assert(s.take(n) =~= s);
    }
}

/// A component of a name.
pub fn slugify_tmux_component(value: &str) -> (r: String)
    ensures
        r@ == slugged(value@).0,
{
    let chars: Vec<char> = chars_of(value);
    let mut slug: Vec<char> = Vec::new();
    let mut separator_pending: bool = false;
    let mut i: usize = 0;
    assert(chars@.take(0) =~= Seq::<char>::empty());
    while i < chars.len() && slug.len() < 24
        invariant
            i <= chars@.len(),
            (slug@, separator_pending) == slugged(chars@.take(i as int)),
        decreases chars@.len() - i,
    {
        let c: char = chars[i];
        assert(chars@.take(i + 1).drop_last() =~= chars@.take(i as int));
        if is_ascii_alphanumeric(c) {
            if separator_pending && slug.len() > 0 {
                slug.push('-');
            }
            slug.push(ascii_lower_of(c));
            separator_pending = false;
        } else {
            separator_pending = true;
        }
        i += 1;
    }
    proof {
        if i < chars@.len() {
            lemma_slug_stops(chars@, i as int);
        } else {
            assert(chars@.take(i as int) =~= chars@);
        }
        assert(slug@.subrange(0, slug@.len() as int) =~= slug@);
    }
    string_of(&slug, 0, slug.len())
}

/// The project's part of a session's name.
pub open spec fn project_name(cwd: Seq<char>) -> Seq<char> {
    match file_name_text(cwd) {
        Some(name) => if slugged(name).0.len() > 0 {
            slugged(name).0
        } else {
            "session"@
        },
        None => "session"@,
    }
}

/// The identifier without its hyphens.
pub open spec fn without_hyphens(id: Seq<char>) -> Seq<char> {
    id.filter(|c: char| c != '-')
}

/// The name of the multiplexer's session for a thread: it depends on the thread's directory
/// and identifier alone.
pub open spec fn tmux_name(cwd: Seq<char>, native_id: Seq<char>) -> Seq<char> {
    "rc-"@ + project_name(cwd) + "-"@ + byte_suffix(without_hyphens(native_id), 8)
}

/// The name of the multiplexer's session for a thread.
pub fn deterministic_tmux_name(cwd: &str, native_id: &str) -> (r: String)
    ensures
        r@ == tmux_name(cwd@, native_id@),
{
    let chars: Vec<char> = chars_of(native_id);
    let ghost keep = |c: char| c != '-';
    let mut compact: Vec<char> = Vec::new();
    let mut i: usize = 0;
    assert(chars@.take(0).filter(keep) =~= Seq::<char>::empty()) by {
        reveal(Seq::filter);
    }
    while i < chars.len()
        invariant
            i <= chars@.len(),
            keep == (|c: char| c != '-'),
            compact@ == chars@.take(i as int).filter(keep),
        decreases chars@.len() - i,
    {
        let c: char = chars[i];
        proof {
            assert(chars@.take(i + 1) =~= chars@.take(i as int).push(c));
            chars@.take(i as int).lemma_filter_push(c, keep);
        }
        if c != '-' {
            compact.push(c);
        }
        i += 1;
    }
    assert(chars@.take(i as int) =~= native_id@);
    let project: String = match file_name(cwd) {
        Some(name) => {
            let slug: String = slugify_tmux_component(name.as_str());
            if slug.as_str().is_empty() {
                "session".to_owned()
            } else {
                slug
            }
        },
        None => "session".to_owned(),
    };
    let mut r: String = "rc-".to_owned();
    r.append(project.as_str());
    r.append("-");
    r.append(suffix(&compact).as_str());
    r
}

/// The name that a session still pending under a temporary one is to have.
pub open spec fn managed_name(
    current: Seq<char>,
    cwd: Seq<char>,
    native_id: Seq<char>,
) -> Option<Seq<char>> {
    if starts_text(current, "rc-pending-"@) && tmux_name(cwd, native_id) != current {
        Some(tmux_name(cwd, native_id))
    } else {
        None
    }
}

/// The name that a session still pending under a temporary one is to have.
pub fn normalized_managed_tmux_name(current: &str, cwd: &str, native_id: &str) -> (r: Option<String>)
    ensures
        r is Some <==> managed_name(current@, cwd@, native_id@) is Some,
        r matches Some(name) ==> managed_name(current@, cwd@, native_id@) == Some(name@),
{
    if !starts_with(current, "rc-pending-") {
        return None;
    }
    let desired: String = deterministic_tmux_name(cwd, native_id);
    if same(desired.as_str(), current) {
        None
    } else {
        Some(desired)
    }
}

// ---- threads ----

/// The status of a thread as the app-server reports it.
#[derive(Debug, Eq, PartialEq)]
pub enum RawThreadStatus {
    NotLoaded,
    Idle,
    SystemError,
    Active { active_flags: Vec<String> },
}

/// A thread as the app-server reports it; `source` is a JSON document.
#[derive(Debug, Eq, PartialEq)]
pub struct RawThread {
    pub id: String,
    pub cwd: String,
    pub name: Option<String>,
    pub preview: String,
    pub recency_at: Option<i64>,
    pub updated_at: i64,
    pub source: String,
    pub status: RawThreadStatus,
}

/// A turn of a thread as the app-server reports it; the items are JSON documents.
#[derive(Debug, Eq, PartialEq)]
pub struct ReadTurn {
    pub status: String,
    pub items: Vec<String>,
}

/// The activity of a thread of a status.
pub open spec fn status_activity(status: RawThreadStatus) -> Activity {
    match status {
        RawThreadStatus::Active { active_flags } => if texts(active_flags@).contains(
            "waitingOnApproval"@,
        ) {
            Activity::WaitingApproval
        } else if texts(active_flags@).contains("waitingOnUserInput"@) {
            Activity::WaitingInput
        } else {
            Activity::Working
        },
        RawThreadStatus::SystemError => Activity::Failed,
        RawThreadStatus::Idle | RawThreadStatus::NotLoaded => Activity::Completed,
    }
}

/// Whether a list holds a word.
fn holds(list: &Vec<String>, word: &str) -> (r: bool)
    ensures
        r == texts(list@).contains(word@),
{
    let mut i: usize = 0;
    while i < list.len()
        invariant
            i <= list@.len(),
            forall|j: int| 0 <= j < i ==> (#[trigger] list@[j])@ != word@,
        decreases list@.len() - i,
    {
        if same(list[i].as_str(), word) {
            assert(texts(list@)[i as int] == word@);
            return true;
        }
        i += 1;
    }
    assert forall|j: int| 0 <= j < texts(list@).len() implies texts(list@)[j] != word@ by {
        assert(list@[j]@ != word@);
    }
    false
}

/// The activity of a thread of a status.
pub fn activity_from_status(status: &RawThreadStatus) -> (r: Activity)
    ensures
        r == status_activity(*status),
{
    match status {
        RawThreadStatus::Active { active_flags } => if holds(active_flags, "waitingOnApproval") {
            Activity::WaitingApproval
        } else if holds(active_flags, "waitingOnUserInput") {
            Activity::WaitingInput
        } else {
            Activity::Working
        },
        RawThreadStatus::SystemError => Activity::Failed,
        RawThreadStatus::Idle | RawThreadStatus::NotLoaded => Activity::Completed,
    }
}

/// A text with single spaces for its white space.
pub open spec fn collapsed(s: Seq<char>) -> Seq<char> {
    joined(words_of(s), " "@)
}

fn collapse(s: &str) -> (r: String)
    ensures
        r@ == collapsed(s@),
{
    let pieces: Vec<String> = words(s);
    join_with(&pieces, " ")
}

/// The title of a thread without a name: its preview on one line, or else its directory.
pub open spec fn title_text(preview: Seq<char>, cwd: Seq<char>) -> Seq<char> {
    clipped(if collapsed(preview).len() == 0 { cwd } else { collapsed(preview) }, 72)
}

/// The title of a thread without a name.
pub fn compact_title(preview: &str, cwd: &str) -> (r: String)
    ensures
        r@ == title_text(preview@, cwd@),
{
    let compact: String = collapse(preview);
    if compact.as_str().is_empty() {
        clip(cwd, 72)
    } else {
        clip(compact.as_str(), 72)
    }
}

/// A message on one line.
pub fn compact_message(message: &str) -> (r: String)
    ensures
        r@ == clipped(collapsed(message@), 120),
{
    let compact: String = collapse(message);
    clip(compact.as_str(), 120)
}

/// Seconds since the epoch, or none before it.
pub open spec fn since_epoch(value: i64) -> u64 {
    if value >= 0 {
        value as u64
    } else {
        0
    }
}

fn positive_seconds(value: i64) -> (r: u64)
    ensures
        r == since_epoch(value),
{
    if value >= 0 {
        value as u64
    } else {
        0
    }
}

/// The name of a thread's source, where it is one.
pub open spec fn source_text(source: Seq<char>) -> Seq<char> {
    match json_text(source) {
        Some(name) => name,
        None => "unknown"@,
    }
}

fn source_name(source: &str) -> (r: String)
    ensures
        r@ == source_text(source@),
{
    match text_of(source) {
        Some(name) => name,
        None => "unknown".to_owned(),
    }
}

/// The session of a thread, before its host and its live state are known.
pub open spec fn thread_session(thread: RawThread) -> SessionView {
    SessionView {
        id: Seq::empty(),
        host: Seq::empty(),
        agent: AgentKind::Codex,
        native_session_id: thread.id@,
        title: if thread.name matches Some(name) && trimmed(name@).len() > 0 {
            thread.name->0@
        } else {
            title_text(thread.preview@, thread.cwd@)
        },
        cwd: thread.cwd@,
        source: source_text(thread.source@),
        activity: status_activity(thread.status),
        last_message: Seq::empty(),
        last_interaction_unix_seconds: since_epoch(
            match thread.recency_at {
                Some(at) => at,
                None => thread.updated_at,
            },
        ),
        updated_unix_seconds: since_epoch(thread.updated_at),
        runtime: RuntimeOwner::Resumable,
        tmux: None,
    }
}

impl From<RawThread> for Session {
    fn from(thread: RawThread) -> (r: Self)
        ensures
            r.view() == thread_session(thread),
    {
        let title: String = match &thread.name {
            Some(name) => if trim(name.as_str()).as_str().is_empty() {
                compact_title(thread.preview.as_str(), thread.cwd.as_str())
            } else {
                name.clone()
            },
            None => compact_title(thread.preview.as_str(), thread.cwd.as_str()),
        };
        let recency: i64 = match thread.recency_at {
            Some(at) => at,
            None => thread.updated_at,
        };
        Session {
            id: String::new(),
            host: String::new(),
            agent: AgentKind::Codex,
            native_session_id: thread.id,
            title,
            cwd: thread.cwd,
            source: source_name(thread.source.as_str()),
            activity: activity_from_status(&thread.status),
            last_message: String::new(),
            last_interaction_unix_seconds: positive_seconds(recency),
            updated_unix_seconds: positive_seconds(thread.updated_at),
            runtime: RuntimeOwner::Resumable,
            tmux: None,
        }
    }
}

impl vstd::std_specs::convert::FromSpecImpl<RawThread> for Session {
    open spec fn obeys_from_spec() -> bool {
        false
    }

    open spec fn from_spec(thread: RawThread) -> Self {
        arbitrary()
    }
}

/// How many threads may be asked for next: a hundred, or fewer where the limit leaves fewer.
pub open spec fn page_size(limit: Option<usize>, listed: nat) -> Option<usize> {
    match limit {
        None => Some(100usize),
        Some(limit) => if limit <= listed {
            None
        } else if limit - listed <= 100 {
            Some((limit - listed) as usize)
        } else {
            Some(100usize)
        },
    }
}

/// How many threads the next page asks for. None is asked for once the limit is reached.
pub fn next_page_size(limit: Option<usize>, listed: usize) -> (r: Option<usize>)
    ensures
        r == page_size(limit, listed as nat),
{
    match limit {
        None => Some(100),
        Some(limit) => if limit <= listed {
            None
        } else if limit - listed <= 100 {
            Some(limit - listed)
        } else {
            Some(100)
        },
    }
}

/// What a message of the app-server means to a request.
#[derive(Debug, Eq, PartialEq)]
pub enum Reply {
    /// It answers another request, or none.
    Other,
    /// It refuses the request.
    Refused(CodexError),
    /// It answers the request.
    Answered(String),
}

/// Decides what a message means to the request with the given number. `error` and `result`
/// are JSON documents.
pub fn read_reply(
    expected_id: u64,
    id: Option<u64>,
    error: Option<String>,
    result: Option<String>,
) -> (r: Reply)
    ensures
        r is Other <==> id != Some(expected_id),
        id == Some(expected_id) ==> match error {
            Some(error) => r == Reply::Refused(CodexError::Protocol(error)),
            None => match result {
                Some(result) => r == Reply::Answered(result),
                None => r matches Reply::Refused(error) && error is Protocol && error->Protocol_0@
                    == "response did not contain a result"@,
            },
        },
{
    let ours: bool = match id {
        Some(id) => id == expected_id,
        None => false,
    };
    if !ours {
        return Reply::Other;
    }
    match error {
        Some(error) => Reply::Refused(CodexError::Protocol(error)),
        None => match result {
            Some(result) => Reply::Answered(result),
            None => Reply::Refused(
                CodexError::Protocol("response did not contain a result".to_owned()),
            ),
        },
    }
}

// ---- details ----

/// The message that an item holds, where it is one of the agent's and not blank.
pub open spec fn item_message(item: Seq<char>) -> Option<Seq<char>> {
    if document_text(item, "type"@) == Some("agentMessage"@) {
        match document_text(item, "text"@) {
            Some(text) => if trimmed(text).len() > 0 {
                Some(text)
            } else {
                None
            },
            None => None,
        }
    } else {
        None
    }
}

/// The last message among the items.
pub open spec fn items_message(items: Seq<Seq<char>>) -> Option<Seq<char>>
    decreases items.len(),
{
    if items.len() == 0 {
        None
    } else if item_message(items.last()) is Some {
        item_message(items.last())
    } else {
        items_message(items.drop_last())
    }
}

/// The last message among the turns.
pub open spec fn turns_message(turns: Seq<ReadTurn>) -> Option<Seq<char>>
    decreases turns.len(),
{
    if turns.len() == 0 {
        None
    } else if items_message(texts(turns.last().items@)) is Some {
        items_message(texts(turns.last().items@))
    } else {
        turns_message(turns.drop_last())
    }
}

fn message_of(item: &str) -> (r: Option<String>)
    ensures
        r is Some <==> item_message(item@) is Some,
        r matches Some(text) ==> item_message(item@) == Some(text@),
{
    let agent: bool = match text_in(item, "type") {
        Some(kind) => same(kind.as_str(), "agentMessage"),
        None => false,
    };
    if !agent {
        return None;
    }
    match text_in(item, "text") {
        Some(text) => if trim(text.as_str()).as_str().is_empty() {
            None
        } else {
            Some(text)
        },
        None => None,
    }
}

/// The last message of the agent that is not blank.
pub fn last_agent_message(turns: &Vec<ReadTurn>) -> (r: Option<String>)
    ensures
        r is Some <==> turns_message(turns@) is Some,
        r matches Some(text) ==> turns_message(turns@) == Some(text@),
{
    let mut i: usize = turns.len();
    assert(turns@.take(i as int) =~= turns@);
    while i > 0
        invariant
            i <= turns@.len(),
            turns_message(turns@.take(i as int)) == turns_message(turns@),
        decreases i,
    {
        proof {
            assert(turns@.take(i as int).last() == turns@[i - 1]);
            assert(turns@.take(i as int).drop_last() =~= turns@.take(i - 1));
        }
        i -= 1;
        let items: &Vec<String> = &turns[i].items;
        let ghost views = texts(items@);
        let mut j: usize = items.len();
        assert(views.take(j as int) =~= views);
        while j > 0
            invariant
                i < turns@.len(),
                turns_message(turns@.take(i + 1)) == turns_message(turns@),
                turns@.take(i + 1).last() == turns@[i as int],
                items@ == turns@[i as int].items@,
                j <= items@.len(),
                views == texts(items@),
                items_message(views.take(j as int)) == items_message(views),
            decreases j,
        {
            proof {
                assert(views.take(j as int).last() == items@[j - 1]@);
                assert(views.take(j as int).drop_last() =~= views.take(j - 1));
            }
            j -= 1;
            if let Some(text) = message_of(items[j].as_str()) {
                return Some(text);
            }
        }
        assert(views.take(0).len() == 0);
    }
    assert(turns@.take(0).len() == 0);
    None
}

/// The activity after the details were read: the last turn counts unless the session works
/// or waits.
pub open spec fn detailed_activity(activity: Activity, turns: Seq<ReadTurn>) -> Activity {
    if turns.len() == 0 || activity is Working || activity is WaitingApproval
        || activity is WaitingInput {
        activity
    } else if turns.last().status@ == "inProgress"@ {
        Activity::Working
    } else if turns.last().status@ == "failed"@ {
        Activity::Failed
    } else if turns.last().status@ == "completed"@ || turns.last().status@ == "interrupted"@ {
        Activity::Completed
    } else {
        activity
    }
}

/// The session after its details were read.
pub open spec fn detailed(session: SessionView, turns: Seq<ReadTurn>) -> SessionView {
    SessionView {
        activity: detailed_activity(session.activity, turns),
        last_message: match turns_message(turns) {
            Some(message) => clipped(collapsed(message), 120),
            None => session.last_message,
        },
        ..session
    }
}

/// Adds the details of a thread to its session.
pub fn enrich_session(session: &mut Session, turns: &Vec<ReadTurn>)
    ensures
        final(session).view() == detailed(old(session).view(), turns@),
{
    if turns.len() > 0 {
        let status: &str = turns[turns.len() - 1].status.as_str();
        let settled: bool = match session.activity {
            Activity::Working | Activity::WaitingApproval | Activity::WaitingInput => false,
            _ => true,
        };
        if settled {
            if same(status, "inProgress") {
                session.activity = Activity::Working;
            } else if same(status, "failed") {
                session.activity = Activity::Failed;
            } else if same(status, "completed") || same(status, "interrupted") {
                session.activity = Activity::Completed;
            }
        }
    }
    if let Some(message) = last_agent_message(turns) {
        session.last_message = compact_message(message.as_str());
    }
}

/// The sessions after the details of some were read.
pub open spec fn all_detailed(
    sessions: Seq<SessionView>,
    details: Map<Seq<char>, Vec<ReadTurn>>,
) -> Seq<SessionView> {
    sessions.map_values(
        |session: SessionView|
            if details.dom().contains(session.native_session_id) {
                detailed(session, details[session.native_session_id]@)
            } else {
                session
            },
    )
}

/// Adds the details that could be read, by native identifier. A session whose details could
/// not be read stays as it was.
pub fn enrich_details(sessions: &mut Vec<Session>, details: &StringMap<Vec<ReadTurn>>)
    ensures
        session_views(final(sessions)@) == all_detailed(session_views(old(sessions)@), details@),
{
    let ghost before = sessions@;
    let mut i: usize = 0;
    while i < sessions.len()
        invariant
            i <= before.len(),
            sessions@.len() == before.len(),
            forall|j: int| i <= j < before.len() ==> sessions@[j] == before[j],
            forall|j: int|
                0 <= j < i ==> (#[trigger] sessions@[j]).view() == all_detailed(
                    session_views(before),
                    details@,
                )[j],
        decreases before.len() - i,
    {
        let mut session: Session = sessions[i].clone();
        if let Some(turns) = details.get(session.native_session_id.as_str()) {
            enrich_session(&mut session, turns);
        }
        sessions.set(i, session);
        i += 1;
    }
    assert(session_views(sessions@) =~= all_detailed(session_views(before), details@));
}

// ---- inventory ----

/// A thread with its host and what is known of its live process. Only a terminal frontend
/// gives a pane.
pub open spec fn correlated(
    session: SessionView,
    observed_host: Seq<char>,
    live: Map<Seq<char>, ObservationView>,
) -> SessionView {
    let id = session.native_session_id;
    let named = SessionView {
        host: observed_host,
        agent: AgentKind::Codex,
        id: stable_id_text(observed_host, AgentKind::Codex, id),
        ..session
    };
    if live.dom().contains(id) {
        SessionView {
            runtime: live[id].runtime,
            tmux: if live[id].runtime is TmuxFrontend { live[id].tmux } else { None },
            activity: merged_activity(session.activity, live[id].activity),
            ..named
        }
    } else {
        named
    }
}

/// The threads with their host and what is known of their live processes.
pub open spec fn all_correlated(
    sessions: Seq<SessionView>,
    observed_host: Seq<char>,
    live: Map<Seq<char>, ObservationView>,
) -> Seq<SessionView> {
    sessions.map_values(|session: SessionView| correlated(session, observed_host, live))
}

/// Gives a thread its host and what is known of its live process.
pub fn correlate_session(
    session: &mut Session,
    observed_host: &str,
    live: &StringMap<LiveObservation>,
)
    ensures
        final(session).view() == correlated(
            old(session).view(),
            observed_host@,
            observation_views(live@),
        ),
        final(session).last_interaction_unix_seconds == old(session).last_interaction_unix_seconds,
        final(session).updated_unix_seconds == old(session).updated_unix_seconds,
{
    session.host = observed_host.to_owned();
    session.agent = AgentKind::Codex;
    session.id = session.key().stable_id();
    if let Some(observation) = live.get(session.native_session_id.as_str()) {
        session.runtime = observation.runtime;
        session.tmux = match observation.runtime {
            RuntimeOwner::TmuxFrontend => clone_binding(&observation.tmux),
            _ => None,
        };
        session.activity = merge_observed_activity(session.activity, observation.activity);
    }
}

/// The inventory of a host: every thread with its host and live state, the latest
/// interaction first.
pub fn discover(
    threads: Vec<Session>,
    observed_host: &str,
    live: &StringMap<LiveObservation>,
) -> (r: Vec<Session>)
    ensures
        exists|rows: Seq<Session>|
            session_views(rows) == all_correlated(
                session_views(threads@),
                observed_host@,
                observation_views(live@),
            ) && r@ == #[trigger] crate::recency::recent_first(rows),
{
    let ghost before = threads@;
    let ghost views = observation_views(live@);
    let ghost change = |session: SessionView| correlated(session, observed_host@, views);
    let mut rows: Vec<Session> = Vec::new();
    let mut i: usize = 0;
    assert(session_views(rows@) =~= session_views(before.take(0)).map_values(change));
    while i < threads.len()
        invariant
            i <= threads@.len(),
            threads@ == before,
            views == observation_views(live@),
            change == (|session: SessionView| correlated(session, observed_host@, views)),
            session_views(rows@) == session_views(before.take(i as int)).map_values(change),
        decreases threads@.len() - i,
    {
        let mut session: Session = threads[i].clone();
        correlate_session(&mut session, observed_host, live);
        proof {
            lemma_session_views_push(rows@, session);
            assert(before.take(i + 1) =~= before.take(i as int).push(before[i as int]));
            lemma_session_views_push(before.take(i as int), before[i as int]);
            let views = session_views(before.take(i as int));
            let view = before[i as int].view();
            assert(views.push(view).map_values(change) =~= views.map_values(change).push(
                change(view),
            ));
        }
        rows.push(session);
        i += 1;
    }
    assert(before.take(i as int) =~= before);
    let ghost found = rows@;
    let r: Vec<Session> = crate::recency::sort_recent_first(rows);
    assert(session_views(found) == all_correlated(
        session_views(threads@),
        observed_host@,
        observation_views(live@),
    ));
    r
}

/// The name that the multiplexer's session of a thread should be given, where it still has a
/// temporary one.
pub open spec fn desired_name(session: SessionView) -> Option<Seq<char>> {
    match session.tmux {
        Some(binding) => if session.runtime is TmuxFrontend {
            managed_name(binding.0, session.cwd, session.native_session_id)
        } else {
            None
        },
        None => None,
    }
}

/// The name that the multiplexer's session of a thread should be given.
pub fn desired_tmux_name(session: &Session) -> (r: Option<String>)
    ensures
        r is Some <==> desired_name(session.view()) is Some,
        r matches Some(name) ==> desired_name(session.view()) == Some(name@),
{
    match (&session.runtime, &session.tmux) {
        (RuntimeOwner::TmuxFrontend, Some(binding)) => normalized_managed_tmux_name(
            binding.session.as_str(),
            session.cwd.as_str(),
            session.native_session_id.as_str(),
        ),
        _ => None,
    }
}

/// Notes that the multiplexer's session of a thread was renamed.
pub fn adopt_tmux_name(session: &mut Session, name: String)
    ensures
        final(session).view() == (SessionView {
            tmux: match old(session).view().tmux {
                Some(binding) => Some((name@, binding.1)),
                None => None,
            },
            ..old(session).view()
        }),
{
    let pane: Option<String> = match &session.tmux {
        Some(binding) => Some(binding.pane.clone()),
        None => None,
    };
    if let Some(pane) = pane {
        session.tmux = Some(TmuxBinding { session: name, pane });
    }
}

/// The inventory of a host with the details that could be read.
pub fn discover_detailed(
    threads: Vec<Session>,
    observed_host: &str,
    live: &StringMap<LiveObservation>,
    details: &StringMap<Vec<ReadTurn>>,
) -> (r: Vec<Session>)
    ensures
        exists|rows: Seq<Session>|
            session_views(rows) == all_correlated(
                session_views(threads@),
                observed_host@,
                observation_views(live@),
            ) && session_views(r@) == all_detailed(
                session_views(#[trigger] crate::recency::recent_first(rows)),
                details@,
            ),
{
    let mut sessions: Vec<Session> = discover(threads, observed_host, live);
    enrich_details(&mut sessions, details);
    sessions
}

// ---- opening a thread ----

/// The first session with a native identifier.
pub open spec fn first_native(sessions: Seq<Session>, native_id: Seq<char>) -> Option<Session>
    decreases sessions.len(),
{
    if sessions.len() == 0 {
        None
    } else if sessions[0].native_session_id@ == native_id {
        Some(sessions[0])
    } else {
        first_native(sessions.drop_first(), native_id)
    }
}

/// The first session with a native identifier.
pub fn find_native(sessions: &Vec<Session>, native_id: &str) -> (r: Option<Session>)
    ensures
        r == first_native(sessions@, native_id@),
{
    let mut i: usize = 0;
    assert(sessions@.skip(0) =~= sessions@);
    while i < sessions.len()
        invariant
            i <= sessions@.len(),
            first_native(sessions@.skip(i as int), native_id@) == first_native(
                sessions@,
                native_id@,
            ),
        decreases sessions@.len() - i,
    {
        proof {
            assert(sessions@.skip(i as int)[0] == sessions@[i as int]);
            assert(sessions@.skip(i as int).drop_first() =~= sessions@.skip(i + 1));
        }
        if same(sessions[i].native_session_id.as_str(), native_id) {
            return Some(sessions[i].clone());
        }
        i += 1;
    }
    assert(sessions@.skip(i as int).len() == 0);
    None
}

/// How a thread is opened.
#[derive(Debug, Eq, PartialEq)]
pub enum CodexAttachment {
    /// In the pane in which it runs.
    Pane { host: String, binding: TmuxBinding },
    /// In a new frontend on the shared app-server.
    Resume(Session),
}

/// How a session's thread is opened.
pub open spec fn attachment(session: Session) -> Result<CodexAttachment, CodexError> {
    match (session.runtime, session.tmux) {
        (RuntimeOwner::TmuxFrontend, Some(binding)) => Ok(
            CodexAttachment::Pane { host: session.host, binding },
        ),
        (RuntimeOwner::ExternalFrontend, _) => Err(CodexError::ExternalFrontend(session.id)),
        _ => Ok(CodexAttachment::Resume(session)),
    }
}

/// Decides how a thread is opened: in its pane where it has one, not at all where another
/// frontend owns it, and else in a new frontend.
pub fn attach(observed_host: &str, native_id: &str, sessions: &Vec<Session>) -> (r: Result<
    CodexAttachment,
    CodexError,
>)
    ensures
        match first_native(sessions@, native_id@) {
            None => r matches Err(error) && error is MissingSession && error->MissingSession_0@
                == stable_id_text(observed_host@, AgentKind::Codex, native_id@),
            Some(session) => r == attachment(session),
        },
{
    let session: Session = match resume(observed_host, native_id, sessions) {
        Ok(session) => session,
        Err(error) => {
            return Err(error);
        },
    };
    match (&session.runtime, &session.tmux) {
        (RuntimeOwner::TmuxFrontend, Some(binding)) => Ok(
            CodexAttachment::Pane { host: session.host.clone(), binding: binding.clone() },
        ),
        (RuntimeOwner::ExternalFrontend, _) => Err(
            CodexError::ExternalFrontend(session.id.clone()),
        ),
        _ => Ok(CodexAttachment::Resume(session)),
    }
}

/// The session that the user asked to open in a new frontend, whoever owns it.
pub fn resume(observed_host: &str, native_id: &str, sessions: &Vec<Session>) -> (r: Result<
    Session,
    CodexError,
>)
    ensures
        match first_native(sessions@, native_id@) {
            None => r matches Err(error) && error is MissingSession && error->MissingSession_0@
                == stable_id_text(observed_host@, AgentKind::Codex, native_id@),
            Some(session) => r == Ok::<Session, CodexError>(session),
        },
{
    match find_native(sessions, native_id) {
        Some(session) => Ok(session),
        None => {
            let key = SessionKey {
                host: observed_host.to_owned(),
                agent: AgentKind::Codex,
                native_session_id: native_id.to_owned(),
            };
            Err(CodexError::MissingSession(key.stable_id()))
        },
    }
}

/// The hand-over that opens a session in a new frontend on the shared app-server.
pub fn resume_session(
    session: &Session,
    app_server_socket: &str,
    inside_tmux: bool,
    local_hostname: &str,
) -> (r: Result<crate::tmux::Handoff, CodexError>)
    ensures
        r is Err <==> has_nul(session.native_session_id@) || has_nul(app_server_socket@) || (
        !is_local_host(session.host@, local_hostname@) && (has_nul(
            tmux_name(session.cwd@, session.native_session_id@),
        ) || has_nul(session.cwd@))),
        r matches Err(error) ==> error == CodexError::Tmux(TmuxError::Quote(QuotingError::Nul)),
        r matches Ok(handoff) ==> ({
            let name = tmux_name(session.cwd@, session.native_session_id@);
            let login = crate::quoting::shell_command(
                crate::tmux::login_words(
                    crate::quoting::shell_command(
                        crate::tmux::codex_resume_words(
                            app_server_socket@,
                            session.native_session_id@,
                        ),
                    ),
                ),
            );
            if is_local_host(session.host@, local_hostname@) {
                handoff.program@ == "tmux"@ && texts(handoff.arguments@)
                    == crate::tmux::local_resume(inside_tmux, name, session.cwd@, login)
            } else {
                handoff.program@ == "ssh"@ && texts(handoff.arguments@)
                    == crate::tmux::terminal_ssh(
                    session.host@,
                    crate::quoting::shell_command(
                        seq!["tmux"@] + crate::tmux::new_session_words(
                            "-A"@,
                            name,
                            session.cwd@,
                            login,
                        ),
                    ),
                )
            }
        }),
{
    let name: String = deterministic_tmux_name(
        session.cwd.as_str(),
        session.native_session_id.as_str(),
    );
    match crate::tmux::resume_codex(
        session.host.as_str(),
        name.as_str(),
        session.cwd.as_str(),
        session.native_session_id.as_str(),
        app_server_socket,
        inside_tmux,
        local_hostname,
    ) {
        Ok(handoff) => Ok(handoff),
        Err(error) => Err(CodexError::Tmux(error)),
    }
}

/// A thread that an external frontend owns is never opened by an attachment; one that only
/// the shared app-server holds can be given a frontend.
pub proof fn external_threads_are_left_alone(session: Session)
    ensures
        session.runtime is ExternalFrontend ==> attachment(session) is Err,
        session.runtime is SharedBackend || session.runtime is Resumable ==> attachment(session)
            == Ok::<CodexAttachment, CodexError>(CodexAttachment::Resume(session)),
{
}

} // verus!
