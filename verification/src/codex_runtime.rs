//! The app-server that all terminal frontends of one Codex home share on a host.

use vstd::prelude::*;

use crate::probe::{script_command, script_ssh};
use crate::quoting::has_nul;
use crate::text::{lines, lines_of, owned, starts_text, strip_prefix, texts, trim, trimmed};
use crate::tmux::{failure_message, failure_text, is_command, is_local_host, CommandOutcome};

verus! {

/// Whether the app-server runs, and on which socket.
#[derive(Debug, Eq, PartialEq)]
pub struct RuntimeStatus {
    pub socket_path: String,
    pub running: bool,
}

impl Clone for RuntimeStatus {
    fn clone(&self) -> (r: Self)
        ensures
            r == *self,
    {
        RuntimeStatus { socket_path: self.socket_path.clone(), running: self.running }
    }
}

/// Why the app-server could not be used.
#[derive(Debug, Eq, PartialEq)]
pub enum RuntimeError {
    MissingHome,
    CommandFailed { context: &'static str, message: String },
    Start { program: &'static str, source: String },
    Io(String),
    Handshake(String),
    WebSocket(String),
}

impl RuntimeError {
    /// What the user is told.
    pub open spec fn text(self) -> Seq<char> {
        match self {
            RuntimeError::MissingHome =>
                "neither XDG_RUNTIME_DIR nor HOME is available for the Codex runtime socket"@,
            RuntimeError::CommandFailed { context, message } => context@ + " failed: "@ + message@,
            RuntimeError::Start { program, source } => "could not start "@ + program@ + ": "@
                + source@,
            RuntimeError::Io(error) => "Codex shared-runtime I/O failed: "@ + error@,
            RuntimeError::Handshake(error) =>
                "Codex shared-runtime WebSocket handshake failed: "@ + error@,
            RuntimeError::WebSocket(error) => "Codex shared-runtime WebSocket failed: "@ + error@,
        }
    }

    /// What the user is told.
    pub fn message(&self) -> (r: String)
        ensures
            r@ == self.text(),
    {
        match self {
            RuntimeError::MissingHome =>
                "neither XDG_RUNTIME_DIR nor HOME is available for the Codex runtime socket".to_owned(),
            RuntimeError::CommandFailed { context, message } => {
                let mut r: String = (*context).to_owned();
                r.append(" failed: ");
                r.append(message.as_str());
                r
            },
            RuntimeError::Start { program, source } => {
                let mut r: String = "could not start ".to_owned();
                r.append(program);
                r.append(": ");
                r.append(source.as_str());
                r
            },
            RuntimeError::Io(error) => {
                let mut r: String = "Codex shared-runtime I/O failed: ".to_owned();
                r.append(error.as_str());
                r
            },
            RuntimeError::Handshake(error) => {
                let mut r: String = "Codex shared-runtime WebSocket handshake failed: ".to_owned();
                r.append(error.as_str());
                r
            },
            RuntimeError::WebSocket(error) => {
                let mut r: String = "Codex shared-runtime WebSocket failed: ".to_owned();
                r.append(error.as_str());
                r
            },
        }
    }
}

/// The script that tells whether the app-server runs.
pub const STATUS_SCRIPT: &'static str = r#"
set -eu
runtime_root="${XDG_RUNTIME_DIR:-${HOME:?HOME is required}/.cache/rollcall/runtime}"
codex_home="${CODEX_HOME:-${HOME:?HOME is required}/.codex}"
profile="$(printf '%s' "$codex_home" | cksum)"
profile="${profile%% *}"
socket="$runtime_root/rollcall/codex-$profile.sock"
session="rc-codex-$profile"
if command -v tmux >/dev/null 2>&1 &&
   tmux has-session -t "$session" 2>/dev/null &&
   [ -S "$socket" ]; then
  printf 'running\t%s\n' "$socket"
else
  printf 'stopped\t%s\n' "$socket"
fi
"#;

/// The script that starts the app-server where it does not run.
pub const START_SCRIPT: &'static str = r#"
set -eu
runtime_root="${XDG_RUNTIME_DIR:-${HOME:?HOME is required}/.cache/rollcall/runtime}"
runtime_dir="$runtime_root/rollcall"
codex_home="${CODEX_HOME:-${HOME:?HOME is required}/.codex}"
profile="$(printf '%s' "$codex_home" | cksum)"
profile="${profile%% *}"
socket="$runtime_dir/codex-$profile.sock"
session="rc-codex-$profile"
mkdir -p "$runtime_dir"
chmod 700 "$runtime_dir" 2>/dev/null || true

if tmux has-session -t "$session" 2>/dev/null && [ -S "$socket" ]; then
  printf 'running\t%s\n' "$socket"
  exit 0
fi

if tmux has-session -t "$session" 2>/dev/null; then
  stale_id="$(tmux display-message -p -t "$session" '#{session_id}' 2>/dev/null || true)"
  attempt=0
  while [ "$attempt" -lt 50 ]; do
    if [ -S "$socket" ]; then
      printf 'running\t%s\n' "$socket"
      exit 0
    fi
    if ! tmux has-session -t "$session" 2>/dev/null; then
      break
    fi
    attempt=$((attempt + 1))
    sleep 0.1
  done

  current_id="$(tmux display-message -p -t "$session" '#{session_id}' 2>/dev/null || true)"
  if [ -n "$stale_id" ] && [ "$current_id" = "$stale_id" ]; then
    tmux kill-session -t "$session" 2>/dev/null || true
  fi
fi

if tmux has-session -t "$session" 2>/dev/null; then
  attempt=0
  while [ "$attempt" -lt 50 ]; do
    if [ -S "$socket" ]; then
      printf 'running\t%s\n' "$socket"
      exit 0
    fi
    attempt=$((attempt + 1))
    sleep 0.1
  done
  printf 'stopped\t%s\n' "$socket"
  exit 1
fi
if [ -e "$socket" ]; then
  unlink "$socket"
fi

command -v codex >/dev/null 2>&1
command -v tmux >/dev/null 2>&1
printf -v listen_url 'unix://%s' "$socket"
printf -v quoted_url '%q' "$listen_url"
printf -v quoted_home '%q' "$codex_home"
tmux new-session -d -s "$session" \
  "export CODEX_HOME=$quoted_home; exec codex app-server --listen $quoted_url" \
  2>/dev/null || true

attempt=0
while [ "$attempt" -lt 50 ]; do
  if [ -S "$socket" ]; then
    printf 'running\t%s\n' "$socket"
    exit 0
  fi
  if ! tmux has-session -t "$session" 2>/dev/null; then
    printf 'stopped\t%s\n' "$socket"
    exit 1
  fi
  attempt=$((attempt + 1))
  sleep 0.1
done

printf 'stopped\t%s\n' "$socket"
exit 1
"#;

/// The script that stops the app-server.
pub const STOP_SCRIPT: &'static str = r#"
set -eu
runtime_root="${XDG_RUNTIME_DIR:-${HOME:?HOME is required}/.cache/rollcall/runtime}"
codex_home="${CODEX_HOME:-${HOME:?HOME is required}/.codex}"
profile="$(printf '%s' "$codex_home" | cksum)"
profile="${profile%% *}"
socket="$runtime_root/rollcall/codex-$profile.sock"
legacy_signature_file="$runtime_root/rollcall/codex-$profile.args"
session="rc-codex-$profile"
if command -v tmux >/dev/null 2>&1 &&
   tmux has-session -t "$session" 2>/dev/null; then
  tmux kill-session -t "$session"
fi
attempt=0
while [ -S "$socket" ] && [ "$attempt" -lt 20 ]; do
  attempt=$((attempt + 1))
  sleep 0.05
done
if [ -e "$socket" ]; then
  unlink "$socket"
fi
if [ -e "$legacy_signature_file" ]; then
  unlink "$legacy_signature_file"
fi
printf 'stopped\t%s\n' "$socket"
"#;

/// The script that tells whether the app-server runs.
pub fn runtime_status_script() -> (r: &'static str)
    ensures
        r@ == STATUS_SCRIPT@,
{
    STATUS_SCRIPT
}

/// The script that starts the app-server where it does not run.
pub fn runtime_start_script() -> (r: &'static str)
    ensures
        r@ == START_SCRIPT@,
{
    START_SCRIPT
}

/// The script that stops the app-server.
pub fn runtime_stop_script() -> (r: &'static str)
    ensures
        r@ == STOP_SCRIPT@,
{
    STOP_SCRIPT
}

/// The command that runs one of the scripts on a host.
pub fn host_script_command(host: &str, script: &str, local_hostname: &str) -> (r: Result<
    (&'static str, Vec<String>),
    RuntimeError,
>)
    ensures
        r is Err <==> !is_local_host(host@, local_hostname@) && has_nul(script@),
        r matches Err(error) ==> error is CommandFailed && error->context@
            == "quoting the remote Codex runtime command"@ && error->message@
            == "cannot shell-quote string containing nul byte"@,
        r matches Ok(command) ==> if is_local_host(host@, local_hostname@) {
            is_command(command, "bash"@, seq!["-c"@, script@])
        } else {
            is_command(command, "ssh"@, script_ssh(host@, "-c"@, script@, true))
        },
{
    proof {
        reveal_strlit("-c");
        assert(!has_nul("-c"@));
    }
    match script_command(host, "-c", script, true, local_hostname) {
        Ok(command) => Ok(command),
        Err(_error) => Err(
            RuntimeError::CommandFailed {
                context: "quoting the remote Codex runtime command",
                message: "cannot shell-quote string containing nul byte".to_owned(),
            },
        ),
    }
}

/// What a script printed, where it succeeded.
pub fn run_host_script(outcome: &CommandOutcome) -> (r: Result<String, RuntimeError>)
    ensures
        r is Ok <==> outcome.success,
        r matches Ok(output) ==> output@ == outcome.stdout@,
        r matches Err(error) ==> error is CommandFailed && error->context@
            == "probing the Codex shared runtime"@ && error->message@ == failure_text(*outcome),
{
    if outcome.success {
        Ok(outcome.stdout.clone())
    } else {
        Err(
            RuntimeError::CommandFailed {
                context: "probing the Codex shared runtime",
                message: failure_message(outcome),
            },
        )
    }
}

/// The status that the last such line tells.
pub open spec fn told_status(lines: Seq<Seq<char>>) -> Option<(bool, Seq<char>)>
    decreases lines.len(),
{
    if lines.len() == 0 {
        None
    } else if starts_text(lines.last(), "running\t"@) {
        Some((true, lines.last().skip("running\t"@.len() as int)))
    } else if starts_text(lines.last(), "stopped\t"@) {
        Some((false, lines.last().skip("stopped\t"@.len() as int)))
    } else {
        told_status(lines.drop_last())
    }
}

/// Reads the status that a script printed: the last line that tells one counts.
pub fn parse_status(output: &str) -> (r: Result<RuntimeStatus, RuntimeError>)
    ensures
        r is Ok <==> told_status(lines_of(output@)) is Some,
        r matches Ok(status) ==> told_status(lines_of(output@)) == Some(
            (status.running, status.socket_path@),
        ),
        r matches Err(error) ==> error is CommandFailed && error->context@
            == "reading Codex shared-runtime status"@ && error->message@ == trimmed(output@),
{
    let all: Vec<String> = lines(output);
    let ghost views = texts(all@);
    let mut i: usize = all.len();
    assert(views.take(i as int) =~= views);
    while i > 0
        invariant
            i <= all@.len(),
            views == texts(all@),
            told_status(views.take(i as int)) == told_status(lines_of(output@)),
        decreases i,
    {
        proof {
            assert(views.take(i as int).last() == all@[i - 1]@);
            assert(views.take(i as int).drop_last() =~= views.take(i - 1));
        }
        i -= 1;
        if let Some(socket_path) = strip_prefix(all[i].as_str(), "running\t") {
            return Ok(RuntimeStatus { socket_path, running: true });
        }
        if let Some(socket_path) = strip_prefix(all[i].as_str(), "stopped\t") {
            return Ok(RuntimeStatus { socket_path, running: false });
        }
    }
    assert(views.take(0).len() == 0);
    Err(
        RuntimeError::CommandFailed {
            context: "reading Codex shared-runtime status",
            message: trim(output),
        },
    )
}

/// The status that a finished script tells.
pub fn status(outcome: &CommandOutcome) -> (r: Result<RuntimeStatus, RuntimeError>)
    ensures
        r is Ok <==> outcome.success && told_status(lines_of(outcome.stdout@)) is Some,
        r matches Ok(status) ==> told_status(lines_of(outcome.stdout@)) == Some(
            (status.running, status.socket_path@),
        ),
        r matches Err(error) ==> error is CommandFailed && if outcome.success {
            error->context@ == "reading Codex shared-runtime status"@ && error->message@ == trimmed(
                outcome.stdout@,
            )
        } else {
            error->context@ == "probing the Codex shared runtime"@ && error->message@
                == failure_text(*outcome)
        },
{
    match run_host_script(outcome) {
        Ok(output) => parse_status(output.as_str()),
        Err(error) => Err(error),
    }
}

/// The socket of the app-server after it was started: it must run.
pub fn ensure(outcome: &CommandOutcome) -> (r: Result<String, RuntimeError>)
    ensures
        r is Ok <==> outcome.success && (told_status(lines_of(outcome.stdout@)) matches Some(told)
            && told.0),
        r matches Ok(socket) ==> told_status(lines_of(outcome.stdout@)) == Some((true, socket@)),
        r matches Err(error) ==> error is CommandFailed && if !outcome.success {
            error->context@ == "probing the Codex shared runtime"@ && error->message@
                == failure_text(*outcome)
        } else if told_status(lines_of(outcome.stdout@)) is Some {
            error->context@ == "starting the Codex shared runtime"@ && error->message@ == trimmed(
                outcome.stdout@,
            )
        } else {
            error->context@ == "reading Codex shared-runtime status"@ && error->message@ == trimmed(
                outcome.stdout@,
            )
        },
{
    match status(outcome) {
        Err(error) => Err(error),
        Ok(status) => if status.running {
            Ok(status.socket_path)
        } else {
            Err(
                RuntimeError::CommandFailed {
                    context: "starting the Codex shared runtime",
                    message: trim(outcome.stdout.as_str()),
                },
            )
        },
    }
}

/// The status of the app-server after it was stopped.
pub fn stop(outcome: &CommandOutcome) -> (r: Result<RuntimeStatus, RuntimeError>)
    ensures
        r is Ok <==> outcome.success && told_status(lines_of(outcome.stdout@)) is Some,
        r matches Ok(status) ==> told_status(lines_of(outcome.stdout@)) == Some(
            (status.running, status.socket_path@),
        ),
        r matches Err(error) ==> error is CommandFailed && if outcome.success {
            error->context@ == "reading Codex shared-runtime status"@ && error->message@ == trimmed(
                outcome.stdout@,
            )
        } else {
            error->context@ == "probing the Codex shared runtime"@ && error->message@
                == failure_text(*outcome)
        },
{
    status(outcome)
}

/// How a connection to the app-server begins.
#[derive(Debug, Eq, PartialEq)]
pub enum ConnectStep {
    /// It runs: connect to this socket.
    Connect(String),
    /// It does not run: start it first.
    Start,
}

/// Decides by the status whether the app-server has to be started before it is connected to.
pub fn connect_or_start(status: RuntimeStatus) -> (r: ConnectStep)
    ensures
        status.running ==> r == ConnectStep::Connect(status.socket_path),
        !status.running ==> r is Start,
{
    if status.running {
        ConnectStep::Connect(status.socket_path)
    } else {
        ConnectStep::Start
    }
}

/// The arguments of the connection that forwards a socket, is kept alive, and fails where the
/// socket cannot be forwarded.
pub fn forward_arguments(local_socket: &str, remote_socket: &str, host: &str) -> (r: Vec<String>)
    ensures
        texts(r@) == seq![
            "-N"@,
            "-T"@,
            "-o"@,
            "BatchMode=yes"@,
            "-o"@,
            "ConnectTimeout=5"@,
            "-o"@,
            "ConnectionAttempts=1"@,
            "-o"@,
            "ExitOnForwardFailure=yes"@,
            "-o"@,
            "ServerAliveInterval=15"@,
            "-o"@,
            "ServerAliveCountMax=3"@,
            "-o"@,
            "StreamLocalBindUnlink=yes"@,
            "-L"@,
            local_socket@ + ":"@ + remote_socket@,
            "--"@,
            host@,
        ],
{
    let mut forward: String = local_socket.to_owned();
    forward.append(":");
    forward.append(remote_socket);
    let r: Vec<String> = owned(
        [
            "-N",
            "-T",
            "-o",
            "BatchMode=yes",
            "-o",
            "ConnectTimeout=5",
            "-o",
            "ConnectionAttempts=1",
            "-o",
            "ExitOnForwardFailure=yes",
            "-o",
            "ServerAliveInterval=15",
            "-o",
            "ServerAliveCountMax=3",
            "-o",
            "StreamLocalBindUnlink=yes",
            "-L",
            forward.as_str(),
            "--",
            host,
        ],
    );
    let ghost expected = seq![
        "-N"@,
        "-T"@,
        "-o"@,
        "BatchMode=yes"@,
        "-o"@,
        "ConnectTimeout=5"@,
        "-o"@,
        "ConnectionAttempts=1"@,
        "-o"@,
        "ExitOnForwardFailure=yes"@,
        "-o"@,
        "ServerAliveInterval=15"@,
        "-o"@,
        "ServerAliveCountMax=3"@,
        "-o"@,
        "StreamLocalBindUnlink=yes"@,
        "-L"@,
        forward@,
        "--"@,
        host@,
    ];
    assert(texts(r@) =~= expected);
    r
}

/// What the wait for a forwarded socket has come to.
#[derive(Debug, Eq, PartialEq)]
pub enum SocketWait {
    Ready,
    Again,
    Failed(RuntimeError),
}

/// Decides one round of the wait for a forwarded socket: the time must not be over, the
/// socket may be there, and the connection may have ended.
pub fn wait_for_socket(
    in_time: bool,
    exists: bool,
    ended: Option<String>,
    path: &str,
) -> (r: SocketWait)
    ensures
        r is Ready <==> in_time && exists,
        r is Again <==> in_time && !exists && ended is None,
        r matches SocketWait::Failed(error) ==> error is CommandFailed && error->context@
            == "opening the SSH Unix-socket forward"@ && error->message@ == (if in_time {
            ended->0@
        } else {
            "timed out waiting for "@ + path@
        }),
{
    if !in_time {
        let mut message: String = "timed out waiting for ".to_owned();
        message.append(path);
        return SocketWait::Failed(
            RuntimeError::CommandFailed {
                context: "opening the SSH Unix-socket forward",
                message,
            },
        );
    }
    if exists {
        return SocketWait::Ready;
    }
    match ended {
        Some(message) => SocketWait::Failed(
            RuntimeError::CommandFailed {
                context: "opening the SSH Unix-socket forward",
                message,
            },
        ),
        None => SocketWait::Again,
    }
}

} // verus!
