//! How the sessions of tmux are listed, attached to, captured and started.

use vstd::prelude::*;

use crate::order::{ranked_contains, ranked_is_in_order, ranked_is_permutation};
use crate::quoting::{has_nul, shell_command};
use crate::text::{
    contains_text, decimal, is_space, lines_of, parsed_number, split_text, texts, trimmed,
    trimmed_end,
};
use crate::tmux::{
    attach_pane, capture_pane, capture_pane_command, discover, discover_command, find_client,
    handed_over, is_local, local_hostname, nonempty_lines, origin_client, parse_target,
    plan_attachment, rename_session, resume_codex, resume_command, sanitize_capture, target_id,
    targeted, AttachmentPlan, CommandOutcome, Handoff, TmuxError, TmuxSession, TmuxTarget,
    SESSION_FORMAT,
};

verus! {

// ---- hosts ----

/// This host is meant by `local` and by its own name, and by nothing else.
pub proof fn this_host_has_two_names(host: &str, hostname: &str, r: bool)
    requires
        call_ensures(is_local, (host, hostname), r),
    ensures
        host@ == "local"@ ==> r,
        host@ == hostname@ ==> r,
        host@ != "local"@ && host@ != hostname@ ==> !r,
{
}

/// The name of this host is the one in the environment, unless that is missing or empty; else
/// the one that was printed, without blanks around it; else it is `local`.
pub proof fn the_environment_names_this_host(
    environment: Option<String>,
    printed: Option<String>,
    r: String,
)
    requires
        call_ensures(local_hostname, (environment, printed), r),
    ensures
        ({
            let set = environment is Some && environment->0@.len() > 0;
            let said = printed is Some && trimmed(printed->0@).len() > 0;
            &&& set ==> r@ == environment->0@
            &&& !set && said ==> r@ == trimmed(printed->0@)
            &&& !set && !said ==> r@ == "local"@
        }),
{
}

// ---- listing ----

/// A listed session is the one that a row tells of: its name, when it was made and last used,
/// how many clients it has and how many windows.
pub open spec fn tells_of(row: Seq<char>, host: Seq<char>, session: TmuxSession) -> bool {
    let fields = split_text(row, '\t');
    &&& fields.len() == 5
    &&& session.name@ == fields[0]
    &&& session.host@ == host
    &&& session.id@ == host + ":tmux:"@ + fields[0]
    &&& parsed_number(fields[1], u64::MAX as nat) == Some(session.created_unix_seconds as nat)
    &&& parsed_number(fields[2], u64::MAX as nat) == Some(session.last_activity_unix_seconds as nat)
    &&& parsed_number(fields[3], u32::MAX as nat) == Some(session.attached_clients as nat)
    &&& parsed_number(fields[4], u32::MAX as nat) == Some(session.windows as nat)
}

/// One of the sessions is the one that a row tells of.
pub open spec fn is_listed(row: Seq<char>, host: Seq<char>, sessions: Seq<TmuxSession>) -> bool {
    exists|k: int| 0 <= k < sessions.len() && tells_of(row, host, #[trigger] sessions[k])
}

/// One of the rows tells of a session.
pub open spec fn is_told_of(rows: Seq<Seq<char>>, host: Seq<char>, session: TmuxSession) -> bool {
    exists|i: int| 0 <= i < rows.len() && tells_of(#[trigger] rows[i], host, session)
}

/// Every row that tmux printed is listed, and nothing else is; what was used last stands first.
pub proof fn tmux_sessions_stand_by_their_last_use(
    host: &str,
    hostname: &str,
    outcome: &CommandOutcome,
    r: Result<Vec<TmuxSession>, TmuxError>,
)
    requires
        call_ensures(discover, (host, hostname, outcome), r),
        outcome.success,
    ensures
        r matches Ok(sessions) ==> {
            let rows = nonempty_lines(outcome.stdout@);
            let shown = if host@ == "local"@ {
                hostname@
            } else {
                host@
            };
            &&& sessions@.len() == rows.len()
            &&& forall|i: int|
                0 <= i < rows.len() ==> is_listed(#[trigger] rows[i], shown, sessions@)
            &&& forall|k: int|
                0 <= k < sessions@.len() ==> is_told_of(rows, shown, #[trigger] sessions@[k])
            &&& forall|a: int, b: int|
                0 <= a < b < sessions@.len() ==> (
                #[trigger] sessions@[a]).last_activity_unix_seconds >= (
                #[trigger] sessions@[b]).last_activity_unix_seconds
        },
{
    reveal_strlit(":tmux:");
    reveal_strlit("tmux");
    if let Ok(sessions) = r {
        let lines = nonempty_lines(outcome.stdout@);
        let shown = if host@ == "local"@ {
            hostname@
        } else {
            host@
        };
        let rows = choose|rows: Seq<TmuxSession>| #[trigger]
            crate::tmux::are_rows_of(
                rows,
                crate::tmux::observed_host_text(host@, hostname@),
                lines,
            ) && sessions@ == crate::order::ranked(rows);
        ranked_is_permutation(rows);
        ranked_is_in_order(rows);
        assert forall|i: int| 0 <= i < rows.len() implies tells_of(
            #[trigger] lines[i],
            shown,
            rows[i],
        ) by {
            assert(crate::tmux::is_row_of(rows[i], shown, lines[i]));
            let name = split_text(lines[i], '\t')[0];
            assert(target_id(shown, name) =~= shown + ":tmux:"@ + name);
        }
        assert forall|i: int| 0 <= i < lines.len() implies is_listed(
            #[trigger] lines[i],
            shown,
            sessions@,
        ) by {
            assert(rows.contains(rows[i]));
            ranked_contains(rows, rows[i]);
            let k = choose|k: int| 0 <= k < sessions@.len() && sessions@[k] == rows[i];
            assert(tells_of(lines[i], shown, sessions@[k]));
        }
        assert forall|k: int| 0 <= k < sessions@.len() implies is_told_of(
            lines,
            shown,
            #[trigger] sessions@[k],
        ) by {
            assert(sessions@.contains(sessions@[k]));
            ranked_contains(rows, sessions@[k]);
            let i = choose|i: int| 0 <= i < rows.len() && rows[i] == sessions@[k];
            assert(tells_of(lines[i], shown, sessions@[k]));
        }
        assert forall|a: int, b: int| 0 <= a < b < sessions@.len() implies (
        #[trigger] sessions@[a]).last_activity_unix_seconds >= (
        #[trigger] sessions@[b]).last_activity_unix_seconds by {
            assert(crate::order::Ranked::at_most(sessions@[a], sessions@[b]));
        }
    }
}

/// A host on which no tmux runs has no sessions; any other failure is an error with what was
/// said, or with how the command ended.
pub proof fn a_missing_server_has_no_sessions(
    host: &str,
    hostname: &str,
    outcome: &CommandOutcome,
    r: Result<Vec<TmuxSession>, TmuxError>,
)
    requires
        call_ensures(discover, (host, hostname, outcome), r),
        !outcome.success,
    ensures
        ({
            let said = trimmed(outcome.stderr@);
            let missing = contains_text(said, "no server running"@) || contains_text(
                said,
                "failed to connect to server"@,
            ) || contains_text(said, "error connecting to"@) || contains_text(said, "no sessions"@);
            &&& missing ==> (r matches Ok(sessions) && sessions@.len() == 0)
            &&& !missing ==> r is Err
            &&& !missing && said.len() > 0 ==> (r->Err_0 matches TmuxError::CommandFailed {
                message,
                ..
            } && message@ == said)
            &&& !missing && said.len() == 0 ==> (r->Err_0 matches TmuxError::CommandFailed {
                message,
                ..
            } && message@ == outcome.status@)
        }),
{
}

// ---- attaching ----

/// A session is named by its bare name on this host, or by its host, `tmux` and its name; other
/// texts name none.
pub proof fn a_target_is_named_in_two_ways(
    session: &str,
    r: Result<TmuxTarget, TmuxError>,
    host: Seq<char>,
    name: Seq<char>,
)
    requires
        call_ensures(parse_target, (session,), r),
        name.len() > 0,
    ensures
        session@ == name && !name.contains(':') ==> (r matches Ok(target) && target.host@
            == "local"@ && target.name@ == name),
        session@ == host + ":tmux:"@ + name && host.len() > 0 && !host.contains(':') ==> (r matches
            Ok(target) && target.host@ == host && target.name@ == name),
        session@.len() == 0 ==> r is Err,
{
    reveal_strlit(":tmux:");
    reveal_strlit("tmux");
    if session@ == name && !name.contains(':') {
        assert(crate::tmux::names_target(session@, "local"@, name));
        if let Ok(target) = r {
            if target.host@.len() > 0 && session@ == target_id(target.host@, target.name@) {
                let at = target.host@.len() as int;
                assert(session@[at] == ':');
                assert(session@.contains(':'));
            }
        }
    }
    if session@ == host + ":tmux:"@ + name && host.len() > 0 && !host.contains(':') {
        assert(session@ =~= target_id(host, name));
        crate::tmux::target_ids_round_trip(host, name);
        assert(crate::tmux::names_target(session@, host, name));
    }
    if session@.len() == 0 && r is Ok {
        let target = r->Ok_0;
        assert(target_id(target.host@, target.name@).len() > 0);
    }
}

/// Attaching to a session of this host switches the client that the user sits in, or attaches
/// one where there is none; one of another host is attached to on a terminal over ssh.
pub proof fn attaching_goes_to_the_session(
    host: &str,
    name: &str,
    pane: &str,
    inside: bool,
    hostname: &str,
    r: Result<Handoff, TmuxError>,
)
    requires
        call_ensures(attach_pane, (host, name, pane, inside, hostname), r),
    ensures
        ({
            let here = host@ == "local"@ || host@ == hostname@;
            let enter = if inside && here {
                "switch-client"@
            } else {
                "attach-session"@
            };
            let words = seq![
                "select-window"@, "-t"@, pane@, ";"@,
                "select-pane"@, "-t"@, pane@, ";"@,
                enter, "-t"@, name@
            ];
            &&& here ==> r is Ok
            &&& here ==> (r matches Ok(handoff) ==> handoff.program@ == "tmux"@ && texts(
                handoff.arguments@,
            ) == words)
            &&& !here ==> (r matches Ok(handoff) ==> handoff.program@ == "ssh"@ && texts(
                handoff.arguments@,
            ) == seq!["-t"@, "--"@, host@, shell_command(seq!["tmux"@] + words)])
        }),
{
}

/// A session that is started on this host runs its command in a login shell in its directory,
/// under its name; the client that the user sits in is switched to it, and without one it is
/// attached to. On another host it is attached to over ssh.
pub proof fn starting_a_session_enters_it(
    host: &str,
    name: &str,
    cwd: &str,
    command: &str,
    inside: bool,
    hostname: &str,
    r: Result<Handoff, TmuxError>,
)
    requires
        call_ensures(resume_command, (host, name, cwd, command, inside, hostname), r),
        !has_nul(command@) && !has_nul(name@) && !has_nul(cwd@),
    ensures
        ({
            let here = host@ == "local"@ || host@ == hostname@;
            let login = shell_command(seq!["exec"@, "bash"@, "-lc"@, command@]);
            let attached = seq!["new-session"@, "-A"@, "-s"@, name@, "-c"@, cwd@, login];
            let detached = seq![
                "new-session"@, "-Ad"@, "-s"@, name@, "-c"@, cwd@, login, ";"@,
                "switch-client"@, "-t"@, name@
            ];
            &&& r is Ok
            &&& here ==> r->Ok_0.program@ == "tmux"@ && texts(r->Ok_0.arguments@) == (if inside {
                detached
            } else {
                attached
            })
            &&& !here ==> r->Ok_0.program@ == "ssh"@ && texts(r->Ok_0.arguments@) == seq![
                "-t"@, "--"@, host@, shell_command(seq!["tmux"@] + attached)
            ]
        }),
{
    let login = shell_command(seq!["exec"@, "bash"@, "-lc"@, command@]);
    assert(crate::tmux::new_session_words("-Ad"@, name@, cwd@, login) + seq![
        ";"@, "switch-client"@, "-t"@, name@
    ] =~= seq![
        "new-session"@, "-Ad"@, "-s"@, name@, "-c"@, cwd@, login, ";"@,
        "switch-client"@, "-t"@, name@
    ]);
}

/// Renaming runs nothing where the name is right already, and else renames that session.
pub proof fn renaming_renames_the_session(
    host: &str,
    current: &str,
    desired: &str,
    hostname: &str,
    r: Result<Option<(&'static str, Vec<String>)>, TmuxError>,
)
    requires
        call_ensures(rename_session, (host, current, desired, hostname), r),
        !has_nul(current@) && !has_nul(desired@),
    ensures
        ({
            let here = host@ == "local"@ || host@ == hostname@;
            let words = seq!["rename-session"@, "-t"@, current@, desired@];
            &&& r is Ok
            &&& current@ == desired@ <==> r->Ok_0 is None
            &&& current@ != desired@ && here ==> ((r->Ok_0)->0).0@ == "tmux"@ && texts(
                ((r->Ok_0)->0).1@,
            ) == words
            &&& current@ != desired@ && !here ==> ((r->Ok_0)->0).0@ == "ssh"@ && texts(
                ((r->Ok_0)->0).1@,
            ) == seq!["-T"@, "--"@, host@, shell_command(seq!["tmux"@] + words)]
        }),
{
    assert(seq!["tmux"@] + seq!["rename-session"@, "-t"@, current@, desired@] =~= seq![
        "tmux"@, "rename-session"@, "-t"@, current@, desired@
    ]);
}

// ---- capturing ----

/// A capture asks for as many lines of the pane as were asked for, but for one at least and for
/// a thousand at most.
pub proof fn a_capture_is_bounded(
    target: &TmuxTarget,
    pane: &str,
    lines: usize,
    hostname: &str,
    r: Result<(&'static str, Vec<String>), TmuxError>,
)
    requires
        call_ensures(capture_pane_command, (target, pane, lines, hostname), r),
        target.host@ == "local"@ || target.host@ == hostname@,
    ensures
        ({
            let n: nat = if lines == 0 {
                1
            } else if lines <= 1_000 {
                lines as nat
            } else {
                1_000
            };
            r is Ok && (r->Ok_0).0@ == "tmux"@ && texts((r->Ok_0).1@) == seq![
                "capture-pane"@, "-p"@, "-J"@, "-S"@, "-"@ + decimal(n), "-t"@, pane@
            ]
        }),
{
}

/// Of a capture everything is shown but control characters, of which only line ends and tabs
/// are; and it does not end in blanks.
pub proof fn a_capture_shows_no_control_characters(capture: &str, r: String, i: int)
    requires
        call_ensures(sanitize_capture, (capture,), r),
    ensures
        0 <= i < r@.len() ==> capture@.contains(r@[i]) && (r@[i] == '\n' || r@[i] == '\t' || !((
        r@[i] as int) < 0x20 || 0x7F <= (r@[i] as int) <= 0x9F)),
        r@.len() > 0 ==> !is_space(r@.last()),
        (forall|k: int|
            0 <= k < capture@.len() ==> (#[trigger] capture@[k]) == '\n' || capture@[k] == '\t' || !(
            (capture@[k] as int) < 0x20 || 0x7F <= (capture@[k] as int) <= 0x9F)) && (
        capture@.len() > 0 ==> !is_space(capture@.last())) ==> r@ == capture@,
{
    let keep = |c: char| crate::tmux::is_shown(c);
    let kept = capture@.filter(keep);
    lemma_trimmed_end(kept);
    if 0 <= i < r@.len() {
        assert(r@[i] == kept[i]);
        capture@.lemma_filter_pred(keep, i);
        assert(kept.contains(kept[i]));
        capture@.lemma_filter_contains_rev(keep, kept[i]);
    }
    if forall|k: int|
        0 <= k < capture@.len() ==> (#[trigger] capture@[k]) == '\n' || capture@[k] == '\t' || !((
        capture@[k] as int) < 0x20 || 0x7F <= (capture@[k] as int) <= 0x9F) {
        lemma_filter_all(capture@, keep);
    }
}

proof fn lemma_filter_all(s: Seq<char>, keep: spec_fn(char) -> bool)
    requires
        forall|k: int| 0 <= k < s.len() ==> keep(#[trigger] s[k]),
    ensures
        s.filter(keep) == s,
    decreases s.len(),
{
    reveal(Seq::filter);
    if s.len() > 0 {
        assert forall|k: int| 0 <= k < s.drop_last().len() implies keep(
            #[trigger] s.drop_last()[k],
        ) by {
            assert(keep(s[k]));
        }
        lemma_filter_all(s.drop_last(), keep);
        assert(keep(s[s.len() - 1]));
        assert(s.drop_last().push(s.last()) =~= s);
    } else {
        assert(s.filter(keep) =~= s);
    }
}

proof fn lemma_trimmed_end(s: Seq<char>)
    ensures
        trimmed_end(s).len() <= s.len(),
        forall|i: int| 0 <= i < trimmed_end(s).len() ==> #[trigger] trimmed_end(s)[i] == s[i],
        trimmed_end(s).len() > 0 ==> !is_space(trimmed_end(s).last()),
    decreases s.len(),
{
    if s.len() > 0 && is_space(s.last()) {
        lemma_trimmed_end(s.drop_last());
    }
}

// ---- clients ----

/// A command that switches a client is told which one: the name follows each `switch-client`
/// that begins a command, and every other word stays.
pub proof fn switching_names_the_client(
    words: Seq<Seq<char>>,
    last: Seq<char>,
    client: Seq<char>,
)
    ensures
        ({
            let begins = words.len() == 0 || words.last() == ";"@;
            let after = targeted(words.push(last), client);
            let before = targeted(words, client);
            &&& last == "switch-client"@ && begins ==> after == before + seq![last, "-c"@, client]
            &&& !(last == "switch-client"@ && begins) ==> after == before.push(last)
            &&& words.len() == 0 ==> before.len() == 0
        }),
{
    let all = words.push(last);
    assert(all.drop_last() =~= words);
    if words.len() > 0 {
        assert(all[all.len() - 2] == words.last());
    }
    assert(targeted(words, client).push(last).push("-c"@).push(client) =~= targeted(words, client)
        + seq![last, "-c"@, client]);
}

/// A connection from a popup takes the place of the client below it; one from elsewhere runs
/// where it was asked for. A command of tmux is told the client of the popup, where there is
/// one, and any other command runs as it is.
pub proof fn a_popup_hands_its_client_over(
    program: &'static str,
    arguments: &Vec<String>,
    client: Option<String>,
    inside: bool,
    r: Result<AttachmentPlan, TmuxError>,
)
    requires
        call_ensures(plan_attachment, (program, arguments, client, inside), r),
    ensures
        program@ != "ssh"@ ==> r is Ok,
        r matches Ok(plan) ==> {
            let over_ssh = program@ == "ssh"@;
            &&& plan is ReplaceClient <==> over_ssh && client is Some && inside
            &&& plan matches AttachmentPlan::ReplaceClient { client: named, .. } ==> named@
                == client->0@
            &&& plan matches AttachmentPlan::Run { program: run, arguments: words } ==> {
                &&& run@ == program@
                &&& !over_ssh && (client is None || program@ != "tmux"@) ==> texts(words@) == texts(
                    arguments@,
                )
                &&& program@ == "tmux"@ && client is Some ==> texts(words@) == targeted(
                    texts(arguments@),
                    client->0@,
                )
                &&& over_ssh && arguments@.len() > 0 ==> texts(words@).len() == arguments@.len()
                    && texts(words@).last() == shell_command(
                    seq!["bash"@, "-lc"@, arguments@.last()@],
                )
            }
        },
{
    reveal_strlit("ssh");
    reveal_strlit("tmux");
    assert("ssh"@.len() != "tmux"@.len());
    if arguments@.len() > 0 {
        assert(texts(arguments@).last() == arguments@.last()@);
    }
}

/// A line of the listing names a client, its session and the socket of its server.
pub open spec fn lists(
    line: Seq<char>,
    client: Seq<char>,
    session: Seq<char>,
    socket: Seq<char>,
) -> bool {
    &&& line == client + "\t"@ + session + "\t"@ + socket
    &&& !client.contains('\t')
    &&& !session.contains('\t')
}

/// A client is found on the first line that names it, with its session and its socket.
pub proof fn a_client_is_found_by_its_name(
    listing: &str,
    client: &str,
    r: Option<(String, String)>,
    session: Seq<char>,
    socket: Seq<char>,
    k: int,
)
    requires
        call_ensures(find_client, (listing, client), r),
        0 <= k < lines_of(listing@).len(),
        lists(lines_of(listing@)[k], client@, session, socket),
        forall|j: int, other: Seq<char>, path: Seq<char>|
            0 <= j < k ==> !#[trigger] lists(lines_of(listing@)[j], client@, other, path),
    ensures
        r matches Some(found) && found.0@ == session && found.1@ == socket,
{
    reveal_strlit("\t");
    let lines = lines_of(listing@);
    lemma_lists(lines[k], client@, session, socket);
    assert(crate::tmux::lists_client(lines, client@));
    let found = r->0;
    let i = choose|i: int| #[trigger]
        crate::tmux::first_client_line(lines, i, client@, found.0@, found.1@);
    lemma_lists(lines[i], client@, found.0@, found.1@);
    if i < k {
        assert(lists(lines[i], client@, found.0@, found.1@));
    }
    if k < i {
        assert(lines.take(i)[k] == lines[k]);
        assert(crate::tmux::is_client_line(lines.take(i)[k], client@, session, socket));
        assert(crate::tmux::lists_client(lines.take(i), client@));
    }
    let rest = session + seq!['\t'] + socket;
    crate::text::lemma_split_first(client@, '\t', rest);
    crate::text::lemma_split_first(session, '\t', socket);
    let other = found.0@ + seq!['\t'] + found.1@;
    crate::text::lemma_split_first(client@, '\t', other);
    crate::text::lemma_split_first(found.0@, '\t', found.1@);
    assert(lines[k] == client@ + seq!['\t'] + rest);
    assert(lines[k] == client@ + seq!['\t'] + other);
    let n = client@.len() as int + 1;
    assert(lines[k].skip(n) =~= rest);
    assert(lines[k].skip(n) =~= other);
    assert(session == found.0@) by {
        assert(crate::text::first_index(rest, '\t') == session.len());
        assert(crate::text::first_index(other, '\t') == found.0@.len());
        assert(rest.take(session.len() as int) =~= session);
        assert(other.take(found.0@.len() as int) =~= found.0@);
    }
    assert(rest.skip(session.len() as int + 1) =~= socket);
    assert(other.skip(session.len() as int + 1) =~= found.1@);
}

proof fn lemma_lists(
    line: Seq<char>,
    client: Seq<char>,
    session: Seq<char>,
    socket: Seq<char>,
)
    ensures
        lists(line, client, session, socket) <==> crate::tmux::is_client_line(
            line,
            client,
            session,
            socket,
        ),
{
    reveal_strlit("\t");
    assert("\t"@ =~= seq!['\t']);
    assert(client + "\t"@ + session + "\t"@ + socket =~= client + seq!['\t'] + (session
        + seq!['\t'] + socket));
}

/// A thread is resumed by its own program, on the socket of the shared runtime.
pub proof fn a_thread_is_resumed_on_the_shared_runtime(
    host: &str,
    name: &str,
    cwd: &str,
    thread: &str,
    socket: &str,
    hostname: &str,
    r: Result<Handoff, TmuxError>,
)
    requires
        call_ensures(resume_codex, (host, name, cwd, thread, socket, false, hostname), r),
        host@ == "local"@ || host@ == hostname@,
        !has_nul(thread@) && !has_nul(socket@),
    ensures
        ({
            let resumed = shell_command(
                seq![
                    "exec"@, "codex"@, "--remote"@, "unix://"@ + socket@, "resume"@, thread@
                ],
            );
            let login = shell_command(seq!["exec"@, "bash"@, "-lc"@, resumed]);
            r matches Ok(handoff) && handoff.program@ == "tmux"@ && texts(handoff.arguments@)
                == seq!["new-session"@, "-A"@, "-s"@, name@, "-c"@, cwd@, login]
        }),
{
}

/// Another host is asked without a terminal and without questions: a login that needs the user
/// fails, and so does a connection that takes longer than a few seconds.
pub proof fn other_hosts_are_asked_without_questions(
    host: &str,
    hostname: &str,
    r: Result<(&'static str, Vec<String>), TmuxError>,
)
    requires
        call_ensures(discover_command, (host, hostname), r),
    ensures
        ({
            let here = host@ == "local"@ || host@ == hostname@;
            let list = seq!["list-sessions"@, "-F"@, SESSION_FORMAT@];
            &&& r is Ok
            &&& here ==> (r->Ok_0).0@ == "tmux"@ && texts((r->Ok_0).1@) == list
            &&& !here ==> (r->Ok_0).0@ == "ssh"@ && texts((r->Ok_0).1@) == seq![
                "-o"@, "BatchMode=yes"@, "-o"@, "ConnectTimeout=5"@, "-o"@,
                "ConnectionAttempts=1"@, "--"@, host@, shell_command(seq!["tmux"@] + list)
            ]
        }),
{
    assert(seq!["tmux"@] + seq!["list-sessions"@, "-F"@, SESSION_FORMAT@] =~= seq![
        "tmux"@, "list-sessions"@, "-F"@, SESSION_FORMAT@
    ]);
}

/// A command that was handed over is done where it ended well, and else an error that says what
/// was tried and how it ended.
pub proof fn a_handed_over_command_ends(
    handoff: &Handoff,
    success: bool,
    status: &str,
    r: Result<(), TmuxError>,
)
    requires
        call_ensures(handed_over, (handoff, success, status), r),
    ensures
        success ==> r is Ok,
        !success ==> (r matches Err(TmuxError::CommandFailed { context, message }) && context@
            == handoff.context@ && message@ == status@),
{
}

/// The pane is what was captured, without what must not be shown; where it could not be
/// captured, the reason is told.
pub proof fn a_pane_is_captured(
    host: &str,
    name: &str,
    pane: &str,
    outcome: &CommandOutcome,
    r: Result<String, TmuxError>,
    out: &str,
    shown: String,
)
    requires
        call_ensures(capture_pane, (host, name, pane, outcome), r),
        out@ == outcome.stdout@,
        call_ensures(sanitize_capture, (out,), shown),
    ensures
        outcome.success ==> (r matches Ok(text) && text@ == shown@),
        !outcome.success ==> r is Err,
        !outcome.success && trimmed(outcome.stderr@).len() > 0 ==> (r->Err_0 matches
            TmuxError::CommandFailed { message, .. } && message@ == trimmed(outcome.stderr@)),
{
    if outcome.success {
        assert(r->Ok_0@ == trimmed_end(outcome.stdout@.filter(|c: char| crate::tmux::is_shown(c))));
    }
}

/// The client from which the user came is the one that tmux printed; none is found where tmux
/// failed or printed nothing.
pub proof fn the_client_of_the_user_is_found(
    outcome: &CommandOutcome,
    r: Result<String, TmuxError>,
)
    requires
        call_ensures(origin_client, (outcome,), r),
    ensures
        outcome.success && trimmed(outcome.stdout@).len() > 0 ==> (r matches Ok(client) && client@
            == trimmed(outcome.stdout@)),
        !outcome.success || trimmed(outcome.stdout@).len() == 0 ==> r is Err,
{
}

} // verus!
