//! What the app-server and the session files tell of a session: its activity, its last
//! message, its title and its times.

use vstd::prelude::*;

use crate::codex::{
    activity_from_status, collapsed, detailed, item_message, items_message, next_page_size,
    thread_session, turns_message, RawThread, RawThreadStatus, ReadTurn,
};
use crate::domain::{Activity, SessionView};
use crate::json::{document_text, field_of, field_text, json_fields, json_text};
use crate::omp::{file_session, file_view, message_text};
use crate::text::{texts, trimmed};

verus! {

// ---- threads of Codex ----

/// A thread that is active works unless one of its flags says that it waits; approval counts
/// before input. An idle thread has completed, whether it is loaded or not, and one with a
/// system error has failed.
pub proof fn a_status_tells_the_activity(status: &RawThreadStatus, r: Activity)
    requires
        call_ensures(activity_from_status, (status,), r),
    ensures
        r is Failed <==> status is SystemError,
        r is Completed <==> status is Idle || status is NotLoaded,
        r is WaitingApproval <==> status is Active && texts(status->active_flags@).contains(
            "waitingOnApproval"@,
        ),
        r is WaitingInput <==> status is Active && texts(status->active_flags@).contains(
            "waitingOnUserInput"@,
        ) && !texts(status->active_flags@).contains("waitingOnApproval"@),
        r is Working <==> status is Active && !texts(status->active_flags@).contains(
            "waitingOnUserInput"@,
        ) && !texts(status->active_flags@).contains("waitingOnApproval"@),
        !(r is Unknown),
{
}

/// The last turn of a thread that neither works nor waits decides its activity: it works where
/// the turn is in progress, has failed where the turn failed, and has completed where the turn
/// completed or was interrupted. Any other word, and no turn at all, changes nothing; neither
/// does any turn of a thread that works or waits.
pub proof fn the_last_turn_decides_the_activity(session: SessionView, turns: Seq<ReadTurn>)
    ensures
        ({
            let after = detailed(session, turns).activity;
            let busy = session.activity is Working || session.activity is WaitingApproval
                || session.activity is WaitingInput;
            let word = turns.last().status@;
            let known = word == "inProgress"@ || word == "failed"@ || word == "completed"@ || word
                == "interrupted"@;
            &&& turns.len() == 0 || busy ==> after == session.activity
            &&& turns.len() > 0 && !busy ==> {
                &&& after is Failed <==> word == "failed"@ || (!known && session.activity is Failed)
                &&& after is Working <==> word == "inProgress"@
                &&& after is Completed <==> word == "completed"@ || word == "interrupted"@ || (
                !known && session.activity is Completed)
                &&& after is Unknown <==> !known && session.activity is Unknown
            }
        }),
{
    reveal_strlit("inProgress");
    reveal_strlit("failed");
    reveal_strlit("completed");
    reveal_strlit("interrupted");
    assert("inProgress"@.len() == 10);
    assert("failed"@.len() == 6);
    assert("completed"@.len() == 9);
    assert("interrupted"@.len() == 11);
}

/// Reading the details of a session changes nothing but its activity and its last message.
pub proof fn details_change_only_activity_and_message(session: SessionView, turns: Seq<ReadTurn>)
    ensures
        ({
            let after = detailed(session, turns);
            &&& after.id == session.id && after.host == session.host
            &&& after.agent == session.agent && after.native_session_id
                == session.native_session_id
            &&& after.title == session.title && after.cwd == session.cwd && after.source
                == session.source
            &&& after.last_interaction_unix_seconds == session.last_interaction_unix_seconds
            &&& after.updated_unix_seconds == session.updated_unix_seconds
            &&& after.runtime == session.runtime && after.tmux == session.tmux
        }),
{
}

/// An item is a message of the agent with the text, which is not blank.
pub open spec fn agent_says(item: Seq<char>, text: Seq<char>) -> bool {
    &&& document_text(item, "type"@) == Some("agentMessage"@)
    &&& document_text(item, "text"@) == Some(text)
    &&& trimmed(text).len() > 0
}

/// An item is no message of the agent, or a blank one.
pub open spec fn agent_is_silent(item: Seq<char>) -> bool {
    forall|text: Seq<char>| !#[trigger] agent_says(item, text)
}

/// The agent says nothing in the turn.
pub open spec fn turn_is_silent(turn: ReadTurn) -> bool {
    forall|i: int| 0 <= i < turn.items@.len() ==> agent_is_silent((#[trigger] turn.items@[i])@)
}

proof fn lemma_item(item: Seq<char>)
    ensures
        agent_is_silent(item) == (item_message(item) is None),
        item_message(item) matches Some(text) ==> agent_says(item, text),
        forall|text: Seq<char>| #[trigger]
            agent_says(item, text) ==> item_message(item) == Some(text),
{
    if let Some(text) = item_message(item) {
        assert(agent_says(item, text));
    }
}

proof fn lemma_items_silent(items: Seq<Seq<char>>)
    requires
        forall|i: int| 0 <= i < items.len() ==> agent_is_silent(#[trigger] items[i]),
    ensures
        items_message(items) is None,
    decreases items.len(),
{
    if items.len() > 0 {
        lemma_item(items.last());
        assert(agent_is_silent(items[items.len() - 1]));
        assert forall|i: int| 0 <= i < items.drop_last().len() implies agent_is_silent(
            #[trigger] items.drop_last()[i],
        ) by {
            assert(items.drop_last()[i] == items[i]);
        }
        lemma_items_silent(items.drop_last());
    }
}

proof fn lemma_items_last(items: Seq<Seq<char>>, k: int, text: Seq<char>)
    requires
        0 <= k < items.len(),
        agent_says(items[k], text),
        forall|i: int| k < i < items.len() ==> agent_is_silent(#[trigger] items[i]),
    ensures
        items_message(items) == Some(text),
    decreases items.len(),
{
    lemma_item(items.last());
    if k < items.len() - 1 {
        assert(agent_is_silent(items[items.len() - 1]));
        assert forall|i: int| k < i < items.drop_last().len() implies agent_is_silent(
            #[trigger] items.drop_last()[i],
        ) by {
            assert(items.drop_last()[i] == items[i]);
        }
        lemma_items_last(items.drop_last(), k, text);
    }
}

proof fn lemma_turn_silent(turn: ReadTurn)
    requires
        turn_is_silent(turn),
    ensures
        items_message(texts(turn.items@)) is None,
{
    assert forall|i: int| 0 <= i < texts(turn.items@).len() implies agent_is_silent(
        #[trigger] texts(turn.items@)[i],
    ) by {
        assert(texts(turn.items@)[i] == turn.items@[i]@);
    }
    lemma_items_silent(texts(turn.items@));
}

proof fn lemma_turns_silent(turns: Seq<ReadTurn>)
    requires
        forall|t: int| 0 <= t < turns.len() ==> turn_is_silent(#[trigger] turns[t]),
    ensures
        turns_message(turns) is None,
    decreases turns.len(),
{
    if turns.len() > 0 {
        assert(turn_is_silent(turns[turns.len() - 1]));
        lemma_turn_silent(turns.last());
        assert forall|t: int| 0 <= t < turns.drop_last().len() implies turn_is_silent(
            #[trigger] turns.drop_last()[t],
        ) by {
            assert(turns.drop_last()[t] == turns[t]);
        }
        lemma_turns_silent(turns.drop_last());
    }
}

proof fn lemma_turns_last(turns: Seq<ReadTurn>, t: int, k: int, text: Seq<char>)
    requires
        0 <= t < turns.len(),
        0 <= k < turns[t].items@.len(),
        agent_says(turns[t].items@[k]@, text),
        forall|i: int|
            k < i < turns[t].items@.len() ==> agent_is_silent((#[trigger] turns[t].items@[i])@),
        forall|u: int| t < u < turns.len() ==> turn_is_silent(#[trigger] turns[u]),
    ensures
        turns_message(turns) == Some(text),
    decreases turns.len(),
{
    if t == turns.len() - 1 {
        let items = texts(turns[t].items@);
        assert(items[k] == turns[t].items@[k]@);
        assert forall|i: int| k < i < items.len() implies agent_is_silent(#[trigger] items[i]) by {
            assert(items[i] == turns[t].items@[i]@);
        }
        lemma_items_last(items, k, text);
    } else {
        assert(turn_is_silent(turns[turns.len() - 1]));
        lemma_turn_silent(turns.last());
        let rest = turns.drop_last();
        assert(rest[t] == turns[t]);
        assert forall|u: int| t < u < rest.len() implies turn_is_silent(#[trigger] rest[u]) by {
            assert(rest[u] == turns[u]);
        }
        lemma_turns_last(rest, t, k, text);
    }
}

/// The last thing that the agent said is the session's last message, on one line and of at
/// most 120 characters.
pub proof fn the_last_message_of_the_agent_is_shown(
    session: SessionView,
    turns: Seq<ReadTurn>,
    t: int,
    k: int,
    text: Seq<char>,
)
    requires
        0 <= t < turns.len(),
        0 <= k < turns[t].items@.len(),
        agent_says(turns[t].items@[k]@, text),
        forall|i: int|
            k < i < turns[t].items@.len() ==> agent_is_silent((#[trigger] turns[t].items@[i])@),
        forall|u: int| t < u < turns.len() ==> turn_is_silent(#[trigger] turns[u]),
    ensures
        collapsed(text).len() <= 120 ==> detailed(session, turns).last_message == collapsed(text),
        collapsed(text).len() > 120 ==> detailed(session, turns).last_message == collapsed(
            text,
        ).take(120).push('\u{2026}'),
{
    lemma_turns_last(turns, t, k, text);
}

/// Where the agent said nothing, the last message stays as it was.
pub proof fn silence_keeps_the_last_message(session: SessionView, turns: Seq<ReadTurn>)
    requires
        forall|t: int| 0 <= t < turns.len() ==> turn_is_silent(#[trigger] turns[t]),
    ensures
        detailed(session, turns).last_message == session.last_message,
{
    lemma_turns_silent(turns);
}

/// A thread's session has the thread's identifier and directory and is resumable. A name that
/// is not blank is its title; otherwise the title is the preview on one line, or the directory
/// where the preview is blank, of at most 72 characters. Its last interaction is the recency,
/// or else the update, and no time before the epoch counts.
pub proof fn a_thread_is_listed_as_it_is(thread: RawThread)
    ensures
        ({
            let session = thread_session(thread);
            let long = if collapsed(thread.preview@).len() == 0 {
                thread.cwd@
            } else {
                collapsed(thread.preview@)
            };
            &&& session.native_session_id == thread.id@
            &&& session.cwd == thread.cwd@
            &&& session.runtime is Resumable
            &&& session.tmux is None
            &&& session.last_message == Seq::<char>::empty()
            &&& thread.name is Some && trimmed(thread.name->0@).len() > 0 ==> session.title
                == thread.name->0@
            &&& thread.name is None || trimmed(thread.name->0@).len() == 0 ==> (if long.len()
                <= 72 {
                session.title == long
            } else {
                session.title == long.take(72).push('\u{2026}')
            })
            &&& json_text(thread.source@) is Some ==> session.source == json_text(
                thread.source@,
            )->0
            &&& json_text(thread.source@) is None ==> session.source == "unknown"@
            &&& thread.recency_at is Some && thread.recency_at->0 >= 0
                ==> session.last_interaction_unix_seconds == thread.recency_at->0
            &&& thread.recency_at is None && thread.updated_at >= 0
                ==> session.last_interaction_unix_seconds == thread.updated_at
            &&& thread.updated_at >= 0 ==> session.updated_unix_seconds == thread.updated_at
            &&& thread.updated_at < 0 ==> session.updated_unix_seconds == 0
            &&& thread.recency_at is Some && thread.recency_at->0 < 0
                ==> session.last_interaction_unix_seconds == 0
            &&& thread.status is SystemError ==> session.activity is Failed
            &&& thread.status is Idle || thread.status is NotLoaded ==> session.activity
                is Completed
        }),
{
}

/// A page asks for what the limit still leaves, never for more than a hundred threads, and
/// for a hundred where nothing limits it; once the limit is reached none is asked for.
pub proof fn pages_ask_for_what_is_left(limit: Option<usize>, listed: usize, r: Option<usize>)
    requires
        call_ensures(next_page_size, (limit, listed), r),
    ensures
        r is None <==> limit is Some && limit->0 <= listed,
        r is Some ==> 1 <= r->0 <= 100,
        r is Some && limit is Some ==> listed + r->0 <= limit->0,
        r is Some && r->0 < 100 ==> limit is Some && listed + r->0 == limit->0,
{
}

// ---- session files of Oh My Pi ----

/// The fields of a line of a session file.
pub open spec fn line_says(line: Seq<char>, name: Seq<char>, value: Seq<char>) -> bool {
    json_fields(line) is Some && field_text(json_fields(line)->0, name) == Some(value)
}

/// The line says that the session was left.
pub open spec fn says_exit(line: Seq<char>) -> bool {
    line_says(line, "type"@, "custom"@) && line_says(line, "customType"@, "session_exit"@)
}

proof fn lemma_line_words()
    ensures
        "session"@ != "title"@,
        "session"@ != "title_change"@,
        "session"@ != "message"@,
        "session"@ != "custom"@,
        "title"@ != "message"@,
        "title"@ != "custom"@,
        "title_change"@ != "message"@,
        "title_change"@ != "custom"@,
        "message"@ != "custom"@,
{
    reveal_strlit("session");
    reveal_strlit("title");
    reveal_strlit("title_change");
    reveal_strlit("message");
    reveal_strlit("custom");
    assert("session"@[0] == 's');
    assert("title"@[0] == 't');
    assert("title_change"@[0] == 't');
    assert("message"@[0] == 'm');
    assert("custom"@[0] == 'c');
}

proof fn lemma_completed(lines: Seq<Seq<char>>)
    ensures
        file_view(lines).completed <==> exists|i: int|
            0 <= i < lines.len() && says_exit(#[trigger] lines[i]),
    decreases lines.len(),
{
    lemma_line_words();
    if lines.len() > 0 {
        let rest = lines.drop_last();
        lemma_completed(rest);
        assert(forall|i: int| 0 <= i < rest.len() ==> #[trigger] rest[i] == lines[i]);
        assert(lines[lines.len() - 1] == lines.last());
        if exists|i: int| 0 <= i < rest.len() && says_exit(#[trigger] rest[i]) {
            let i = choose|i: int| 0 <= i < rest.len() && says_exit(#[trigger] rest[i]);
            assert(says_exit(lines[i]));
        }
        if says_exit(lines.last()) {
            assert(says_exit(lines[lines.len() - 1]));
        }
        if exists|i: int| 0 <= i < lines.len() && says_exit(#[trigger] lines[i]) {
            let i = choose|i: int| 0 <= i < lines.len() && says_exit(#[trigger] lines[i]);
            if i < rest.len() {
                assert(says_exit(rest[i]));
            }
        }
    }
}

/// A session file without a line of its session, or whose session has no identifier, lists
/// nothing. Otherwise the session is resumable; it has completed exactly where some line says
/// that it was left, and else its activity is unknown; and it is as new as the file, or as the
/// present where the file's time is not known.
pub proof fn a_session_file_tells_how_a_session_stands(
    lines: Seq<Seq<char>>,
    mtime: u64,
    now: u64,
)
    ensures
        ({
            let found = file_session(file_view(lines), mtime, now);
            let left = exists|i: int| 0 <= i < lines.len() && says_exit(#[trigger] lines[i]);
            &&& (forall|i: int|
                0 <= i < lines.len() ==> !line_says(#[trigger] lines[i], "type"@, "session"@))
                ==> found is None
            &&& found is Some ==> {
                &&& found->0.native_session_id.len() > 0
                &&& found->0.runtime is Resumable
                &&& found->0.tmux is None
                &&& left ==> found->0.activity is Completed
                &&& !left ==> found->0.activity is Unknown
                &&& mtime != 0 ==> found->0.last_interaction_unix_seconds == mtime
                    && found->0.updated_unix_seconds == mtime
                &&& mtime == 0 ==> found->0.last_interaction_unix_seconds == now
                    && found->0.updated_unix_seconds == now
            }
        }),
{
    lemma_completed(lines);
    if forall|i: int|
        0 <= i < lines.len() ==> !line_says(#[trigger] lines[i], "type"@, "session"@) {
        lemma_no_header(lines);
    }
}

proof fn lemma_no_header(lines: Seq<Seq<char>>)
    requires
        forall|i: int| 0 <= i < lines.len() ==> !line_says(#[trigger] lines[i], "type"@, "session"@),
    ensures
        file_view(lines).header is None,
    decreases lines.len(),
{
    if lines.len() > 0 {
        let rest = lines.drop_last();
        assert forall|i: int| 0 <= i < rest.len() implies !line_says(
            #[trigger] rest[i],
            "type"@,
            "session"@,
        ) by {
            assert(rest[i] == lines[i]);
        }
        lemma_no_header(rest);
        assert(!line_says(lines[lines.len() - 1], "type"@, "session"@));
    }
}

/// The line of the session gives its identifier and directory, and its title where no line of
/// its own does; without any the directory is the title.
pub proof fn the_session_line_names_the_session(
    lines: Seq<Seq<char>>,
    k: int,
    id: Seq<char>,
    mtime: u64,
    now: u64,
)
    requires
        0 <= k < lines.len(),
        line_says(lines[k], "type"@, "session"@),
        line_says(lines[k], "id"@, id),
        id.len() > 0,
        forall|i: int|
            k < i < lines.len() ==> !line_says(#[trigger] lines[i], "type"@, "session"@),
    ensures
        ({
            let found = file_session(file_view(lines), mtime, now);
            let fields = json_fields(lines[k])->0;
            let untitled = forall|i: int|
                0 <= i < lines.len() ==> !line_says(#[trigger] lines[i], "type"@, "title"@)
                    && !line_says(lines[i], "type"@, "title_change"@);
            &&& found is Some
            &&& found->0.native_session_id == id
            &&& field_text(fields, "cwd"@) is Some ==> found->0.cwd == field_text(
                fields,
                "cwd"@,
            )->0
            &&& untitled && field_text(fields, "title"@) is Some ==> found->0.title == field_text(
                fields,
                "title"@,
            )->0
            &&& untitled && field_text(fields, "title"@) is None ==> found->0.title
                == found->0.cwd
        }),
{
    lemma_header(lines, k);
    if forall|i: int|
        0 <= i < lines.len() ==> !line_says(#[trigger] lines[i], "type"@, "title"@) && !line_says(
            lines[i],
            "type"@,
            "title_change"@,
        ) {
        lemma_untitled(lines);
    }
}

proof fn lemma_header(lines: Seq<Seq<char>>, k: int)
    requires
        0 <= k < lines.len(),
        line_says(lines[k], "type"@, "session"@),
        forall|i: int|
            k < i < lines.len() ==> !line_says(#[trigger] lines[i], "type"@, "session"@),
    ensures
        file_view(lines).header == Some(json_fields(lines[k])->0),
    decreases lines.len(),
{
    let rest = lines.drop_last();
    if k < rest.len() {
        assert(!line_says(lines[lines.len() - 1], "type"@, "session"@));
        assert(rest[k] == lines[k]);
        assert forall|i: int| k < i < rest.len() implies !line_says(
            #[trigger] rest[i],
            "type"@,
            "session"@,
        ) by {
            assert(rest[i] == lines[i]);
        }
        lemma_header(rest, k);
    }
}

proof fn lemma_untitled(lines: Seq<Seq<char>>)
    requires
        forall|i: int|
            0 <= i < lines.len() ==> !line_says(#[trigger] lines[i], "type"@, "title"@)
                && !line_says(lines[i], "type"@, "title_change"@),
    ensures
        file_view(lines).title is None,
    decreases lines.len(),
{
    if lines.len() > 0 {
        let rest = lines.drop_last();
        assert forall|i: int| 0 <= i < rest.len() implies !line_says(
            #[trigger] rest[i],
            "type"@,
            "title"@,
        ) && !line_says(rest[i], "type"@, "title_change"@) by {
            assert(rest[i] == lines[i]);
        }
        lemma_untitled(rest);
        assert(!line_says(lines[lines.len() - 1], "type"@, "title"@));
        assert(!line_says(lines[lines.len() - 1], "type"@, "title_change"@));
    }
}

/// The last line that gives a title is the one that counts.
pub proof fn the_last_title_counts(
    lines: Seq<Seq<char>>,
    k: int,
    title: Seq<char>,
    mtime: u64,
    now: u64,
)
    requires
        0 <= k < lines.len(),
        line_says(lines[k], "type"@, "title"@) || line_says(lines[k], "type"@, "title_change"@),
        line_says(lines[k], "title"@, title),
        forall|i: int|
            k < i < lines.len() ==> !line_says(#[trigger] lines[i], "type"@, "title"@)
                && !line_says(lines[i], "type"@, "title_change"@),
        file_session(file_view(lines), mtime, now) is Some,
    ensures
        file_session(file_view(lines), mtime, now)->0.title == title,
{
    lemma_title(lines, k, title);
}

proof fn lemma_title(lines: Seq<Seq<char>>, k: int, title: Seq<char>)
    requires
        0 <= k < lines.len(),
        line_says(lines[k], "type"@, "title"@) || line_says(lines[k], "type"@, "title_change"@),
        line_says(lines[k], "title"@, title),
        forall|i: int|
            k < i < lines.len() ==> !line_says(#[trigger] lines[i], "type"@, "title"@)
                && !line_says(lines[i], "type"@, "title_change"@),
    ensures
        file_view(lines).title == Some(title),
    decreases lines.len(),
{
    lemma_line_words();
    let rest = lines.drop_last();
    if k < rest.len() {
        assert(!line_says(lines[lines.len() - 1], "type"@, "title"@));
        assert(!line_says(lines[lines.len() - 1], "type"@, "title_change"@));
        assert(rest[k] == lines[k]);
        assert forall|i: int| k < i < rest.len() implies !line_says(
            #[trigger] rest[i],
            "type"@,
            "title"@,
        ) && !line_says(rest[i], "type"@, "title_change"@) by {
            assert(rest[i] == lines[i]);
        }
        lemma_title(rest, k, title);
    }
}

/// The line is a message of the assistant.
pub open spec fn is_assistants(line: Seq<char>) -> bool {
    &&& line_says(line, "type"@, "message"@)
    &&& field_of(json_fields(line)->0, "message"@) is Some
    &&& document_text(field_of(json_fields(line)->0, "message"@)->0, "role"@) == Some(
        "assistant"@,
    )
}

/// The last message of the assistant, and of nobody else, is the session's last message.
pub proof fn the_last_message_of_the_assistant_counts(
    lines: Seq<Seq<char>>,
    k: int,
    mtime: u64,
    now: u64,
)
    requires
        0 <= k < lines.len(),
        is_assistants(lines[k]),
        forall|i: int| k < i < lines.len() ==> !is_assistants(#[trigger] lines[i]),
        file_session(file_view(lines), mtime, now) is Some,
    ensures
        ({
            let message = field_of(json_fields(lines[k])->0, "message"@)->0;
            let shown = file_session(file_view(lines), mtime, now)->0.last_message;
            &&& message_text(message) is Some ==> shown == message_text(message)->0
            &&& message_text(message) is None ==> shown == Seq::<char>::empty()
        }),
{
    lemma_assistant(lines, k);
}

proof fn lemma_assistant(lines: Seq<Seq<char>>, k: int)
    requires
        0 <= k < lines.len(),
        is_assistants(lines[k]),
        forall|i: int| k < i < lines.len() ==> !is_assistants(#[trigger] lines[i]),
    ensures
        file_view(lines).last_message == message_text(
            field_of(json_fields(lines[k])->0, "message"@)->0,
        ),
    decreases lines.len(),
{
    lemma_line_words();
    let rest = lines.drop_last();
    if k < rest.len() {
        assert(!is_assistants(lines[lines.len() - 1]));
        assert(rest[k] == lines[k]);
        assert forall|i: int| k < i < rest.len() implies !is_assistants(#[trigger] rest[i]) by {
            assert(rest[i] == lines[i]);
        }
        lemma_assistant(rest, k);
    }
}

} // verus!
