//! What the probes of live processes tell of a session.

use vstd::prelude::*;

use crate::codex::{
    observations_do_not_depend_on_order, parse_live_observations, some_activity, some_binding,
    some_owner, tells_activity, tells_binding, tells_owner, the_terminal_does_not_depend_on_order,
};
use crate::domain::{binding_view, observation_views, Activity, LiveObservation, RuntimeOwner};
use crate::keyed::StringMap;
use crate::native::{live_records, observe_live, NativeSession};
use crate::omp::{live_line, live_lines, parse_live};
use crate::text::{lines_of, split_text};

verus! {

// ---- Oh My Pi ----

/// A line of the probe tells of a session: five fields, of which the first is the session and
/// the second its owner.
pub open spec fn omp_line(line: Seq<char>, id: Seq<char>, owner: Seq<char>) -> bool {
    let fields = split_text(line, '\t');
    fields.len() == 5 && fields[0] == id && fields[1] == owner
}

/// No line from `k` on tells of the session.
pub open spec fn omp_silent_from(lines: Seq<Seq<char>>, id: Seq<char>, k: int) -> bool {
    forall|j: int|
        k <= j < lines.len() ==> !omp_line(#[trigger] lines[j], id, "tmux"@) && !omp_line(
            lines[j],
            id,
            "external"@,
        )
}

proof fn lemma_owner_words()
    ensures
        "tmux"@ != "external"@,
        "tmux"@ != "shared"@,
        "external"@ != "shared"@,
        "working"@ != "completed"@,
{
    reveal_strlit("tmux");
    reveal_strlit("external");
    reveal_strlit("shared");
    reveal_strlit("working");
    reveal_strlit("completed");
    assert("tmux"@.len() != "external"@.len());
    assert("tmux"@.len() != "shared"@.len());
    assert("external"@.len() != "shared"@.len());
    assert("working"@.len() != "completed"@.len());
}

proof fn lemma_omp_last(lines: Seq<Seq<char>>, id: Seq<char>, k: int)
    requires
        0 <= k < lines.len(),
        omp_line(lines[k], id, "tmux"@) || omp_line(lines[k], id, "external"@),
        omp_silent_from(lines, id, k + 1),
    ensures
        live_line(lines[k]) is Some,
        live_lines(lines).dom().contains(id),
        live_lines(lines)[id] == (live_line(lines[k])->0).1,
    decreases lines.len(),
{
    let rest = lines.drop_last();
    if k < rest.len() {
        assert forall|j: int| k + 1 <= j < rest.len() implies !omp_line(
            #[trigger] rest[j],
            id,
            "tmux"@,
        ) && !omp_line(rest[j], id, "external"@) by {
            assert(rest[j] == lines[j]);
        }
        lemma_omp_last(rest, id, k);
        assert(lines[lines.len() - 1] == lines.last());
    }
}

proof fn lemma_omp_silent(lines: Seq<Seq<char>>, id: Seq<char>)
    requires
        omp_silent_from(lines, id, 0),
    ensures
        !live_lines(lines).dom().contains(id),
    decreases lines.len(),
{
    if lines.len() > 0 {
        let rest = lines.drop_last();
        assert forall|j: int| 0 <= j < rest.len() implies !omp_line(
            #[trigger] rest[j],
            id,
            "tmux"@,
        ) && !omp_line(rest[j], id, "external"@) by {
            assert(rest[j] == lines[j]);
        }
        lemma_omp_silent(rest, id);
        assert(lines[lines.len() - 1] == lines.last());
    }
}

/// The last line that tells of a session of Oh My Pi decides: a process in a pane owns it
/// there, and any other process is an external frontend without a pane. It works exactly where
/// the line says so, and else nothing is known of its activity.
pub proof fn the_last_line_tells_who_owns_an_omp_session(
    output: &str,
    r: StringMap<LiveObservation>,
    k: int,
)
    requires
        call_ensures(parse_live, (output,), r),
        0 <= k < lines_of(output@).len(),
        split_text(lines_of(output@)[k], '\t').len() == 5,
        split_text(lines_of(output@)[k], '\t')[1] == "tmux"@ || split_text(
            lines_of(output@)[k],
            '\t',
        )[1] == "external"@,
        omp_silent_from(lines_of(output@), split_text(lines_of(output@)[k], '\t')[0], k + 1),
    ensures
        ({
            let fields = split_text(lines_of(output@)[k], '\t');
            let seen = r@[fields[0]];
            &&& r@.dom().contains(fields[0])
            &&& fields[1] == "external"@ ==> seen.runtime is ExternalFrontend && seen.tmux is None
            &&& fields[1] == "tmux"@ ==> seen.runtime is TmuxFrontend && seen.tmux is Some
                && seen.tmux->0.session@ == fields[2] && seen.tmux->0.pane@ == fields[3]
            &&& fields[4] == "working"@ ==> seen.activity is Working
            &&& fields[4] != "working"@ ==> seen.activity is Unknown
        }),
{
    let lines = lines_of(output@);
    let id = split_text(lines[k], '\t')[0];
    lemma_owner_words();
    lemma_omp_last(lines, id, k);
    assert(observation_views(r@).dom().contains(id));
    assert(observation_views(r@)[id] == r@[id].view());
}

/// A session of Oh My Pi of which no line tells has no live process.
pub proof fn a_silent_probe_sees_no_omp_session(
    output: &str,
    r: StringMap<LiveObservation>,
    id: Seq<char>,
)
    requires
        call_ensures(parse_live, (output,), r),
        omp_silent_from(lines_of(output@), id, 0),
    ensures
        !r@.dom().contains(id),
{
    lemma_omp_silent(lines_of(output@), id);
    assert(!observation_views(r@).dom().contains(id));
}

// ---- Codex ----

/// A line of the probe tells of a thread and its owner; a terminal needs a session's name.
pub open spec fn codex_line(line: Seq<char>, id: Seq<char>, owner: Seq<char>) -> bool {
    let fields = split_text(line, '\t');
    &&& fields.len() == 5
    &&& fields[0] == id
    &&& fields[1] == owner
    &&& owner == "tmux"@ ==> fields[2].len() > 0
}

/// A line of the probe tells of a thread, whoever owns it.
pub open spec fn codex_tells(line: Seq<char>, id: Seq<char>) -> bool {
    codex_line(line, id, "tmux"@) || codex_line(line, id, "external"@) || codex_line(
        line,
        id,
        "shared"@,
    )
}

/// Some line tells of the thread with the owner.
pub open spec fn codex_owned(lines: Seq<Seq<char>>, id: Seq<char>, owner: Seq<char>) -> bool {
    exists|i: int| 0 <= i < lines.len() && #[trigger] codex_line(lines[i], id, owner)
}

/// Some line tells of the thread with the word for its activity.
pub open spec fn codex_does(lines: Seq<Seq<char>>, id: Seq<char>, word: Seq<char>) -> bool {
    exists|i: int|
        0 <= i < lines.len() && codex_tells(#[trigger] lines[i], id) && split_text(
            lines[i],
            '\t',
        )[4] == word
}

proof fn lemma_codex_owner(lines: Seq<Seq<char>>, id: Seq<char>)
    ensures
        codex_owned(lines, id, "tmux"@) == some_owner(lines, id, RuntimeOwner::TmuxFrontend),
        codex_owned(lines, id, "external"@) == some_owner(
            lines,
            id,
            RuntimeOwner::ExternalFrontend,
        ),
        codex_owned(lines, id, "shared"@) == some_owner(lines, id, RuntimeOwner::SharedBackend),
        codex_does(lines, id, "working"@) == some_activity(lines, id, Activity::Working),
        codex_does(lines, id, "completed"@) == some_activity(lines, id, Activity::Completed),
{
    lemma_owner_words();
    assert forall|i: int| 0 <= i < lines.len() implies #[trigger] codex_line(lines[i], id, "tmux"@)
        == tells_owner(lines[i], id, RuntimeOwner::TmuxFrontend) by {}
    assert forall|i: int| 0 <= i < lines.len() implies #[trigger] codex_line(
        lines[i],
        id,
        "external"@,
    ) == tells_owner(lines[i], id, RuntimeOwner::ExternalFrontend) by {}
    assert forall|i: int| 0 <= i < lines.len() implies #[trigger] codex_line(
        lines[i],
        id,
        "shared"@,
    ) == tells_owner(lines[i], id, RuntimeOwner::SharedBackend) by {}
    assert forall|i: int| 0 <= i < lines.len() implies (codex_tells(#[trigger] lines[i], id)
        && split_text(lines[i], '\t')[4] == "working"@) == tells_activity(
        lines[i],
        id,
        Activity::Working,
    ) by {}
    assert forall|i: int| 0 <= i < lines.len() implies (codex_tells(#[trigger] lines[i], id)
        && split_text(lines[i], '\t')[4] == "completed"@) == tells_activity(
        lines[i],
        id,
        Activity::Completed,
    ) by {}
    lemma_same_owner(lines, id, "tmux"@, RuntimeOwner::TmuxFrontend);
    lemma_same_owner(lines, id, "external"@, RuntimeOwner::ExternalFrontend);
    lemma_same_owner(lines, id, "shared"@, RuntimeOwner::SharedBackend);
    if codex_does(lines, id, "working"@) {
        let i = choose|i: int|
            0 <= i < lines.len() && codex_tells(#[trigger] lines[i], id) && split_text(
                lines[i],
                '\t',
            )[4] == "working"@;
        assert(tells_activity(lines[i], id, Activity::Working));
    }
    if some_activity(lines, id, Activity::Working) {
        let i = choose|i: int|
            0 <= i < lines.len() && #[trigger] tells_activity(lines[i], id, Activity::Working);
        assert(codex_tells(lines[i], id));
    }
    if codex_does(lines, id, "completed"@) {
        let i = choose|i: int|
            0 <= i < lines.len() && codex_tells(#[trigger] lines[i], id) && split_text(
                lines[i],
                '\t',
            )[4] == "completed"@;
        assert(tells_activity(lines[i], id, Activity::Completed));
    }
    if some_activity(lines, id, Activity::Completed) {
        let i = choose|i: int|
            0 <= i < lines.len() && #[trigger] tells_activity(lines[i], id, Activity::Completed);
        assert(codex_tells(lines[i], id));
    }
}

proof fn lemma_same_owner(
    lines: Seq<Seq<char>>,
    id: Seq<char>,
    word: Seq<char>,
    owner: RuntimeOwner,
)
    requires
        forall|i: int|
            0 <= i < lines.len() ==> #[trigger] codex_line(lines[i], id, word) == tells_owner(
                lines[i],
                id,
                owner,
            ),
    ensures
        codex_owned(lines, id, word) == some_owner(lines, id, owner),
{
    if codex_owned(lines, id, word) {
        let i = choose|i: int| 0 <= i < lines.len() && #[trigger] codex_line(lines[i], id, word);
        assert(tells_owner(lines[i], id, owner));
    }
    if some_owner(lines, id, owner) {
        let i = choose|i: int| 0 <= i < lines.len() && #[trigger] tells_owner(lines[i], id, owner);
        assert(codex_line(lines[i], id, word));
    }
}

/// A terminal frontend of a thread outranks an external one, and that the shared app-server;
/// work outranks completion, and that an unknown activity. Only a terminal gives a pane, and a
/// thread of which no line tells has no live process.
pub proof fn the_probe_tells_who_owns_a_thread(
    output: &str,
    r: StringMap<LiveObservation>,
    id: Seq<char>,
)
    requires
        call_ensures(parse_live_observations, (output,), r),
    ensures
        ({
            let lines = lines_of(output@);
            let terminal = codex_owned(lines, id, "tmux"@);
            let external = codex_owned(lines, id, "external"@);
            let shared = codex_owned(lines, id, "shared"@);
            let working = codex_does(lines, id, "working"@);
            let completed = codex_does(lines, id, "completed"@);
            &&& r@.dom().contains(id) <==> terminal || external || shared
            &&& terminal ==> r@[id].runtime is TmuxFrontend && r@[id].tmux is Some
            &&& !terminal && external ==> r@[id].runtime is ExternalFrontend && r@[id].tmux is None
            &&& !terminal && !external && shared ==> r@[id].runtime is SharedBackend
                && r@[id].tmux is None
            &&& working ==> r@[id].activity is Working
            &&& !working && completed ==> r@[id].activity is Completed
            &&& !working && !completed && (terminal || external || shared)
                ==> r@[id].activity is Unknown
        }),
{
    let lines = lines_of(output@);
    lemma_codex_owner(lines, id);
    observations_do_not_depend_on_order(lines, id);
    crate::codex::lemma_observed_binding(lines, id);
    if codex_does(lines, id, "working"@) {
        let i = choose|i: int|
            0 <= i < lines.len() && codex_tells(#[trigger] lines[i], id) && split_text(
                lines[i],
                '\t',
            )[4] == "working"@;
        assert(codex_line(lines[i], id, "tmux"@) || codex_line(lines[i], id, "external"@)
            || codex_line(lines[i], id, "shared"@));
    }
    if codex_does(lines, id, "completed"@) {
        let i = choose|i: int|
            0 <= i < lines.len() && codex_tells(#[trigger] lines[i], id) && split_text(
                lines[i],
                '\t',
            )[4] == "completed"@;
        assert(codex_line(lines[i], id, "tmux"@) || codex_line(lines[i], id, "external"@)
            || codex_line(lines[i], id, "shared"@));
    }
    assert(observation_views(r@).dom().contains(id) == r@.dom().contains(id));
    if r@.dom().contains(id) {
        assert(observation_views(r@)[id] == r@[id].view());
    }
}

/// Where one line alone tells of a thread in a terminal, its pane is the one of that line.
pub proof fn the_probe_tells_the_pane_of_a_thread(
    output: &str,
    r: StringMap<LiveObservation>,
    k: int,
)
    requires
        call_ensures(parse_live_observations, (output,), r),
        0 <= k < lines_of(output@).len(),
        codex_line(lines_of(output@)[k], split_text(lines_of(output@)[k], '\t')[0], "tmux"@),
        forall|j: int|
            0 <= j < lines_of(output@).len() && j != k ==> !codex_line(
                #[trigger] lines_of(output@)[j],
                split_text(lines_of(output@)[k], '\t')[0],
                "tmux"@,
            ),
    ensures
        ({
            let fields = split_text(lines_of(output@)[k], '\t');
            &&& r@.dom().contains(fields[0])
            &&& r@[fields[0]].tmux is Some
            &&& r@[fields[0]].tmux->0.session@ == fields[2]
            &&& r@[fields[0]].tmux->0.pane@ == fields[3]
        }),
{
    let lines = lines_of(output@);
    let fields = split_text(lines[k], '\t');
    let id = fields[0];
    let pane = (fields[2], fields[3]);
    lemma_owner_words();
    assert(tells_binding(lines[k], id, pane));
    assert(some_binding(lines, id, pane));
    assert forall|a: (Seq<char>, Seq<char>)| #[trigger] some_binding(lines, id, a) implies a
        == pane by {
        let i = choose|i: int| 0 <= i < lines.len() && #[trigger] tells_binding(lines[i], id, a);
        assert(codex_line(lines[i], id, "tmux"@));
    }
    the_terminal_does_not_depend_on_order(lines, id, pane);
    assert(observation_views(r@).dom().contains(id));
    assert(observation_views(r@)[id] == r@[id].view());
}

// ---- the agents that are probed ----

proof fn lemma_live_last(records: Seq<NativeSession>, id: Seq<char>, k: int)
    requires
        0 <= k < records.len(),
        records[k].session.native_session_id@ == id,
        !(records[k].session.runtime is Resumable),
        forall|j: int|
            k < j < records.len() ==> (#[trigger] records[j]).session.native_session_id@ != id
                || records[j].session.runtime is Resumable,
    ensures
        live_records(records).dom().contains(id),
        live_records(records)[id].runtime == records[k].session.runtime,
        live_records(records)[id].activity == records[k].session.activity,
        live_records(records)[id].tmux == binding_view(records[k].session.tmux),
    decreases records.len(),
{
    let rest = records.drop_last();
    if k < rest.len() {
        assert forall|j: int| k < j < rest.len() implies (
        #[trigger] rest[j]).session.native_session_id@ != id
            || rest[j].session.runtime is Resumable by {
            assert(rest[j] == records[j]);
        }
        lemma_live_last(rest, id, k);
        assert(records[records.len() - 1] == records.last());
    }
}

proof fn lemma_live_none(records: Seq<NativeSession>, id: Seq<char>)
    requires
        forall|j: int|
            0 <= j < records.len() ==> (#[trigger] records[j]).session.native_session_id@ != id
                || records[j].session.runtime is Resumable,
    ensures
        !live_records(records).dom().contains(id),
    decreases records.len(),
{
    if records.len() > 0 {
        let rest = records.drop_last();
        assert forall|j: int| 0 <= j < rest.len() implies (
        #[trigger] rest[j]).session.native_session_id@ != id
            || rest[j].session.runtime is Resumable by {
            assert(rest[j] == records[j]);
        }
        lemma_live_none(rest, id);
        assert(records[records.len() - 1] == records.last());
    }
}

/// The last record of a probed session that is not merely resumable tells of its live
/// process: its owner, its activity and its pane.
pub proof fn the_last_live_record_counts(
    records: &Vec<NativeSession>,
    r: StringMap<LiveObservation>,
    k: int,
)
    requires
        call_ensures(observe_live, (records,), r),
        0 <= k < records@.len(),
        !(records@[k].session.runtime is Resumable),
        forall|j: int|
            k < j < records@.len() ==> (#[trigger] records@[j]).session.native_session_id@
                != records@[k].session.native_session_id@
                || records@[j].session.runtime is Resumable,
    ensures
        ({
            let id = records@[k].session.native_session_id@;
            &&& r@.dom().contains(id)
            &&& r@[id].runtime == records@[k].session.runtime
            &&& r@[id].activity == records@[k].session.activity
            &&& binding_view(r@[id].tmux) == binding_view(records@[k].session.tmux)
        }),
{
    let id = records@[k].session.native_session_id@;
    lemma_live_last(records@, id, k);
    assert(observation_views(r@).dom().contains(id));
    assert(observation_views(r@)[id] == r@[id].view());
}

/// A probed session whose records are all resumable has no live process.
pub proof fn a_resumable_record_tells_of_no_process(
    records: &Vec<NativeSession>,
    r: StringMap<LiveObservation>,
    id: Seq<char>,
)
    requires
        call_ensures(observe_live, (records,), r),
        forall|j: int|
            0 <= j < records@.len() ==> (#[trigger] records@[j]).session.native_session_id@ != id
                || records@[j].session.runtime is Resumable,
    ensures
        !r@.dom().contains(id),
{
    lemma_live_none(records@, id);
    assert(!observation_views(r@).dom().contains(id));
}

} // verus!
