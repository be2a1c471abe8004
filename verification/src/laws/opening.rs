//! Opening a session: in its pane, in a new frontend, or not at all.

use vstd::prelude::*;

use crate::codex::{self, first_native, CodexAttachment, CodexError};
use crate::domain::{AgentKind, Session};
use crate::native::{self, first_record, NativeAttachment, NativeError, NativeSession};
use crate::omp::{self, OmpAttachment, OmpError};
use crate::quoting::shell_words;

verus! {

proof fn lemma_first_native(sessions: Seq<Session>, id: Seq<char>, k: int)
    requires
        0 <= k < sessions.len(),
        sessions[k].native_session_id@ == id,
        forall|j: int| 0 <= j < k ==> (#[trigger] sessions[j]).native_session_id@ != id,
    ensures
        first_native(sessions, id) == Some(sessions[k]),
    decreases sessions.len(),
{
    if k > 0 {
        let rest = sessions.drop_first();
        assert(sessions[0].native_session_id@ != id);
        assert forall|j: int| 0 <= j < k - 1 implies (#[trigger] rest[j]).native_session_id@
            != id by {
            assert(rest[j] == sessions[j + 1]);
        }
        lemma_first_native(rest, id, k - 1);
    }
}

proof fn lemma_no_native(sessions: Seq<Session>, id: Seq<char>)
    requires
        forall|j: int| 0 <= j < sessions.len() ==> (#[trigger] sessions[j]).native_session_id@ != id,
    ensures
        first_native(sessions, id) is None,
    decreases sessions.len(),
{
    if sessions.len() > 0 {
        let rest = sessions.drop_first();
        assert(sessions[0].native_session_id@ != id);
        assert forall|j: int| 0 <= j < rest.len() implies (#[trigger] rest[j]).native_session_id@
            != id by {
            assert(rest[j] == sessions[j + 1]);
        }
        lemma_no_native(rest, id);
    }
}

/// Attaching to a session of Oh My Pi never starts a second frontend: a session in a pane is
/// opened there, one that an external frontend owns is refused by its identifier, and only one
/// that nobody owns is opened anew.
pub proof fn attaching_starts_no_second_omp_frontend(
    native_id: &str,
    sessions: &Vec<Session>,
    k: int,
    r: Result<OmpAttachment, OmpError>,
)
    requires
        call_ensures(omp::attach, (native_id, sessions), r),
        0 <= k < sessions@.len(),
        sessions@[k].native_session_id@ == native_id@,
        forall|j: int| 0 <= j < k ==> (#[trigger] sessions@[j]).native_session_id@ != native_id@,
    ensures
        sessions@[k].runtime is ExternalFrontend ==> r == Err::<OmpAttachment, OmpError>(
            OmpError::ExternalFrontend(sessions@[k].id),
        ),
        sessions@[k].runtime is TmuxFrontend ==> match sessions@[k].tmux {
            Some(binding) => r == Ok::<OmpAttachment, OmpError>(
                OmpAttachment::Pane { host: sessions@[k].host, binding },
            ),
            None => r is Err,
        },
        sessions@[k].runtime is Resumable || sessions@[k].runtime is SharedBackend ==> r == Ok::<
            OmpAttachment,
            OmpError,
        >(OmpAttachment::Resume(sessions@[k])),
        r is Ok && r->Ok_0 is Resume ==> !(sessions@[k].runtime is ExternalFrontend) && !(
        sessions@[k].runtime is TmuxFrontend),
{
    lemma_first_native(sessions@, native_id@, k);
}

/// An explicit resume opens the session whoever owns it, and a session that is not listed is
/// opened by neither.
pub proof fn resuming_an_omp_session_asks_nobody(
    native_id: &str,
    sessions: &Vec<Session>,
    r: Result<Session, OmpError>,
    attached: Result<OmpAttachment, OmpError>,
)
    requires
        call_ensures(omp::resume, (native_id, sessions), r),
        call_ensures(omp::attach, (native_id, sessions), attached),
    ensures
        forall|k: int|
            0 <= k < sessions@.len() && (#[trigger] sessions@[k]).native_session_id@ == native_id@
                && (forall|j: int|
                0 <= j < k ==> (#[trigger] sessions@[j]).native_session_id@ != native_id@) ==> r
                == Ok::<Session, OmpError>(sessions@[k]),
        (forall|j: int|
            0 <= j < sessions@.len() ==> (#[trigger] sessions@[j]).native_session_id@ != native_id@)
            ==> r is Err && attached is Err,
{
    assert forall|k: int|
        0 <= k < sessions@.len() && (#[trigger] sessions@[k]).native_session_id@ == native_id@ && (
        forall|j: int|
            0 <= j < k ==> (#[trigger] sessions@[j]).native_session_id@ != native_id@) implies r
        == Ok::<Session, OmpError>(sessions@[k]) by {
        lemma_first_native(sessions@, native_id@, k);
    }
    if forall|j: int|
        0 <= j < sessions@.len() ==> (#[trigger] sessions@[j]).native_session_id@ != native_id@ {
        lemma_no_native(sessions@, native_id@);
    }
}

/// Attaching to a thread of Codex never starts a second frontend: one in a pane is opened
/// there, one that an external frontend owns is refused by its identifier, and one that at most
/// the shared app-server holds is given a frontend.
pub proof fn attaching_starts_no_second_codex_frontend(
    observed_host: &str,
    native_id: &str,
    sessions: &Vec<Session>,
    k: int,
    r: Result<CodexAttachment, CodexError>,
)
    requires
        call_ensures(codex::attach, (observed_host, native_id, sessions), r),
        0 <= k < sessions@.len(),
        sessions@[k].native_session_id@ == native_id@,
        forall|j: int| 0 <= j < k ==> (#[trigger] sessions@[j]).native_session_id@ != native_id@,
    ensures
        sessions@[k].runtime is ExternalFrontend ==> r == Err::<CodexAttachment, CodexError>(
            CodexError::ExternalFrontend(sessions@[k].id),
        ),
        sessions@[k].runtime is TmuxFrontend ==> (sessions@[k].tmux matches Some(binding) ==> r
            == Ok::<CodexAttachment, CodexError>(
            CodexAttachment::Pane { host: sessions@[k].host, binding },
        )),
        sessions@[k].runtime is Resumable || sessions@[k].runtime is SharedBackend ==> r == Ok::<
            CodexAttachment,
            CodexError,
        >(CodexAttachment::Resume(sessions@[k])),
{
    lemma_first_native(sessions@, native_id@, k);
}

/// An explicit resume opens the thread whoever owns it, and a thread that is not listed is
/// opened by neither.
pub proof fn resuming_a_thread_asks_nobody(
    observed_host: &str,
    native_id: &str,
    sessions: &Vec<Session>,
    r: Result<Session, CodexError>,
    attached: Result<CodexAttachment, CodexError>,
)
    requires
        call_ensures(codex::resume, (observed_host, native_id, sessions), r),
        call_ensures(codex::attach, (observed_host, native_id, sessions), attached),
    ensures
        forall|k: int|
            0 <= k < sessions@.len() && (#[trigger] sessions@[k]).native_session_id@ == native_id@
                && (forall|j: int|
                0 <= j < k ==> (#[trigger] sessions@[j]).native_session_id@ != native_id@) ==> r
                == Ok::<Session, CodexError>(sessions@[k]),
        (forall|j: int|
            0 <= j < sessions@.len() ==> (#[trigger] sessions@[j]).native_session_id@ != native_id@)
            ==> r is Err && attached is Err,
{
    assert forall|k: int|
        0 <= k < sessions@.len() && (#[trigger] sessions@[k]).native_session_id@ == native_id@ && (
        forall|j: int|
            0 <= j < k ==> (#[trigger] sessions@[j]).native_session_id@ != native_id@) implies r
        == Ok::<Session, CodexError>(sessions@[k]) by {
        lemma_first_native(sessions@, native_id@, k);
    }
    if forall|j: int|
        0 <= j < sessions@.len() ==> (#[trigger] sessions@[j]).native_session_id@ != native_id@ {
        lemma_no_native(sessions@, native_id@);
    }
}

proof fn lemma_first_record(records: Seq<NativeSession>, id: Seq<char>, k: int)
    requires
        0 <= k < records.len(),
        records[k].session.native_session_id@ == id,
        forall|j: int| 0 <= j < k ==> (#[trigger] records[j]).session.native_session_id@ != id,
    ensures
        first_record(records, id) == Some(records[k]),
    decreases records.len(),
{
    if k > 0 {
        let rest = records.drop_first();
        assert(records[0].session.native_session_id@ != id);
        assert forall|j: int| 0 <= j < k - 1 implies (
        #[trigger] rest[j]).session.native_session_id@ != id by {
            assert(rest[j] == records[j + 1]);
        }
        lemma_first_record(rest, id, k - 1);
    }
}

/// Attaching to a probed session never starts a second writer: where its owner is uncertain it
/// is refused even with a pane, one with a pane is opened there, and one that is open outside a
/// verified terminal is refused. Otherwise, and on an explicit resume whoever owns it, it is
/// opened anew in its directory, and without a known directory not at all.
pub proof fn attaching_starts_no_second_writer(
    host: &str,
    agent: AgentKind,
    native_id: &str,
    force_resume: bool,
    records: &Vec<NativeSession>,
    k: int,
    r: Result<NativeAttachment, NativeError>,
)
    requires
        call_ensures(native::attach, (host, agent, native_id, force_resume, records), r),
        0 <= k < records@.len(),
        records@[k].session.native_session_id@ == native_id@,
        forall|j: int|
            0 <= j < k ==> (#[trigger] records@[j]).session.native_session_id@ != native_id@,
    ensures
        ({
            let row = records@[k];
            let refused = !force_resume && (row.ownership_uncertain || (row.session.tmux is None
                && row.session.runtime is ExternalFrontend));
            let in_pane = !force_resume && !row.ownership_uncertain && row.session.tmux is Some;
            &&& refused ==> r is Err
            &&& in_pane ==> r == Ok::<NativeAttachment, NativeError>(
                NativeAttachment::Pane(row.session.tmux->0),
            )
            &&& !refused && !in_pane && row.session.cwd@.len() == 0 ==> r is Err
            &&& !refused && !in_pane && r is Ok ==> r->Ok_0 is Resume && r->Ok_0->cwd@
                == row.session.cwd@
        }),
{
    lemma_first_record(records@, native_id@, k);
}

/// The command that opens a probed session again hands its program the exact session: the file
/// of Pi; the identifier under a profile of Hermes, or under its directory and the default
/// profile; the conversation of Antigravity, with its project where it has one. Read as a shell
/// reads it, the command is these words, and words with a NUL make none.
pub proof fn resuming_names_the_exact_session(row: &NativeSession, r: Result<String, NativeError>)
    requires
        call_ensures(native::resume_command, (row,), r),
    ensures
        row.session.agent is Pi && r is Ok ==> shell_words(r->Ok_0@) == Some(
            seq!["pi"@, "--session"@, row.locator@],
        ),
        row.session.agent is Hermes && r is Ok && row.profile is Some ==> shell_words(r->Ok_0@)
            == Some(
            seq!["hermes"@, "--profile"@, row.profile->0@, "--resume"@, row.raw_id@],
        ),
        row.session.agent is Hermes && r is Ok && row.profile is None ==> shell_words(r->Ok_0@)
            == Some(
            seq![
                "env"@,
                "HERMES_HOME="@ + row.locator@,
                "hermes"@,
                "--profile"@,
                "default"@,
                "--resume"@,
                row.raw_id@,
            ],
        ),
        row.session.agent is Agy && r is Ok && row.profile is Some ==> shell_words(r->Ok_0@)
            == Some(
            seq!["agy"@, "--conversation"@, row.raw_id@, "--project"@, row.profile->0@],
        ),
        row.session.agent is Agy && r is Ok && row.profile is None ==> shell_words(r->Ok_0@)
            == Some(seq!["agy"@, "--conversation"@, row.raw_id@]),
        row.session.agent is Codex || row.session.agent is Omp ==> r is Err,
{
}

} // verus!
