//! What the picker does for the user, what a popup leaves, and what a watch prints.

use vstd::prelude::*;

use crate::json::json_text;
use crate::picker::popup::{popup_arguments, popup_selection, selection_text, transition_line};
use crate::picker::targets::PickerSetup;
use crate::picker::turns::{outcome_of, OutcomeView};
use crate::picker::{ActionView, Clock, DashboardSection, PickerApp, PickerError, PickerView};
use crate::quoting::{has_nul, shell_command};
use crate::store::SessionTransition;
use crate::text::{decimal, texts, trimmed};
use crate::picker::view::theme::Theme;

verus! {

/// The picker ends where the user leaves it, and where a session is opened: one to attach to, or
/// one that was taken out of the archive to be attached to. Nothing else ends it.
pub proof fn the_picker_ends_for_a_session_or_the_user(action: ActionView)
    ensures
        outcome_of(action) is Quit <==> action is Quit,
        action matches ActionView::Attach(id) ==> outcome_of(action) == OutcomeView::Open(id),
        action matches ActionView::SetArchived { session_id, attach, .. } ==> outcome_of(action)
            == (if attach {
            OutcomeView::Open(session_id)
        } else {
            OutcomeView::Continue
        }),
        action is Nothing || action is Refresh || action is Acknowledge || action is SetHostFilter
            ==> outcome_of(action) is Continue,
{
}

/// Only the archiving of a session that the store does not know is refused.
pub proof fn only_unknown_sessions_are_refused(v: PickerView, action: ActionView)
    ensures
        v.refuses(action) <==> (action is SetArchived && forall|i: int|
            0 <= i < v.store.len() ==> (#[trigger] v.store[i]).session_id@
                != action->SetArchived_session_id),
{
    let ids = crate::store::row_ids(v.store);
    if action is SetArchived {
        let id = action->SetArchived_session_id;
        if ids.contains(id) {
            let i = choose|i: int| 0 <= i < ids.len() && ids[i] == id;
            assert(v.store[i].session_id@ == id);
        } else {
            assert forall|i: int| 0 <= i < v.store.len() implies (
            #[trigger] v.store[i]).session_id@ != id by {
                assert(ids[i] == v.store[i].session_id@);
            }
        }
    }
}

/// Leaving and opening change nothing that the picker holds; a refresh, a mark, a move to the
/// archive and a filter do what they are named for.
pub proof fn an_action_does_what_it_asks(v: PickerView, action: ActionView, clock: Clock)
    requires
        v.refresh_generation < u64::MAX,
    ensures
        ({
            let after = v.performed(action, clock);
            &&& action is Nothing || action is Quit || action is Attach ==> after == v
            &&& action matches ActionView::Acknowledge(id) ==> !after.unread_ids.contains(id)
            &&& action matches ActionView::SetHostFilter(host) ==> after.host_filter == host
            &&& action is Refresh ==> after.refresh_generation == v.refresh_generation + 1
            &&& action matches ActionView::SetArchived { session_id, archived, .. } ==> forall|
                i: int,
            |
                0 <= i < v.store.len() && (#[trigger] v.store[i]).session_id@ == session_id
                    ==> after.store[i].archived == archived
        }),
{
    if action is Refresh {
        crate::laws::refreshing::a_refresh_starts_afresh(v, clock.monotonic_millis, "local"@);
    }
    if let ActionView::SetArchived { session_id, archived, .. } = action {
        assert forall|i: int|
            0 <= i < v.store.len() && (#[trigger] v.store[i]).session_id@
                == session_id implies v.performed(action, clock).store[i].archived == archived by {
            crate::laws::refreshing::archiving_moves_one_session(
                v,
                session_id,
                archived,
                clock,
                i,
            );
        }
    }
}

/// The picker starts at its rows, with no query, filtered by the host that was given where that
/// is one of the choices and else by none, with the archive folded and the other parts open.
/// Every target is asked, or due at once, and no session counts as current before its host has
/// answered.
pub proof fn the_picker_starts_with_every_host(
    setup: PickerSetup,
    clock: Clock,
    r: PickerApp,
    target: Seq<char>,
)
    requires
        call_ensures(PickerApp::new, (setup, clock), r),
    ensures
        ({
            let v = r@;
            let targets = texts(setup.discovery_targets@);
            let given = if setup.initial_host@ == "local"@ {
                setup.local_hostname@
            } else {
                setup.initial_host@
            };
            &&& v.input_mode is Browse && v.query.len() == 0 && !v.watching && v.preview is None
            &&& v.host_filter == (if v.host_choices.contains(given) {
                given
            } else {
                "all"@
            })
            &&& v.expanded_sections.has(DashboardSection::Current)
            &&& v.expanded_sections.has(DashboardSection::LastDay)
            &&& v.expanded_sections.has(DashboardSection::LastWeek)
            &&& !v.expanded_sections.has(DashboardSection::Archive)
            &&& v.fresh_ids.is_empty()
            &&& v.initial_targets_remaining.contains(target) <==> targets.contains(target)
            &&& v.reconnect.dom().contains(target) <==> targets.contains(target)
            &&& targets.contains(target) ==> (if v.pending_hosts.contains(target) {
                v.reconnect[target].phase is Connecting
            } else {
                v.reconnect[target].next_attempt_at == Some(clock.monotonic_millis)
            })
        }),
{
    reveal_strlit("all");
    reveal_strlit("local");
    assert("all"@.len() != "local"@.len());
    let targets = texts(setup.discovery_targets@);
    let now = clock.monotonic_millis;
    let before = crate::picker::targets::blank(setup, targets, false, now).reloaded(
        clock,
    ).with_choices().rebuilt(None, clock.unix_seconds);
    crate::laws::refreshing::a_refresh_starts_afresh(before, now, target);
    let fresh = PickerView {
        refresh_generation: before.refresh_generation.wrapping_add(1),
        enriching_hosts: Set::empty(),
        activity_pending: Set::empty(),
        pending_hosts: Set::empty(),
        last_activity_poll: Map::empty(),
        reconnect: before.reconnect.map_values(
            |state: crate::reconnect::HostReconnectState| crate::reconnect::requested(now),
        ),
        status: Some("Refreshing configured hosts…"@),
        ..before
    };
    let due = fresh.due_targets(now);
    let chosen = if due.len() < fresh.capacity() {
        due
    } else {
        due.take(fresh.capacity() as int)
    };
    lemma_asking_keeps(fresh, chosen, target);
}

proof fn lemma_asking_keeps(v: PickerView, targets: Seq<Seq<char>>, target: Seq<char>)
    ensures
        ({
            let after = v.asking_all(targets);
            &&& after.input_mode == v.input_mode
            &&& after.query == v.query
            &&& after.watching == v.watching
            &&& after.preview == v.preview
            &&& after.host_filter == v.host_filter
            &&& after.host_choices == v.host_choices
            &&& after.expanded_sections == v.expanded_sections
            &&& after.fresh_ids == v.fresh_ids
            &&& after.initial_targets_remaining == v.initial_targets_remaining
            &&& after.reconnect.dom().contains(target) <==> v.reconnect.dom().contains(target)
        }),
    decreases targets.len(),
{
    if targets.len() > 0 {
        lemma_asking_keeps(v, targets.drop_last(), target);
    }
}

// ---- popups ----

/// What a popup leaves for a session is read back as that session; an empty file is no choice;
/// and a popup that failed is an error with how it ended, whatever it left.
pub proof fn a_popup_opens_the_chosen_session(
    id: &str,
    content: &str,
    status: &str,
    success: bool,
    left: String,
    r: Result<Option<String>, PickerError>,
)
    requires
        call_ensures(selection_text, (id,), left),
        call_ensures(popup_selection, (success, status, content), r),
    ensures
        success && content@ == left@ && trimmed(left@).len() > 0 ==> (r matches Ok(Some(chosen))
            && chosen@ == id@),
        success && trimmed(content@).len() == 0 ==> (r matches Ok(None)),
        !success ==> (r matches Err(PickerError::PopupFailed(said)) && said@ == status@),
        success && trimmed(content@).len() > 0 && json_text(content@) is None ==> r is Err,
{
}

/// A popup runs the picker with the given host and limit, for the given client, and is told
/// where it leaves the choice.
pub proof fn a_popup_runs_the_picker(
    client: &str,
    theme: Theme,
    path: &str,
    executable: &str,
    host: &str,
    limit: usize,
    r: Result<Vec<String>, PickerError>,
)
    requires
        call_ensures(popup_arguments, (client, theme, path, executable, host, limit), r),
    ensures
        r is Ok <==> !has_nul(executable@) && !has_nul(host@),
        r matches Ok(arguments) ==> {
            let words = texts(arguments@);
            &&& words.len() > 0
            &&& words[0] == "display-popup"@
            &&& words.last() == shell_command(
                seq![executable@, "pick"@, "--host"@, host@, "--limit"@, decimal(limit as nat)],
            )
            &&& words.contains("ROLLCALL_TMUX_CLIENT="@ + client@)
            &&& words.contains("ROLLCALL_PICK_SELECTION="@ + path@)
            &&& words.contains("ROLLCALL_THEME="@ + theme.word())
            &&& exists|i: int|
                0 <= i < words.len() - 1 && #[trigger] words[i] == "-c"@ && words[i + 1] == client@
        },
{
    if let Ok(arguments) = r {
        let words = texts(arguments@);
        assert(words[2] == "-c"@ && words[3] == client@);
        assert(words[7] == "ROLLCALL_TMUX_CLIENT="@ + client@);
        assert(words[9] == "ROLLCALL_PICK_SELECTION="@ + path@);
        assert(words[5] == "ROLLCALL_THEME="@ + theme.word());
    }
}

// ---- watching ----

/// A line of a watch tells when it was, what happened, on which host, to which session by its
/// title and by its identifier, with tabs between; the title is on one line.
pub proof fn a_watch_prints_one_line(transition: &SessionTransition, r: String, title: Seq<char>)
    requires
        call_ensures(transition_line, (transition,), r),
        title.len() == transition.title@.len(),
        forall|i: int|
            0 <= i < title.len() ==> #[trigger] title[i] == (if transition.title@[i] == '\t'
                || transition.title@[i] == '\n' || transition.title@[i] == '\r' {
                ' '
            } else {
                transition.title@[i]
            }),
    ensures
        r@ == decimal(transition.observed_at_unix_seconds as nat) + "\t"@ + transition.kind.name()
            + "\t"@ + transition.host@ + "\t"@ + title + "\t"@ + transition.session_id@,
{
    assert(crate::picker::popup::flat_title(transition.title@) =~= title);
}

} // verus!
