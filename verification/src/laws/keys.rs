//! What the keys of the picker ask for.

use vstd::prelude::*;

use crate::domain::Session;
use crate::picker::dashboard::last_before;
use crate::picker::input::{heads_group, Key, KeyCode};
use crate::picker::{
    first_with_id, ActionView, Clock, DashboardRow, DashboardSection, EffectView, GroupKeyView,
    PickerView, SessionRef,
};

verus! {

// ---- the session under the cursor ----

/// The cursor stands on a session.
pub open spec fn stands_on(v: PickerView, session: Session) -> bool {
    &&& v.selected_row < v.rows.len()
    &&& v.rows[v.selected_row as int] matches DashboardRow::Session(place)
    &&& match place {
        SessionRef::Active(i) => i < v.active.len() && session == v.active[i as int],
        SessionRef::Settled(i) => i < v.settled.len() && session == v.settled[i as int],
    }
}

/// The cursor stands on no session.
pub open spec fn stands_on_no_session(v: PickerView) -> bool {
    v.selected_row < v.rows.len() ==> !(v.rows[v.selected_row as int] is Session)
}

/// One of the sessions has an identifier.
pub open spec fn holds(sessions: Seq<Session>, id: Seq<char>) -> bool {
    exists|i: int| 0 <= i < sessions.len() && (#[trigger] sessions[i]).id@ == id
}

/// A key is a letter.
pub open spec fn is_letter(key: Key, c: char) -> bool {
    key.code == KeyCode::Char(c)
}

pub proof fn lemma_found(sessions: Seq<Session>, id: Seq<char>)
    ensures
        first_with_id(sessions, id) is Some <==> holds(sessions, id),
    decreases sessions.len(),
{
    if sessions.len() > 0 && sessions[0].id@ != id {
        let rest = sessions.drop_first();
        lemma_found(rest, id);
        if holds(rest, id) {
            let i = choose|i: int| 0 <= i < rest.len() && (#[trigger] rest[i]).id@ == id;
            assert(sessions[i + 1] == rest[i]);
        }
        if holds(sessions, id) {
            let i = choose|i: int| 0 <= i < sessions.len() && (#[trigger] sessions[i]).id@ == id;
            assert(rest[i - 1] == sessions[i]);
        }
    }
}

proof fn lemma_found_at(sessions: Seq<Session>, id: Seq<char>, i: int)
    requires
        0 <= i < sessions.len(),
        sessions[i].id@ == id,
        forall|j: int| 0 <= j < i ==> (#[trigger] sessions[j]).id@ != id,
    ensures
        first_with_id(sessions, id) == Some(sessions[i]),
    decreases sessions.len(),
{
    if i > 0 {
        let rest = sessions.drop_first();
        assert(rest[i - 1] == sessions[i]);
        assert forall|j: int| 0 <= j < i - 1 implies (#[trigger] rest[j]).id@ != id by {
            assert(sessions[j + 1] == rest[j]);
        }
        assert(sessions[0].id@ != id);
        lemma_found_at(rest, id, i - 1);
    }
}

// ---- browsing ----

/// While the user browses, the picker ends on Escape, on `q` and on Control-C and on nothing
/// else, it refreshes on `r` alone, and it marks the session under the cursor as read on `x`.
pub proof fn letters_ask_for_what_the_help_says(v: PickerView, key: Key, now: u64)
    requires
        v.input_mode is Browse,
        v.wf(),
    ensures
        ({
            let asked = v.key_pressed(key, now).1;
            &&& asked is Quit <==> key.code is Esc || is_letter(key, 'q') || (is_letter(key, 'c')
                && key.control)
            &&& asked is Refresh <==> is_letter(key, 'r')
            &&& asked is Acknowledge <==> is_letter(key, 'x') && !stands_on_no_session(v)
            &&& asked matches ActionView::Acknowledge(id) ==> exists|session: Session|
                stands_on(v, session) && session.id@ == id
            &&& is_letter(key, '0') ==> asked == ActionView::SetHostFilter("all"@)
            &&& asked is SetHostFilter ==> is_letter(key, '0') || is_letter(key, '[') || is_letter(
                key,
                ']',
            )
            &&& asked is Attach ==> key.code is Enter
            &&& asked is SetArchived ==> key.code is Enter || is_letter(key, 'a')
        }),
{
    if let Some(session) = v.chosen_session() {
        assert(stands_on(v, session));
    }
}

/// `/` starts the search, `h` the choice of hosts, `?` the help and `p` the preview of the
/// session under the cursor; nothing else leaves the rows, and only `i` shows or hides the
/// details.
pub proof fn letters_open_what_the_help_says(v: PickerView, key: Key, now: u64)
    requires
        v.input_mode is Browse,
        v.wf(),
    ensures
        ({
            let after = v.key_pressed(key, now).0;
            &&& after.input_mode is Search <==> is_letter(key, '/')
            &&& after.input_mode is Hosts <==> is_letter(key, 'h')
            &&& after.input_mode is Help <==> is_letter(key, '?')
            &&& after.input_mode is Preview <==> is_letter(key, 'p') && !stands_on_no_session(v)
            &&& after.show_details != v.show_details <==> is_letter(key, 'i')
            &&& after.query == v.query
            &&& after.host_filter == v.host_filter
        }),
{
}

/// `a` moves the session under the cursor to the archive where it is among the active ones, and
/// back from it where it is settled; the session is not opened.
pub proof fn the_archive_key_moves_the_session(
    v: PickerView,
    key: Key,
    now: u64,
    session: Session,
)
    requires
        v.input_mode is Browse,
        is_letter(key, 'a'),
        stands_on(v, session),
    ensures
        ({
            let asked = v.key_pressed(key, now).1;
            &&& holds(v.active, session.id@) ==> asked == (ActionView::SetArchived {
                session_id: session.id@,
                archived: true,
                attach: false,
            })
            &&& !holds(v.active, session.id@) ==> asked == (ActionView::SetArchived {
                session_id: session.id@,
                archived: false,
                attach: false,
            })
        }),
{
    lemma_found(v.active, session.id@);
    lemma_found(v.settled, session.id@);
    match v.rows[v.selected_row as int] {
        DashboardRow::Session(SessionRef::Active(i)) => {
            assert(v.active[i as int].id@ == session.id@);
        },
        DashboardRow::Session(SessionRef::Settled(i)) => {
            assert(v.settled[i as int].id@ == session.id@);
        },
        _ => {},
    }
}

/// Enter opens the session under the cursor: an active one as it is, a settled one after it was
/// taken out of the archive. One that another frontend is known to hold is not opened, and the
/// user is told.
pub proof fn enter_opens_the_session(v: PickerView, key: Key, now: u64, session: Session)
    requires
        v.input_mode is Browse,
        key.code is Enter,
        stands_on(v, session),
        forall|i: int, j: int|
            0 <= i < v.active.len() && 0 <= j < v.active.len() && (#[trigger] v.active[i]).id@ == (
            #[trigger] v.active[j]).id@ ==> i == j,
        forall|i: int, j: int|
            0 <= i < v.settled.len() && 0 <= j < v.settled.len() && (#[trigger] v.settled[i]).id@
                == (#[trigger] v.settled[j]).id@ ==> i == j,
        forall|i: int, j: int|
            0 <= i < v.active.len() && 0 <= j < v.settled.len() ==> (#[trigger] v.active[i]).id@ != (
            #[trigger] v.settled[j]).id@,
    ensures
        ({
            let (after, asked) = v.key_pressed(key, now);
            let held = session.runtime is ExternalFrontend && v.fresh_ids.contains(session.id@);
            let settled = v.rows[v.selected_row as int]->Session_0 is Settled;
            &&& held ==> asked is Nothing && (v.preview is None ==> after.status == Some(
                "Owned by an external frontend; close or release it before resuming here."@,
            ))
            &&& !held && !settled ==> asked == ActionView::Attach(session.id@) && after == v
            &&& !held && settled ==> asked == (ActionView::SetArchived {
                session_id: session.id@,
                archived: false,
                attach: true,
            }) && after == v
        }),
{
    lemma_found(v.active, session.id@);
    lemma_found(v.settled, session.id@);
    match v.rows[v.selected_row as int] {
        DashboardRow::Session(SessionRef::Active(i)) => {
            assert(v.active[i as int].id@ == session.id@);
            lemma_found_at(v.active, session.id@, i as int);
        },
        DashboardRow::Session(SessionRef::Settled(i)) => {
            assert(v.settled[i as int].id@ == session.id@);
            lemma_found_at(v.settled, session.id@, i as int);
            assert(!holds(v.active, session.id@)) by {
                if holds(v.active, session.id@) {
                    let k = choose|k: int|
                        0 <= k < v.active.len() && (#[trigger] v.active[k]).id@ == session.id@;
                    assert(v.active[k].id@ != v.settled[i as int].id@);
                }
            }
        },
        _ => {},
    }
}

// ---- folding ----

/// Space and Tab fold what the cursor's row stands under: on a part of the inventory that part;
/// on a host or a directory that one; on a session the nearest heading above it. What was open
/// is closed and what was closed is opened, and nothing else is folded.
pub proof fn folding_folds_the_heading(v: PickerView, key: Key, now: u64, i: int)
    requires
        v.input_mode is Browse,
        key.code is Tab || is_letter(key, ' '),
        0 <= i <= v.selected_row < v.rows.len(),
        v.rows.len() <= usize::MAX,
    ensures
        ({
            let after = v.key_pressed(key, now).0;
            let row = v.rows[v.selected_row as int];
            &&& row matches DashboardRow::Section { section, .. } ==> after.collapsed_groups
                == v.collapsed_groups && (forall|other: DashboardSection|
                after.expanded_sections.has(other) <==> (if other == section {
                    !v.expanded_sections.has(other)
                } else {
                    v.expanded_sections.has(other)
                }))
            &&& !(row is Section) && heads(v.rows[i]) is Some && (forall|j: int|
                i < j <= v.selected_row ==> heads(#[trigger] v.rows[j]) is None) ==> {
                &&& after.expanded_sections == v.expanded_sections
                &&& forall|other: GroupKeyView| #[trigger]
                    after.collapsed_groups.contains(other) <==> (if other == heads(v.rows[i])->0 {
                        !v.collapsed_groups.contains(other)
                    } else {
                        v.collapsed_groups.contains(other)
                    })
            }
        }),
{
    let row = v.rows[v.selected_row as int];
    if !(row is Section) && heads(v.rows[i]) is Some && (forall|j: int|
        i < j <= v.selected_row ==> heads(#[trigger] v.rows[j]) is None) {
        lemma_last_heading(v.rows, i, v.selected_row + 1);
    }
}

/// The group that a row heads.
pub open spec fn heads(row: DashboardRow) -> Option<GroupKeyView> {
    match row {
        DashboardRow::Host { section, host, .. } => Some(
            GroupKeyView::Host { section, host: host@ },
        ),
        DashboardRow::Group { section, host, cwd, .. } => Some(
            GroupKeyView::Project { section, host: host@, cwd: cwd@ },
        ),
        _ => None,
    }
}

proof fn lemma_last_heading(rows: Seq<DashboardRow>, i: int, end: int)
    requires
        0 <= i < end <= rows.len() <= usize::MAX,
        heads(rows[i]) is Some,
        forall|j: int| i < j < end ==> heads(#[trigger] rows[j]) is None,
    ensures
        last_before(rows, heads_group(), end as nat) == Some(i as usize),
    decreases end - i,
{
    if end > i + 1 {
        assert(heads(rows[end - 1]) is None);
        lemma_last_heading(rows, i, end - 1);
    }
}

// ---- searching ----

/// While the user searches, a letter is added to the query, Backspace takes the last one away,
/// Control-U takes all away, and Escape and Enter go back to the rows and keep the query.
pub proof fn the_query_follows_the_keys(v: PickerView, key: Key, now: u64)
    requires
        v.input_mode is Search,
    ensures
        ({
            let (after, asked) = v.key_pressed(key, now);
            &&& asked is Nothing
            &&& key.code is Esc || key.code is Enter <==> after.input_mode is Browse
            &&& key.code is Esc || key.code is Enter ==> after.query == v.query
            &&& !key.control && !key.alt ==> (key.code matches KeyCode::Char(c) ==> after.query
                == v.query.push(c))
            &&& is_letter(key, 'u') && key.control ==> after.query.len() == 0
            &&& key.code is Backspace && v.query.len() > 0 ==> v.query == after.query.push(
                v.query.last(),
            )
            &&& key.code is Backspace && v.query.len() == 0 ==> after.query.len() == 0
        }),
{
    if key.code is Backspace && v.query.len() > 0 {
        assert(v.query =~= v.query.drop_last().push(v.query.last()));
    }
}

// ---- hosts ----

/// In the list of hosts the cursor moves by one and stays within the list, Enter shows the host
/// under it alone, and Escape and `q` leave the list with the filter as it was.
pub proof fn the_list_of_hosts_follows_the_keys(v: PickerView, key: Key, now: u64)
    requires
        v.input_mode is Hosts,
        v.host_selected < v.host_choices.len() <= usize::MAX,
    ensures
        ({
            let (after, asked) = v.key_pressed(key, now);
            &&& key.code is Down || is_letter(key, 'j') ==> after.host_selected == (if v.host_selected
                + 1 < v.host_choices.len() {
                v.host_selected + 1
            } else {
                v.host_selected as int
            })
            &&& key.code is Up || is_letter(key, 'k') ==> after.host_selected == (if v.host_selected
                > 0 {
                v.host_selected - 1
            } else {
                0
            })
            &&& key.code is Enter ==> asked == ActionView::SetHostFilter(
                v.host_choices[v.host_selected as int],
            )
            &&& !(key.code is Enter) ==> asked is Nothing
            &&& after.input_mode is Browse <==> key.code is Esc || is_letter(key, 'q')
            &&& after.host_filter == v.host_filter
        }),
{
}

/// The help is left by Escape, Enter, `q` and `?`, and no key does anything else in it.
pub proof fn the_help_only_closes(v: PickerView, key: Key, now: u64)
    requires
        v.input_mode is Help,
    ensures
        ({
            let (after, asked) = v.key_pressed(key, now);
            &&& asked is Nothing
            &&& after.input_mode is Browse <==> key.code is Esc || key.code is Enter || is_letter(
                key,
                'q',
            ) || is_letter(key, '?')
            &&& after == PickerView { input_mode: after.input_mode, ..v }
        }),
{
}

/// `]` and `[` show the host behind and before the shown one, and stay at the ends of the list.
pub proof fn brackets_go_from_host_to_host(v: PickerView, key: Key, now: u64, i: int)
    requires
        v.input_mode is Browse,
        0 <= i < v.host_choices.len() <= usize::MAX,
        v.host_choices[i] == v.host_filter,
        forall|j: int| 0 <= j < i ==> #[trigger] v.host_choices[j] != v.host_filter,
    ensures
        is_letter(key, ']') ==> v.key_pressed(key, now).1 == ActionView::SetHostFilter(
            v.host_choices[if i + 1 < v.host_choices.len() {
                i + 1
            } else {
                i
            }],
        ),
        is_letter(key, '[') ==> v.key_pressed(key, now).1 == ActionView::SetHostFilter(
            v.host_choices[if i > 0 {
                i - 1
            } else {
                0
            }],
        ),
{
    lemma_place(v.host_choices, v.host_filter, i, 0);
}

proof fn lemma_place(names: Seq<Seq<char>>, name: Seq<char>, i: int, from: int)
    requires
        0 <= from <= i < names.len() <= usize::MAX,
        names[i] == name,
        forall|j: int| from <= j < i ==> #[trigger] names[j] != name,
    ensures
        crate::picker::dashboard::position_from(names, name, from as nat) == Some(i as usize),
    decreases i - from,
{
    if from < i {
        assert(names[from] != name);
        lemma_place(names, name, i, from + 1);
    }
}

/// Once a host was chosen only its sessions are shown, the cursor of the list of hosts stands on
/// it, the picker is back at its rows, and nothing that was asked or shown of a session changes.
pub proof fn choosing_a_host_filters_by_it(v: PickerView, host: Seq<char>, clock: Clock, i: int)
    requires
        0 <= i < v.host_choices.len() <= usize::MAX,
        v.host_choices[i] == host,
        forall|j: int| 0 <= j < i ==> #[trigger] v.host_choices[j] != host,
    ensures
        ({
            let after = v.filtered(host, clock);
            &&& after.host_filter == host
            &&& after.host_selected == i
            &&& after.input_mode is Browse
            &&& after.host_choices == v.host_choices
            &&& after.active == v.active
            &&& after.settled == v.settled
            &&& after.query == v.query
            &&& after.effects == v.effects
            &&& host == "all"@ ==> after.reconnect == v.reconnect
            &&& forall|target: Seq<char>|
                v.pending_hosts.contains(target) || v.enriching_hosts.contains(target)
                    || !v.reconnect.dom().contains(target) ==> (
                #[trigger] after.reconnect.dom().contains(target) <==> v.reconnect.dom().contains(
                    target,
                )) && after.reconnect[target] == v.reconnect[target]
        }),
{
    lemma_place(v.host_choices, host, i, 0);
}

// ---- the preview ----

/// `p` previews the session under the cursor from its end. Where it is known to run in tmux, its
/// pane is captured and nothing is shown yet; anything else is shown from what is known.
pub proof fn a_preview_shows_the_session(v: PickerView, key: Key, now: u64, session: Session)
    requires
        v.input_mode is Browse,
        is_letter(key, 'p'),
        stands_on(v, session),
    ensures
        ({
            let after = v.key_pressed(key, now).0;
            let live = v.fresh_ids.contains(session.id@) && session.runtime is TmuxFrontend
                && session.tmux is Some;
            &&& after.preview matches Some(preview) && preview.session_id == session.id@
                && preview.title == session.title@ && preview.host == session.host@
                && preview.scroll_from_bottom == 0 && preview.notice is None && preview.request_id
                == after.preview_request_id
            &&& after.preview_request_id != v.preview_request_id
            &&& live ==> after.preview->0.content is Loading && after.effects == v.effects.push(
                EffectView::CapturePane {
                    request_id: after.preview_request_id,
                    session_id: session.id@,
                    host: session.host@,
                    tmux_session: session.tmux->0.session@,
                    pane: session.tmux->0.pane@,
                    lines: 120,
                },
            )
            &&& !live ==> after.effects == v.effects && after.preview->0.content is Ready
        }),
{
}

/// In a preview one line is scrolled by the arrows and by `j` and `k`, ten by the page keys;
/// Home and `g` go to the beginning, End and `G` to the end.
pub proof fn a_preview_scrolls(v: PickerView, key: Key, now: u64)
    requires
        v.input_mode is Preview,
        v.preview is Some,
        v.preview->0.scroll_from_bottom + 10 <= usize::MAX,
    ensures
        ({
            let after = v.key_pressed(key, now).0;
            let from = v.preview->0.scroll_from_bottom as int;
            let up = key.code is Up || is_letter(key, 'k');
            let down = key.code is Down || is_letter(key, 'j');
            &&& up ==> after.preview->0.scroll_from_bottom == from + 1
            &&& key.code is PageUp ==> after.preview->0.scroll_from_bottom == from + 10
            &&& down ==> after.preview->0.scroll_from_bottom == if from >= 1 {
                from - 1
            } else {
                0
            }
            &&& key.code is PageDown ==> after.preview->0.scroll_from_bottom == if from >= 10 {
                from - 10
            } else {
                0
            }
            &&& key.code is Home || is_letter(key, 'g') ==> after.preview->0.scroll_from_bottom
                == usize::MAX
            &&& key.code is End || is_letter(key, 'G') ==> after.preview->0.scroll_from_bottom == 0
            &&& up || down || key.code is PageUp || key.code is PageDown ==> after.preview is Some
                && after.preview->0.content == v.preview->0.content
                && after.preview->0.session_id == v.preview->0.session_id && after.input_mode
                is Preview
        }),
{
}

/// In a preview Escape, `q` and `p` go back to the rows, `x` marks the previewed session as
/// read, and `a` moves it to the archive or back and closes the preview; one that has left the
/// inventory is only told of.
pub proof fn a_preview_acts_on_its_session(v: PickerView, key: Key, now: u64)
    requires
        v.input_mode is Preview,
        v.preview is Some,
    ensures
        ({
            let (after, asked) = v.key_pressed(key, now);
            let id = v.preview->0.session_id;
            &&& key.code is Esc || is_letter(key, 'q') || is_letter(key, 'p') ==> after.preview
                is None && after.input_mode is Browse && asked is Nothing
            &&& is_letter(key, 'x') ==> asked == ActionView::Acknowledge(id) && after == v
            &&& is_letter(key, 'a') ==> after.preview is None && after.input_mode is Browse
            &&& is_letter(key, 'a') && holds(v.active, id) ==> asked == (ActionView::SetArchived {
                session_id: id,
                archived: true,
                attach: false,
            })
            &&& is_letter(key, 'a') && !holds(v.active, id) && holds(v.settled, id) ==> asked == (
            ActionView::SetArchived { session_id: id, archived: false, attach: false })
            &&& is_letter(key, 'a') && !holds(v.active, id) && !holds(v.settled, id) ==> asked
                is Nothing && after.status == Some(
                "That session is no longer in the cached inventory."@,
            )
            &&& asked is Quit || asked is Refresh || asked is SetHostFilter ==> false
        }),
{
    lemma_found(v.active, v.preview->0.session_id);
    lemma_found(v.settled, v.preview->0.session_id);
}

} // verus!
