//! What the picker puts on the screen.

use vstd::prelude::*;

use crate::domain::{Activity, Session};
use crate::laws::keys::stands_on;
use crate::picker::view::overlays::{preview_body, preview_source, sessions_on};
use crate::picker::view::panels::{owner_text, settle_word};
use crate::picker::view::rows::{
    cell_width, columns_for, connectivity_label, counted, fit, fit_text, fold_mark, head_row,
    session_state, Columns,
};
use crate::picker::view::text::{
    cached_preview, cached_preview_source, chunks, compact_home, compacted, format_age,
    truncate_with_ellipsis, window, wrapped, wrapped_body, wrapping_loses_nothing,
};
use crate::picker::view::theme::{Theme, UnknownTheme};
use crate::picker::{
    Clock, ContentView, DashboardRow, DashboardSection, GroupConnectivity, PickerView, SessionRef,
};
use crate::style::{coloured, emboldened, raw_of, span_of, SpanView, StyledSpan, TextStyle};
use crate::text::{
    ascii_lower, decimal, joined, lines_of, lowercase_text, starts_text, trimmed, words_of,
};

verus! {

// ---- texts ----

/// A directory below the home of the user is shown from there; any other is shown whole, also
/// one whose name only begins like the home.
pub proof fn the_home_is_shown_as_a_tilde(
    path: &str,
    home: &Option<String>,
    r: String,
    rest: Seq<char>,
)
    requires
        call_ensures(compact_home, (path, home), r),
    ensures
        home is None ==> r@ == path@,
        home matches Some(home) ==> {
            &&& path@ == home@ ==> r@ == "~"@
            &&& path@ == home@ + "/"@ + rest ==> r@ == "~/"@ + rest
            &&& path@ != home@ && !starts_text(path@, home@ + "/"@) ==> r@ == path@
        },
{
    reveal_strlit("/");
    reveal_strlit("~");
    reveal_strlit("~/");
    if let Some(home) = home {
        let n = home@.len() as int;
        if path@ == home@ + "/"@ + rest {
            assert(path@.subrange(0, n) =~= home@);
            assert(path@.skip(n) =~= "/"@ + rest);
            assert("~"@ + ("/"@ + rest) =~= "~/"@ + rest);
            assert(path@.len() != home@.len());
        }
        if starts_text(path@, home@) && path@.skip(n).len() > 0 && path@.skip(n)[0] == '/' {
            assert(path@.subrange(0, n) =~= home@);
            assert(path@.subrange(0, n + 1) =~= home@ + "/"@) by {
                assert forall|k: int| 0 <= k < n implies path@.subrange(0, n + 1)[k] == #[trigger] home@[k] by {
                    assert(path@.subrange(0, n)[k] == home@[k]);
                }
                assert(path@.subrange(0, n + 1)[n] == path@.skip(n)[0]);
            }
            assert(starts_text(path@, home@ + "/"@));
        }
    }
}

/// A text that does not fit is cut to the room there is, and ends in an ellipsis.
pub proof fn a_long_text_is_cut_to_its_room(value: &str, room: usize, r: String, i: int)
    requires
        call_ensures(truncate_with_ellipsis, (value, room), r),
    ensures
        r@.len() <= room,
        room > 0 && value@.len() <= room ==> r@ == value@,
        room > 0 && value@.len() > room ==> r@.len() == room && r@.last() == '\u{2026}' && (0 <= i
            < room - 1 ==> r@[i] == value@[i]),
{
}

/// An age is shown in the largest unit of which at least one has passed.
pub proof fn an_age_is_shown_in_its_largest_unit(timestamp: u64, now: u64, r: String, n: nat)
    requires
        call_ensures(format_age, (timestamp, now), r),
    ensures
        timestamp >= now ==> r@ == decimal(0) + "s"@,
        now == timestamp + n && n < 60 ==> r@ == decimal(n) + "s"@,
        60 * n <= now - timestamp < 60 * (n + 1) && 1 <= n < 60 ==> r@ == decimal(n) + "m"@,
        3_600 * n <= now - timestamp < 3_600 * (n + 1) && 1 <= n < 24 ==> r@ == decimal(n) + "h"@,
        86_400 * n <= now - timestamp < 86_400 * (n + 1) && 1 <= n ==> r@ == decimal(n) + "d"@,
{
}

/// What is known of a session is shown with its title first, then its last message, where there
/// is one, and then where it runs.
pub proof fn a_preview_holds_what_is_known(
    session: &Session,
    home: &Option<String>,
    r: String,
    path: &str,
    cwd: String,
)
    requires
        call_ensures(cached_preview, (session, home), r),
        path@ == session.cwd@,
        call_ensures(compact_home, (path, home), cwd),
    ensures
        trimmed(session.last_message@).len() > 0 ==> r@ == session.title@ + "\n\n"@
            + session.last_message@ + "\n\n"@ + cwd@ + " / "@ + session.host@,
        trimmed(session.last_message@).len() == 0 ==> r@ == session.title@ + "\n\n"@
            + "No cached agent response is available."@ + "\n\n"@ + cwd@ + " / "@ + session.host@,
{
}

/// A preview says where what it shows came from.
pub proof fn a_preview_says_where_it_is_from(session: &Session, r: &'static str)
    requires
        call_ensures(cached_preview_source, (session,), r),
    ensures
        session.runtime is ExternalFrontend ==> r@ == "external frontend · cached response"@,
        session.runtime is SharedBackend ==> r@ == "Rollcall backend · cached response"@,
        session.runtime is TmuxFrontend || session.runtime is Resumable ==> r@
            == "cached response"@,
{
}

/// A window shows the end of the lines; scrolled by a number of lines it shows what stands that
/// many lines above; and it never goes above the first line.
pub proof fn a_window_shows_the_end(lines: Seq<Seq<char>>, height: nat, scroll: nat, i: int)
    requires
        height <= lines.len(),
    ensures
        window(lines, height, scroll).len() == height,
        0 <= i < height && scroll + height <= lines.len() ==> window(lines, height, scroll)[i]
            == lines[lines.len() - height - scroll + i],
        0 <= i < height && scroll + height > lines.len() ==> window(lines, height, scroll)[i]
            == lines[i],
{
}

/// What a preview says while it waits, what it shows, and what it says of a capture that failed.
pub proof fn a_preview_tells_of_its_capture(content: ContentView, millis: u64)
    ensures
        content is Loading ==> preview_source(content) == "capturing live tmux pane"@,
        content matches ContentView::Ready { source, body } ==> preview_source(content) == source
            && preview_body(content, millis) == body,
        content matches ContentView::Failed { error, fallback } ==> preview_source(content)
            == "cached response · live capture failed"@ && preview_body(content, millis) == fallback
            + "\n\nCapture error: "@ + error,
{
}

// ---- rows ----

/// A session shows its activity where it is current, and else that it is only known from
/// before.
pub proof fn a_row_tells_the_activity(
    session: &Session,
    fresh: bool,
    millis: u64,
    theme: Theme,
    r: (&'static str, TextStyle, &'static str),
)
    requires
        call_ensures(session_state, (session, fresh, millis, theme), r),
    ensures
        !fresh ==> r.2@ == "cached"@,
        fresh && session.activity is Working ==> r.2@ == "working"@,
        fresh && session.activity is WaitingApproval ==> r.2@ == "approval"@,
        fresh && session.activity is WaitingInput ==> r.2@ == "input"@,
        fresh && session.activity is Completed ==> r.2@ == "completed"@,
        fresh && session.activity is Failed ==> r.2@ == "failed"@,
        fresh && session.activity is Unknown ==> r.2@ == "unknown"@,
        fresh && session.activity is Failed ==> r.1.fg == Some(theme.colors().red),
        fresh && (session.activity is WaitingApproval || session.activity is WaitingInput)
            ==> r.1.fg == Some(theme.colors().yellow),
{
}

/// The mark before the title of a session: one for what is unread, whatever else holds; one for
/// what is only known from before; and else the one of its activity.
pub open spec fn has_mark(session: Session, fresh: bool, unread: bool, mark: Seq<char>) -> bool {
    if unread {
        mark == "•"@
    } else if !fresh {
        mark == "◌"@
    } else {
        match session.activity {
            Activity::Working => mark == "◐"@ || mark == "◓"@ || mark == "◑"@ || mark == "◒"@,
            Activity::WaitingApproval => mark == "◆"@,
            Activity::WaitingInput => mark == "◆"@,
            Activity::Completed => mark == "✓"@,
            Activity::Failed => mark == "!"@,
            Activity::Unknown => mark == "○"@,
        }
    }
}

#[verifier::spinoff_prover]
#[verifier::rlimit(40)]
proof fn lemma_cells(
    columns: Columns,
    theme: Theme,
    title: Seq<SpanView>,
    harness: Seq<char>,
    state: Seq<SpanView>,
    age: Seq<char>,
    message: Seq<char>,
)
    ensures
        ({
            let cells = columns.row_cells(theme, title, harness, state, age, message);
            let second: int = if columns.harness {
                2
            } else {
                1
            };
            let third: int = if columns.state {
                second + 1
            } else {
                second
            };
            &&& cells.len() > 0 && cells[0] == title
            &&& columns.harness ==> cells[1] == seq![span_of(harness, theme.muted())]
            &&& columns.state ==> cells[second] == state
            &&& columns.age ==> cells[third] == seq![span_of(age, theme.muted())]
        }),
{
}

/// The row of a session begins with its mark. Where there is room, it shows the agent, the
/// activity and the age, in this order; what is unread is yellow.
#[verifier::spinoff_prover]
#[verifier::rlimit(40)]
pub proof fn a_row_shows_its_session(
    session: Session,
    fresh: bool,
    unread: bool,
    columns: Columns,
    theme: Theme,
    now: u64,
    millis: u64,
)
    ensures
        ({
            let row = crate::picker::view::rows::session_row(
                session,
                fresh,
                unread,
                columns,
                theme,
                now,
                millis,
            );
            let harness: int = 1;
            let state: int = if columns.harness {
                2
            } else {
                1
            };
            let age: int = if columns.state {
                state + 1
            } else {
                state
            };
            &&& row.cells.len() > 0 && row.cells[0].len() == 2
            &&& exists|mark: Seq<char>| #[trigger]
                has_mark(session, fresh, unread, mark) && row.cells[0][0].text == "    "@ + mark
                    + " "@
            &&& unread ==> row.cells[0][0].style.fg == Some(theme.colors().yellow)
            &&& columns.harness ==> row.cells[harness][0].text == session.agent.name()
            &&& columns.state ==> row.cells[state][0].text == (if fresh {
                crate::cli::activity_word(session.activity)
            } else {
                "cached"@
            })
            &&& columns.age ==> row.cells[age][0].text
                == crate::picker::view::text::short_age(session.last_interaction_unix_seconds, now)
        }),
{
    let mark = if unread {
        "•"@
    } else if fresh {
        crate::picker::view::rows::activity_mark(session.activity, millis)
    } else {
        "◌"@
    };
    let style = if unread {
        coloured(theme.colors().yellow)
    } else {
        crate::picker::view::rows::state_look(session, fresh, millis, theme)
    };
    let prefix = "    "@ + mark + " "@;
    let title = columns.title_cell(prefix, session.title@, crate::style::plain_style());
    lemma_cells(
        columns,
        theme,
        seq![span_of(prefix, style), title[1]],
        session.agent.name(),
        seq![span_of(crate::picker::view::rows::state_word(session, fresh), style)],
        crate::picker::view::text::short_age(session.last_interaction_unix_seconds, now),
        session.last_message@,
    );
    assert(has_mark(session, fresh, unread, mark));
}

proof fn lemma_heading(
    columns: Columns,
    theme: Theme,
    indent: Seq<char>,
    expanded: bool,
    name: Seq<char>,
    count: usize,
    state: Seq<SpanView>,
)
    ensures
        ({
            let cells = head_row(
                columns,
                theme,
                indent + fold_mark(expanded),
                counted(name, count),
                state,
            ).cells;
            &&& is_heading(cells, columns, indent, expanded, name, count)
            &&& columns.state ==> cells[if columns.harness {
                2
            } else {
                1
            }] == state
        }),
{
    let mark = indent + fold_mark(expanded);
    let title = columns.title_cell(
        mark,
        counted(name, count),
        emboldened(crate::style::plain_style()),
    );
    lemma_cells(columns, theme, title, Seq::empty(), state, Seq::empty(), Seq::empty());
}

/// The heading of a part of the inventory begins with a mark that says whether it is open, and
/// shows its name and how many sessions stand under it, as far as there is room.
pub proof fn a_part_is_headed_by_its_name(
    v: PickerView,
    section: DashboardSection,
    count: usize,
    expanded: bool,
    columns: Columns,
    theme: Theme,
    clock: Clock,
    millis: u64,
)
    ensures
        ({
            let row = DashboardRow::Section { section, count, expanded };
            let name = match section {
                DashboardSection::Current => "Currently active"@,
                DashboardSection::LastDay => "Last day"@,
                DashboardSection::LastWeek => "Last week"@,
                DashboardSection::Archive => "Archive"@,
            };
            is_heading(
                v.table_row(row, columns, theme, clock, millis).cells,
                columns,
                Seq::empty(),
                expanded,
                name,
                count,
            )
        }),
{
    lemma_heading(
        columns,
        theme,
        Seq::empty(),
        expanded,
        section.heading(),
        count,
        Seq::empty(),
    );
    assert(Seq::<char>::empty() + fold_mark(expanded) =~= fold_mark(expanded));
}

/// The heading of a host shows its name and which one is this host, and how the connection to
/// it stands; one with a current session is online.
pub proof fn a_host_is_headed_by_its_name(
    v: PickerView,
    section: DashboardSection,
    host: String,
    count: usize,
    fresh: bool,
    expanded: bool,
    columns: Columns,
    theme: Theme,
    clock: Clock,
    millis: u64,
)
    ensures
        ({
            let row = DashboardRow::Host { section, host, count, fresh, expanded };
            let cells = v.table_row(row, columns, theme, clock, millis).cells;
            let name = if host@ == v.local_hostname {
                host@ + " (local)"@
            } else {
                host@
            };
            let state: int = if columns.harness {
                2
            } else {
                1
            };
            &&& is_heading(cells, columns, Seq::empty(), expanded, name, count)
            &&& columns.state ==> cells[state].len() == 1
            &&& columns.state && fresh ==> cells[state][0].text == "online"@
        }),
{
    let name = if host@ == v.local_hostname {
        host@ + " (local)"@
    } else {
        host@
    };
    lemma_heading(
        columns,
        theme,
        Seq::empty(),
        expanded,
        name,
        count,
        seq![
            crate::picker::view::rows::connectivity_span(
                v.connectivity(host@, fresh, clock.monotonic_millis),
                theme,
            ),
        ],
    );
    assert(Seq::<char>::empty() + fold_mark(expanded) =~= fold_mark(expanded));
}

/// The heading of a directory is set in and shows it from the home of the user.
pub proof fn a_directory_is_headed_by_its_path(
    v: PickerView,
    section: DashboardSection,
    cwd: String,
    host: String,
    count: usize,
    fresh: bool,
    expanded: bool,
    columns: Columns,
    theme: Theme,
    clock: Clock,
    millis: u64,
)
    ensures
        is_heading(
            v.table_row(
                DashboardRow::Group { section, cwd, host, count, fresh, expanded },
                columns,
                theme,
                clock,
                millis,
            ).cells,
            columns,
            "  "@,
            expanded,
            compacted(cwd@, v.home),
            count,
        ),
{
    lemma_heading(
        columns,
        theme,
        "  "@,
        expanded,
        compacted(cwd@, v.home),
        count,
        Seq::empty(),
    );
}

/// The cells of a heading.
pub open spec fn is_heading(
    cells: Seq<Seq<SpanView>>,
    columns: Columns,
    indent: Seq<char>,
    expanded: bool,
    name: Seq<char>,
    count: usize,
) -> bool {
    let mark = indent + if expanded {
        "▾ "@
    } else {
        "▸ "@
    };
    let taken = cell_width(mark);
    &&& cells.len() > 0
    &&& cells[0].len() == 2
    &&& cells[0][0].text == mark
    &&& cells[0][1].text == fit_text(
        name + " ("@ + decimal(count as nat) + ")"@,
        if columns.title > taken {
            (columns.title - taken) as usize
        } else {
            0
        },
    )
}

/// A text that fits is shown on one line and whole; where there is no room nothing is.
pub proof fn a_text_that_fits_is_shown_whole(text: &str, width: usize, r: String)
    requires
        call_ensures(fit, (text, width), r),
    ensures
        cell_width(joined(words_of(text@), " "@)) <= width ==> r@ == joined(words_of(text@), " "@),
        cell_width(joined(words_of(text@), " "@)) > width && width == 0 ==> r@.len() == 0,
        cell_width(joined(words_of(text@), " "@)) > width && width > 0 ==> r@.len() > 0
            && r@.last() == '\u{2026}',
{
    let line = joined(words_of(text@), " "@);
    assert(line.take(line.len() as int) =~= line);
}

/// No shown line of a preview is wider than the preview, and a line that fits is not cut.
pub proof fn a_preview_is_wrapped_to_its_width(body: Seq<char>, width: nat, i: int)
    requires
        width > 0,
    ensures
        wrapped_body(body, width).len() > 0,
        0 <= i < wrapped_body(body, width).len() ==> wrapped_body(body, width)[i].len() <= width,
        lines_of(body).len() > 0 && (forall|k: int|
            0 <= k < lines_of(body).len() ==> (#[trigger] lines_of(body)[k]).len() <= width)
            ==> wrapped_body(body, width) == lines_of(body),
{
    lemma_wrapped(lines_of(body), width);
}

proof fn lemma_wrapped(lines: Seq<Seq<char>>, width: nat)
    requires
        width > 0,
    ensures
        forall|i: int|
            0 <= i < wrapped(lines, width).len() ==> (#[trigger] wrapped(lines, width)[i]).len()
                <= width,
        (forall|k: int| 0 <= k < lines.len() ==> (#[trigger] lines[k]).len() <= width) ==> wrapped(
            lines,
            width,
        ) == lines,
    decreases lines.len(),
{
    if lines.len() > 0 {
        let front = lines.drop_last();
        lemma_wrapped(front, width);
        wrapping_loses_nothing(lines.last(), width);
        let all = wrapped(lines, width);
        let before = wrapped(front, width);
        assert forall|i: int| 0 <= i < all.len() implies (#[trigger] all[i]).len() <= width by {
            if i < before.len() {
                assert(all[i] == before[i]);
            } else {
                assert(all[i] == chunks(lines.last(), width)[i - before.len()]);
            }
        }
        if forall|k: int| 0 <= k < lines.len() ==> (#[trigger] lines[k]).len() <= width {
            assert forall|k: int| 0 <= k < front.len() implies (#[trigger] front[k]).len()
                <= width by {
                assert(front[k] == lines[k]);
            }
            assert(lines[lines.len() - 1].len() <= width);
            assert(all =~= lines);
        }
    } else {
        assert(wrapped(lines, width) =~= lines);
    }
}

/// A wide screen shows the age, then the activity, then the agent, and last the message of a
/// session; a narrow one gives the title its room first.
pub proof fn columns_come_with_the_room(screen: u16)
    ensures
        ({
            let columns = columns_for(screen);
            &&& columns.age <==> screen >= 24
            &&& columns.state <==> screen >= 60
            &&& columns.harness <==> screen >= 76
            &&& screen < 100 ==> columns.message == 0
            &&& screen >= 100 ==> columns.message > 0 && columns.title <= 48 && columns.title
                <= columns.message
        }),
{
}

/// Each connection has its word and its colour.
pub proof fn a_connection_has_its_word(
    connectivity: GroupConnectivity,
    theme: Theme,
    r: StyledSpan,
)
    requires
        call_ensures(connectivity_label, (connectivity, theme), r),
    ensures
        connectivity is Online ==> r@.text == "online"@ && r@.style.fg == Some(theme.colors().green),
        connectivity is Checking ==> r@.text == "checking"@ && r@.style.fg == Some(
            theme.colors().yellow,
        ),
        connectivity is Offline ==> r@.text == "offline"@ && r@.style.fg == Some(theme.colors().red),
        connectivity is Blocked ==> r@.text == "blocked"@ && r@.style.fg == Some(theme.colors().red),
        connectivity is Cached ==> r@.text == "cached"@,
{
}

// ---- panels ----

/// The owner of a session is named, with its session in tmux where it is known.
pub proof fn the_details_name_the_owner(session: Session)
    ensures
        session.runtime is Resumable ==> owner_text(session) == "resumable"@,
        session.runtime is SharedBackend ==> owner_text(session) == "Rollcall backend"@,
        session.runtime is ExternalFrontend ==> owner_text(session) == "external frontend"@,
        session.runtime is TmuxFrontend && session.tmux is None ==> owner_text(session) == "tmux"@,
        session.runtime is TmuxFrontend && session.tmux is Some ==> owner_text(session) == "tmux "@
            + session.tmux->0.session@,
{
}

/// The details of the session under the cursor show its activity, its title and its message, or
/// that there is none; without a session there are none.
pub proof fn the_details_tell_of_the_session(
    v: PickerView,
    theme: Theme,
    screen: u16,
    clock: crate::picker::Clock,
    millis: u64,
    session: Session,
)
    requires
        stands_on(v, session),
        screen >= 2,
    ensures
        ({
            let lines = v.detail_lines(theme, screen, clock, millis);
            let room = screen - 2;
            &&& lines.len() == 3
            &&& session.last_message@.len() == 0 && room >= 29 ==> lines[1][0].text
                == "No cached agent response yet."@
            &&& 0 < session.last_message@.len() <= room ==> lines[1][0].text
                == session.last_message@
            &&& lines[1][0].text.len() <= room
            &&& lines[2][0].text.len() <= room
        }),
{
    reveal_strlit("No cached agent response yet.");
}

/// One of the spans shows a text.
pub open spec fn shows(spans: Seq<SpanView>, text: Seq<char>) -> bool {
    exists|i: int| 0 <= i < spans.len() && (#[trigger] spans[i]).text == text
}

proof fn lemma_shows(a: Seq<SpanView>, b: Seq<SpanView>, text: Seq<char>)
    ensures
        shows(a, text) || shows(b, text) ==> shows(a + b, text),
{
    if shows(a, text) {
        let i = choose|i: int| 0 <= i < a.len() && (#[trigger] a[i]).text == text;
        assert((a + b)[i].text == text);
    }
    if shows(b, text) {
        let i = choose|i: int| 0 <= i < b.len() && (#[trigger] b[i]).text == text;
        assert((a + b)[a.len() + i].text == text);
    }
}

/// The header says how many hosts are online, how many are being checked, if any, how many are
/// down, how many sessions are unread, if any, and what is searched for.
pub proof fn the_header_tells_of_the_hosts(v: PickerView, theme: Theme)
    ensures
        ({
            let spans = v.header_subtitle(theme);
            &&& shows(spans, "Hosts: "@ + decimal(v.reachable_hosts.len()) + " online"@)
            &&& !v.pending_hosts.is_empty() ==> shows(
                spans,
                decimal(v.pending_hosts.len()) + " checking"@,
            )
            &&& shows(spans, decimal(v.host_errors.dom().len()) + " down"@)
            &&& !v.unread_ids.is_empty() ==> shows(spans, decimal(v.unread_ids.len()) + " unread"@)
            &&& v.input_mode is Search || v.query.len() > 0 ==> shows(spans, "/"@ + v.query)
        }),
{
    let palette = theme.colors();
    let online = "Hosts: "@ + decimal(v.reachable_hosts.len()) + " online"@;
    let checking = decimal(v.pending_hosts.len()) + " checking"@;
    let down = decimal(v.host_errors.dom().len()) + " down"@;
    let unread = decimal(v.unread_ids.len()) + " unread"@;
    let query = "/"@ + v.query;
    let first = seq![span_of(online, coloured(palette.green))];
    let second = if v.pending_hosts == Set::<Seq<char>>::empty() {
        Seq::empty()
    } else {
        seq![raw_of(" · "@), span_of(checking, coloured(palette.yellow))]
    };
    let third = seq![
        raw_of(" · "@),
        span_of(
            down,
            if v.host_errors == Map::<Seq<char>, String>::empty() {
                theme.muted()
            } else {
                coloured(palette.red)
            },
        ),
    ];
    let fourth = if v.unread_ids == Set::<Seq<char>>::empty() {
        Seq::empty()
    } else {
        seq![raw_of(" · "@), span_of(unread, emboldened(coloured(palette.yellow)))]
    };
    let fifth = if v.input_mode is Search || v.query.len() > 0 {
        seq![
            raw_of("    "@),
            span_of(query, emboldened(coloured(palette.blue))),
            span_of(
                crate::picker::view::panels::count_text(" · "@, v.visible_sessions(), " shown"@),
                theme.muted(),
            ),
        ]
    } else {
        Seq::empty()
    };
    assert(v.header_subtitle(theme) == first + second + third + fourth + fifth);
    assert(first[0].text == online);
    lemma_shows(first, second, online);
    lemma_shows(first + second, third, online);
    lemma_shows(first + second + third, fourth, online);
    lemma_shows(first + second + third + fourth, fifth, online);
    if !v.pending_hosts.is_empty() {
        assert(second[1].text == checking);
        lemma_shows(first, second, checking);
        lemma_shows(first + second, third, checking);
        lemma_shows(first + second + third, fourth, checking);
        lemma_shows(first + second + third + fourth, fifth, checking);
    }
    assert(third[1].text == down);
    lemma_shows(first + second, third, down);
    lemma_shows(first + second + third, fourth, down);
    lemma_shows(first + second + third + fourth, fifth, down);
    if !v.unread_ids.is_empty() {
        assert(fourth[1].text == unread);
        lemma_shows(first + second + third, fourth, unread);
        lemma_shows(first + second + third + fourth, fifth, unread);
    }
    if v.input_mode is Search || v.query.len() > 0 {
        assert(fifth[1].text == query);
        lemma_shows(first + second + third + fourth, fifth, query);
    }
}

/// The header counts the sessions of each part, and names the host that is shown.
pub proof fn the_header_shows_its_counts(v: PickerView, theme: Theme, now: u64)
    requires
        v.refs().len() <= usize::MAX,
    ensures
        ({
            let spans = v.header_title(theme, now);
            let query = lowercase_text(v.query);
            let current = v.section_count(DashboardSection::Current, query, now);
            let day = v.section_count(DashboardSection::LastDay, query, now);
            let week = v.section_count(DashboardSection::LastWeek, query, now);
            let archive = v.section_count(DashboardSection::Archive, query, now);
            &&& shows(spans, " Currently active "@ + decimal(current) + " "@)
            &&& shows(spans, " 24h "@ + decimal(day) + " "@)
            &&& shows(spans, " 7d "@ + decimal(week) + " "@)
            &&& shows(spans, " Archive "@ + decimal(archive) + " "@)
            &&& v.host_filter == "all"@ ==> shows(spans, "  all hosts"@)
            &&& v.host_filter != "all"@ ==> shows(spans, "  "@ + v.host_filter)
        }),
{
    let spans = v.header_title(theme, now);
    let query = lowercase_text(v.query);
    lemma_count_bound(v, DashboardSection::Current, query, now);
    lemma_count_bound(v, DashboardSection::LastDay, query, now);
    lemma_count_bound(v, DashboardSection::LastWeek, query, now);
    lemma_count_bound(v, DashboardSection::Archive, query, now);
    let current = v.section_count(DashboardSection::Current, query, now);
    let day = v.section_count(DashboardSection::LastDay, query, now);
    let week = v.section_count(DashboardSection::LastWeek, query, now);
    let archive = v.section_count(DashboardSection::Archive, query, now);
    reveal_strlit("  ");
    reveal_strlit("all hosts");
    reveal_strlit("  all hosts");
    assert("  "@ + "all hosts"@ =~= "  all hosts"@);
    assert(spans[1].text == " Currently active "@ + decimal(current) + " "@);
    assert(spans[2].text == " 24h "@ + decimal(day) + " "@);
    assert(spans[3].text == " 7d "@ + decimal(week) + " "@);
    assert(spans[4].text == " Archive "@ + decimal(archive) + " "@);
    assert(spans[5].text == "  "@ + if v.host_filter == "all"@ {
        "all hosts"@
    } else {
        v.host_filter
    });
}

proof fn lemma_count_bound(v: PickerView, section: DashboardSection, query: Seq<char>, now: u64)
    ensures
        v.section_count(section, query, now) <= v.refs().len(),
{
    v.refs().lemma_filter_len(|r: SessionRef| v.counts(r, section, query, now));
}

/// The footer of a preview says what `a` would do with the session: to put it away, or to bring
/// it back.
pub proof fn the_footer_says_what_archiving_does()
    ensures
        settle_word(Some(true)) == " restore  "@,
        settle_word(Some(false)) == " settle  "@,
        settle_word(None) == " settle/restore  "@,
{
}

/// The footer shows a notice before the status, and the status before the keys.
pub proof fn the_footer_shows_what_is_newest(v: PickerView, theme: Theme)
    requires
        v.input_mode is Browse,
    ensures
        v.notice is Some ==> v.footer(theme).len() == 1 && v.footer(theme)[0].text == (v.notice->0).0,
        v.notice is None && v.status is Some ==> v.footer(theme).len() == 1 && v.footer(
            theme,
        )[0].text == v.status->0,
        v.notice is None && v.status is None ==> v.footer(theme).len() >= 6 && v.footer(
            theme,
        ).last().text == " keys"@,
{
}

/// The list of hosts shows, for each, how many of its sessions are active and settled, which
/// one is shown, and whether it cannot be reached.
pub proof fn a_choice_counts_its_sessions(v: PickerView, host: Seq<char>, state: Seq<char>)
    requires
        v.host_state(host) == state,
    ensures
        ({
            let active = if host == "all"@ {
                v.active.len()
            } else {
                sessions_on(v.active, host)
            };
            let settled = if host == "all"@ {
                v.settled.len()
            } else {
                sessions_on(v.settled, host)
            };
            let shown = if host == v.host_filter {
                "  current"@
            } else {
                ""@
            };
            exists|gap: Seq<char>|
                (forall|i: int| 0 <= i < gap.len() ==> #[trigger] gap[i] == ' ') && #[trigger] (host
                    + gap) + " "@ + decimal(active) + " active · "@ + decimal(settled) + " settled"@
                    + shown + state == v.host_choice_text(host)
        }),
{
    let gap = crate::table::padding(host, 24);
    assert((host + gap).len() >= host.len());
    assert(forall|i: int| 0 <= i < gap.len() ==> #[trigger] gap[i] == ' ');
}

/// Each session counts for its host and for no other.
pub proof fn a_session_counts_for_its_host(
    sessions: Seq<Session>,
    session: Session,
    host: Seq<char>,
)
    ensures
        sessions_on(Seq::empty(), host) == 0,
        sessions_on(sessions.push(session), host) == sessions_on(sessions, host) + (if session.host@
            == host {
            1int
        } else {
            0
        }),
{
    reveal(Seq::filter);
    assert(sessions.push(session).drop_last() =~= sessions);
}

/// A host that is connected to, that failed or that is blocked is said to be so in the list.
pub proof fn a_choice_says_how_its_host_stands(v: PickerView, host: Seq<char>, target: Seq<char>)
    requires
        v.target_of(host) == Some(target),
        v.reconnect.dom().contains(target),
    ensures
        ({
            let phase = v.reconnect[target].phase;
            &&& phase is Connecting ==> v.host_state(host) == "  checking"@
            &&& phase is Backoff ==> v.host_state(host) == "  offline"@
            &&& phase is Blocked ==> v.host_state(host) == "  blocked"@
            &&& phase is Online || phase is Cached ==> v.host_state(host).len() == 0
        }),
{
    reveal_strlit("");
}

// ---- themes ----

/// A theme is chosen by its name, in any case and with blanks around it; without a name it is
/// the one of the terminal; and another name is an error.
pub proof fn a_theme_is_chosen_by_its_name(value: Option<&str>, r: Result<Theme, UnknownTheme>)
    requires
        call_ensures(Theme::parse, (value,), r),
    ensures
        value is None ==> r == Ok::<Theme, UnknownTheme>(Theme::Terminal),
        value matches Some(value) ==> {
            let name = ascii_lower(trimmed(value@));
            &&& name.len() == 0 || name == "terminal"@ ==> r == Ok::<Theme, UnknownTheme>(
                Theme::Terminal,
            )
            &&& name == "everforest"@ ==> r == Ok::<Theme, UnknownTheme>(Theme::Everforest)
            &&& name == "tmux"@ ==> r == Ok::<Theme, UnknownTheme>(Theme::Tmux)
            &&& name.len() > 0 && name != "terminal"@ && name != "everforest"@ && name != "tmux"@
                ==> r is Err
        },
{
    reveal_strlit("terminal");
    reveal_strlit("everforest");
    reveal_strlit("tmux");
    assert("terminal"@.len() == 8 && "everforest"@.len() == 10 && "tmux"@.len() == 4);
}

/// A cell takes the colours of the user's tmux: those of a selection where it is reversed; else
/// the one that stands for what it means, and the background where it has none of its own.
pub proof fn a_cell_takes_the_users_colours(
    theme: crate::theme::Theme,
    cell: crate::theme::CellStyle,
)
    ensures
        ({
            let after = theme.recolored(cell);
            let selected = cell.reversed && theme.selection is Some;
            &&& selected ==> after.fg == (theme.selection->0).0 && after.bg == (theme.selection->0).1
                && !after.reversed
            &&& !selected ==> after.reversed == cell.reversed
            &&& !selected && (cell.fg is Reset || cell.fg is Gray) && theme.foreground is Some
                ==> after.fg == theme.foreground->0
            &&& !selected && cell.fg is Cyan && theme.accent is Some ==> after.fg == theme.accent->0
            &&& !selected && cell.fg is Yellow && theme.attention is Some ==> after.fg
                == theme.attention->0
            &&& !selected && cell.fg is Red && theme.error is Some ==> after.fg == theme.error->0
            &&& !selected && (cell.fg is Green || cell.fg is Blue || cell.fg is Rgb || cell.fg
                is Indexed) ==> after.fg == cell.fg
            &&& !selected && cell.bg is Reset && theme.background is Some ==> after.bg
                == theme.background->0
            &&& !selected && !(cell.bg is Reset) ==> after.bg == cell.bg
            &&& after.bold == cell.bold
        }),
{
}

} // verus!
