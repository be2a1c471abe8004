//! The table of the dashboard.

use vstd::prelude::*;

use crate::cli::activity_word;
use crate::domain::{Activity, Session};
use crate::picker::{
    text_of, Clock, DashboardRow, DashboardSection, GroupConnectivity, PickerApp, PickerView,
};
use crate::style::{
    coloured, emboldened, line_views, plain_style, span_of, span_views, styled, Color, SpanView,
    StyledSpan, TextStyle,
};
use crate::text::{
    chars_of, decimal, decimal_of, join_with, joined, same, string_of, words, words_of,
};

use super::text::{compact_home, compacted, format_age, short_age};
use super::theme::Theme;

verus! {

// ---- fitting text into cells of the terminal ----

/// How many cells of the terminal a text takes, as `ratatui::text::Line` measures it.
pub uninterp spec fn cell_width(text: Seq<char>) -> usize;

/// `ratatui::text::Line::width` gives the number of cells of the terminal that a text takes;
/// wide characters take two. The result depends on the text alone and is named, not spelled
/// out.
#[verifier::external_body]
fn measure(text: &str) -> (r: usize)
    ensures
        r == cell_width(text@),
{
    ratatui::text::Line::raw(text).width()
}

/// How many characters from the front stay below a width, by the widths of the beginnings.
pub open spec fn fitting(widths: Seq<usize>, width: usize, k: nat) -> nat
    decreases widths.len() - k,
{
    if k + 1 < widths.len() && widths[k as int + 1] < width {
        fitting(widths, width, k + 1)
    } else {
        k
    }
}

/// A text in one line that fits a width, by the widths of its beginnings: the text where it
/// fits, and else what fits of it before an ellipsis.
pub open spec fn fitted(clean: Seq<char>, widths: Seq<usize>, width: usize) -> Seq<char> {
    if widths.last() <= width {
        clean
    } else if width == 0 {
        Seq::empty()
    } else {
        clean.take(fitting(widths, width, 0) as int).push('\u{2026}')
    }
}

/// A text in one line that fits a width, by the widths of its beginnings.
pub fn fit_by(clean: &str, widths: &Vec<usize>, width: usize) -> (r: String)
    requires
        widths@.len() == clean@.len() + 1,
    ensures
        r@ == fitted(clean@, widths@, width),
{
    let last: usize = widths[widths.len() - 1];
    if last <= width {
        return clean.to_owned();
    }
    if width == 0 {
        return String::new();
    }
    let chars: Vec<char> = chars_of(clean);
    let mut end: usize = 0;
    while end < chars.len() && widths[end + 1] < width
        invariant
            end <= chars@.len(),
            widths@.len() == chars@.len() + 1,
            fitting(widths@, width, end as nat) == fitting(widths@, width, 0),
        decreases chars@.len() - end,
    {
        end += 1;
    }
    let mut r: String = string_of(&chars, 0, end);
    assert(r@ =~= clean@.take(end as int));
    r.push('\u{2026}');
    r
}

/// The widths of the beginnings of a text.
pub open spec fn beginning_widths(text: Seq<char>) -> Seq<usize> {
    Seq::new(text.len() + 1, |k: int| cell_width(text.take(k)))
}

/// A text in one line.
pub open spec fn one_line(text: Seq<char>) -> Seq<char> {
    joined(words_of(text), " "@)
}

/// A text in one line that takes at most so many cells of the terminal.
pub open spec fn fit_text(text: Seq<char>, width: usize) -> Seq<char> {
    fitted(one_line(text), beginning_widths(one_line(text)), width)
}

/// A text in one line that takes at most so many cells of the terminal.
pub fn fit(text: &str, width: usize) -> (r: String)
    ensures
        r@ == fit_text(text@, width),
{
    let clean: String = join_with(&words(text), " ");
    let chars: Vec<char> = chars_of(clean.as_str());
    let mut widths: Vec<usize> = Vec::new();
    let mut beginning: String = String::new();
    let mut k: usize = 0;
    assert(beginning@ =~= clean@.take(0));
    while k < chars.len()
        invariant
            k <= chars@.len(),
            chars@ == clean@,
            beginning@ == clean@.take(k as int),
            widths@.len() == k,
            forall|j: int| 0 <= j < k ==> #[trigger] widths@[j] == cell_width(clean@.take(j)),
        decreases chars@.len() - k,
    {
        widths.push(measure(beginning.as_str()));
        beginning.push(chars[k]);
        k += 1;
        assert(beginning@ =~= clean@.take(k as int));
    }
    assert(clean@.take(k as int) =~= clean@);
    widths.push(measure(clean.as_str()));
    assert(widths@ =~= beginning_widths(clean@));
    fit_by(clean.as_str(), &widths, width)
}

// ---- columns ----

/// The columns of the table. They are sized by the screen and never by what stands in a row.
#[derive(Clone, Copy, Debug, Eq, PartialEq, Structural)]
pub struct Columns {
    pub title: usize,
    pub harness: bool,
    pub state: bool,
    pub age: bool,
    pub message: usize,
}

/// The cells that the columns beside the title and the message take.
pub open spec fn fixed_width(harness: bool, state: bool, age: bool) -> int {
    (if harness {
        9int
    } else {
        0
    }) + (if state {
        12int
    } else {
        0
    }) + (if age {
        9int
    } else {
        0
    })
}

/// The columns that fit a screen, beside the mark of the cursor.
pub open spec fn columns_for(screen: u16) -> Columns {
    let width: int = if screen > 2 {
        screen - 2
    } else {
        0
    };
    let has_message = width >= 98;
    let taken = fixed_width(width >= 74, width >= 58, width >= 22) + if has_message {
        2int
    } else {
        0
    };
    let remaining: int = if width > taken {
        width - taken
    } else {
        0
    };
    let title: int = if !has_message {
        remaining
    } else if remaining / 2 < 48 {
        remaining / 2
    } else {
        48
    };
    Columns {
        title: title as usize,
        harness: width >= 74,
        state: width >= 58,
        age: width >= 22,
        message: (if has_message {
            remaining - title
        } else {
            0
        }) as usize,
    }
}

/// A row of the table.
#[derive(Debug, Eq, PartialEq)]
pub struct TableRow {
    pub cells: Vec<Vec<StyledSpan>>,
    pub style: TextStyle,
}

/// A row of the table.
#[verifier::ext_equal]
pub struct TableRowView {
    pub cells: Seq<Seq<SpanView>>,
    pub style: TextStyle,
}

impl View for TableRow {
    type V = TableRowView;

    open spec fn view(&self) -> TableRowView {
        TableRowView { cells: line_views(self.cells@), style: self.style }
    }
}

/// Rows of the table.
pub open spec fn table_row_views(rows: Seq<TableRow>) -> Seq<TableRowView> {
    rows.map_values(|row: TableRow| row@)
}

/// Nothing, or a cell where its column is shown.
pub open spec fn cell_if(shown: bool, cell: Seq<SpanView>) -> Seq<Seq<SpanView>> {
    if shown {
        seq![cell]
    } else {
        Seq::empty()
    }
}

impl Columns {
    /// The columns that fit a screen.
    pub fn new(screen: u16) -> (r: Self)
        ensures
            r == columns_for(screen),
    {
        let width: usize = if screen > 2 { screen as usize - 2 } else { 0 };
        let harness: bool = width >= 74;
        let state: bool = width >= 58;
        let age: bool = width >= 22;
        let has_message: bool = width >= 98;
        let mut taken: usize = 0;
        if harness {
            taken += 9;
        }
        if state {
            taken += 12;
        }
        if age {
            taken += 9;
        }
        if has_message {
            taken += 2;
        }
        let remaining: usize = if width > taken { width - taken } else { 0 };
        let title: usize = if !has_message {
            remaining
        } else if remaining / 2 < 48 {
            remaining / 2
        } else {
            48
        };
        Columns {
            title,
            harness,
            state,
            age,
            message: if has_message { remaining - title } else { 0 },
        }
    }

    /// The widths of the columns that are shown.
    pub open spec fn shown_widths(self) -> Seq<usize> {
        seq![self.title] + (if self.harness {
            seq![7usize]
        } else {
            Seq::empty()
        }) + (if self.state {
            seq![10usize]
        } else {
            Seq::empty()
        }) + (if self.age {
            seq![7usize]
        } else {
            Seq::empty()
        }) + (if self.message > 0 {
            seq![self.message]
        } else {
            Seq::empty()
        })
    }

    /// The widths of the columns that are shown.
    pub fn widths(&self) -> (r: Vec<usize>)
        ensures
            r@ == self.shown_widths(),
    {
        let mut r: Vec<usize> = Vec::new();
        r.push(self.title);
        if self.harness {
            r.push(7);
        }
        if self.state {
            r.push(10);
        }
        if self.age {
            r.push(7);
        }
        if self.message > 0 {
            r.push(self.message);
        }
        assert(r@ =~= self.shown_widths());
        r
    }

    /// The cells of a row, one for every column that is shown.
    pub open spec fn row_cells(
        self,
        theme: Theme,
        title: Seq<SpanView>,
        harness: Seq<char>,
        state: Seq<SpanView>,
        age: Seq<char>,
        message: Seq<char>,
    ) -> Seq<Seq<SpanView>> {
        seq![title] + cell_if(self.harness, seq![span_of(harness, theme.muted())]) + cell_if(
            self.state,
            state,
        ) + cell_if(self.age, seq![span_of(age, theme.muted())]) + cell_if(
            self.message > 0,
            seq![span_of(fit_text(message, self.message), theme.muted())],
        )
    }

    fn row(
        &self,
        theme: Theme,
        title: Vec<StyledSpan>,
        harness: &str,
        state: Vec<StyledSpan>,
        age: &str,
        message: &str,
    ) -> (r: Vec<Vec<StyledSpan>>)
        ensures
            line_views(r@) == self.row_cells(
                theme,
                span_views(title@),
                harness@,
                span_views(state@),
                age@,
                message@,
            ),
    {
        let muted: TextStyle = theme.muted_style();
        let ghost first = span_views(title@);
        let ghost third = span_views(state@);
        let mut r: Vec<Vec<StyledSpan>> = Vec::new();
        r.push(title);
        if self.harness {
            r.push(single(harness, muted));
        }
        if self.state {
            r.push(state);
        }
        if self.age {
            r.push(single(age, muted));
        }
        if self.message > 0 {
            r.push(single(fit(message, self.message).as_str(), muted));
        }
        assert(line_views(r@) =~= self.row_cells(
            theme,
            first,
            harness@,
            third,
            age@,
            message@,
        ));
        r
    }

    /// A title behind its prefix, as wide as the column leaves.
    pub open spec fn title_cell(self, prefix: Seq<char>, text: Seq<char>, style: TextStyle) -> Seq<
        SpanView,
    > {
        let taken = cell_width(prefix);
        let left = if self.title > taken {
            (self.title - taken) as usize
        } else {
            0
        };
        seq![span_of(prefix, style), span_of(fit_text(text, left), style)]
    }

    fn title_spans(&self, prefix: &str, text: &str, style: TextStyle) -> (r: Vec<StyledSpan>)
        ensures
            span_views(r@) == self.title_cell(prefix@, text@, style),
            r@.len() == 2,
    {
        let taken: usize = measure(prefix);
        let left: usize = if self.title > taken { self.title - taken } else { 0 };
        let mut r: Vec<StyledSpan> = Vec::new();
        r.push(styled(prefix, style));
        r.push(styled(fit(text, left).as_str(), style));
        assert(span_views(r@) =~= self.title_cell(prefix@, text@, style));
        r
    }

    /// The headings of the table.
    pub open spec fn heading(self, theme: Theme) -> TableRowView {
        TableRowView {
            cells: self.row_cells(
                theme,
                seq![span_of("SESSION / PROJECT"@, plain_style())],
                "HARNESS"@,
                seq![span_of("ACTIVITY"@, plain_style())],
                "UPDATED"@,
                "LAST MESSAGE"@,
            ),
            style: emboldened(theme.muted()),
        }
    }

    /// The headings of the table.
    pub fn header(&self, theme: Theme) -> (r: TableRow)
        ensures
            r@ == self.heading(theme),
    {
        TableRow {
            cells: self.row(
                theme,
                single("SESSION / PROJECT", TextStyle::plain()),
                "HARNESS",
                single("ACTIVITY", TextStyle::plain()),
                "UPDATED",
                "LAST MESSAGE",
            ),
            style: theme.muted_style().bold(),
        }
    }
}

fn single(text: &str, style: TextStyle) -> (r: Vec<StyledSpan>)
    ensures
        span_views(r@) == seq![span_of(text@, style)],
{
    let mut r: Vec<StyledSpan> = Vec::new();
    r.push(styled(text, style));
    assert(span_views(r@) =~= seq![span_of(text@, style)]);
    r
}

// ---- rows ----

/// A row that heads others: a mark, a title, and what is known of its state.
pub open spec fn head_row(
    columns: Columns,
    theme: Theme,
    mark: Seq<char>,
    title: Seq<char>,
    state: Seq<SpanView>,
) -> TableRowView {
    TableRowView {
        cells: columns.row_cells(
            theme,
            columns.title_cell(mark, title, emboldened(plain_style())),
            Seq::empty(),
            state,
            Seq::empty(),
            Seq::empty(),
        ),
        style: plain_style(),
    }
}

fn head(columns: &Columns, theme: Theme, mark: &str, title: &str, state: Vec<StyledSpan>) -> (r:
    TableRow)
    ensures
        r@ == head_row(*columns, theme, mark@, title@, span_views(state@)),
{
    proof {
        reveal_strlit("");
        assert(""@ =~= Seq::<char>::empty());
    }
    TableRow {
        cells: columns.row(
            theme,
            columns.title_spans(mark, title, TextStyle::plain().bold()),
            "",
            state,
            "",
            "",
        ),
        style: TextStyle::plain(),
    }
}

/// The mark of a row that can be collapsed.
pub open spec fn fold_mark(expanded: bool) -> Seq<char> {
    if expanded {
        "▾ "@
    } else {
        "▸ "@
    }
}

/// A name and how many sessions it has.
pub open spec fn counted(name: Seq<char>, count: usize) -> Seq<char> {
    name + " ("@ + decimal(count as nat) + ")"@
}

fn with_count(name: &str, count: usize) -> (r: String)
    ensures
        r@ == counted(name@, count),
{
    let mut r: String = name.to_owned();
    r.append(" (");
    r.append(decimal_of(count as u64).as_str());
    r.append(")");
    r
}

/// The row of a part of the inventory.
pub open spec fn section_row(
    section: DashboardSection,
    count: usize,
    expanded: bool,
    columns: Columns,
    theme: Theme,
) -> TableRowView {
    head_row(
        columns,
        theme,
        fold_mark(expanded),
        counted(section.heading(), count),
        Seq::empty(),
    )
}

/// The row of a part of the inventory.
pub fn section_item(
    section: DashboardSection,
    count: usize,
    expanded: bool,
    columns: &Columns,
    theme: Theme,
) -> (r: TableRow)
    ensures
        r@ == section_row(section, count, expanded, *columns, theme),
{
    let mark: &str = if expanded { "▾ " } else { "▸ " };
    let none: Vec<StyledSpan> = Vec::new();
    assert(span_views(none@) =~= Seq::<SpanView>::empty());
    head(columns, theme, mark, with_count(section.label(), count).as_str(), none)
}

/// The word for a connection, and how it is shown.
pub open spec fn connectivity_span(connectivity: GroupConnectivity, theme: Theme) -> SpanView {
    match connectivity {
        GroupConnectivity::Online => span_of("online"@, coloured(theme.colors().green)),
        GroupConnectivity::Checking => span_of("checking"@, coloured(theme.colors().yellow)),
        GroupConnectivity::Offline(_) => span_of("offline"@, coloured(theme.colors().red)),
        GroupConnectivity::Blocked => span_of("blocked"@, coloured(theme.colors().red)),
        GroupConnectivity::Cached => span_of("cached"@, theme.muted()),
    }
}

/// The word for a connection, and how it is shown.
pub fn connectivity_label(connectivity: GroupConnectivity, theme: Theme) -> (r: StyledSpan)
    ensures
        r@ == connectivity_span(connectivity, theme),
{
    match connectivity {
        GroupConnectivity::Online => styled("online", TextStyle::fg(theme.palette().green)),
        GroupConnectivity::Checking => styled("checking", TextStyle::fg(theme.palette().yellow)),
        GroupConnectivity::Offline(_) => styled("offline", TextStyle::fg(theme.palette().red)),
        GroupConnectivity::Blocked => styled("blocked", TextStyle::fg(theme.palette().red)),
        GroupConnectivity::Cached => styled("cached", theme.muted_style()),
    }
}

/// The row of a host.
pub open spec fn host_row(
    host: Seq<char>,
    local: bool,
    count: usize,
    connectivity: GroupConnectivity,
    expanded: bool,
    columns: Columns,
    theme: Theme,
) -> TableRowView {
    head_row(
        columns,
        theme,
        fold_mark(expanded),
        counted(
            if local {
                host + " (local)"@
            } else {
                host
            },
            count,
        ),
        seq![connectivity_span(connectivity, theme)],
    )
}

/// The row of a host.
pub fn host_item(
    host: &str,
    local: bool,
    count: usize,
    connectivity: GroupConnectivity,
    expanded: bool,
    columns: &Columns,
    theme: Theme,
) -> (r: TableRow)
    ensures
        r@ == host_row(host@, local, count, connectivity, expanded, *columns, theme),
{
    let mark: &str = if expanded { "▾ " } else { "▸ " };
    let mut name: String = host.to_owned();
    if local {
        name.append(" (local)");
    }
    let mut state: Vec<StyledSpan> = Vec::new();
    state.push(connectivity_label(connectivity, theme));
    assert(span_views(state@) =~= seq![connectivity_span(connectivity, theme)]);
    head(columns, theme, mark, with_count(name.as_str(), count).as_str(), state)
}

/// The row of a directory.
pub open spec fn group_row(
    cwd: Seq<char>,
    count: usize,
    expanded: bool,
    columns: Columns,
    theme: Theme,
    home: Option<Seq<char>>,
) -> TableRowView {
    head_row(
        columns,
        theme,
        "  "@ + fold_mark(expanded),
        counted(compacted(cwd, home), count),
        Seq::empty(),
    )
}

/// The row of a directory.
pub fn group_item(
    cwd: &str,
    count: usize,
    expanded: bool,
    columns: &Columns,
    theme: Theme,
    home: &Option<String>,
) -> (r: TableRow)
    ensures
        r@ == group_row(cwd@, count, expanded, *columns, theme, text_of(*home)),
{
    let mut mark: String = "  ".to_owned();
    mark.append(if expanded { "▾ " } else { "▸ " });
    let name: String = compact_home(cwd, home);
    let none: Vec<StyledSpan> = Vec::new();
    assert(span_views(none@) =~= Seq::<SpanView>::empty());
    head(columns, theme, mark.as_str(), with_count(name.as_str(), count).as_str(), none)
}

/// The mark of a session that works, which turns with time.
pub open spec fn pulse_mark(millis: u64) -> Seq<char> {
    let frame = millis / 250 % 4;
    if frame == 0 {
        "◐"@
    } else if frame == 1 {
        "◓"@
    } else if frame == 2 {
        "◑"@
    } else {
        "◒"@
    }
}

/// The colour of a session that works, which changes with time.
pub open spec fn pulse_color(millis: u64, theme: Theme) -> Color {
    let frame = millis / 250 % 4;
    if frame == 1 {
        theme.colors().aqua
    } else if frame == 3 {
        theme.colors().blue
    } else {
        theme.colors().green
    }
}

/// The mark and the colour of a session that works.
pub fn working_pulse(millis: u64, theme: Theme) -> (r: (&'static str, Color))
    ensures
        r.0@ == pulse_mark(millis),
        r.1 == pulse_color(millis, theme),
{
    let frame: u64 = millis / 250 % 4;
    if frame == 0 {
        ("◐", theme.palette().green)
    } else if frame == 1 {
        ("◓", theme.palette().aqua)
    } else if frame == 2 {
        ("◑", theme.palette().green)
    } else {
        ("◒", theme.palette().blue)
    }
}

/// The mark of an activity.
pub open spec fn activity_mark(activity: Activity, millis: u64) -> Seq<char> {
    match activity {
        Activity::Working => pulse_mark(millis),
        Activity::WaitingApproval => "◆"@,
        Activity::WaitingInput => "◆"@,
        Activity::Completed => "✓"@,
        Activity::Failed => "!"@,
        Activity::Unknown => "○"@,
    }
}

/// How an activity is shown.
pub open spec fn activity_look(activity: Activity, millis: u64, theme: Theme) -> TextStyle {
    match activity {
        Activity::Working => coloured(pulse_color(millis, theme)),
        Activity::WaitingApproval => coloured(theme.colors().yellow),
        Activity::WaitingInput => coloured(theme.colors().yellow),
        Activity::Completed => theme.muted(),
        Activity::Failed => coloured(theme.colors().red),
        Activity::Unknown => theme.muted(),
    }
}

/// The mark, the style and the word of an activity.
pub fn activity_style(activity: Activity, millis: u64, theme: Theme) -> (r: (
    &'static str,
    TextStyle,
    &'static str,
))
    ensures
        r.0@ == activity_mark(activity, millis),
        r.1 == activity_look(activity, millis, theme),
        r.2@ == activity_word(activity),
{
    match activity {
        Activity::Working => {
            let (mark, color): (&'static str, Color) = working_pulse(millis, theme);
            (mark, TextStyle::fg(color), "working")
        },
        Activity::WaitingApproval => ("◆", TextStyle::fg(theme.palette().yellow), "approval"),
        Activity::WaitingInput => ("◆", TextStyle::fg(theme.palette().yellow), "input"),
        Activity::Completed => ("✓", theme.muted_style(), "completed"),
        Activity::Failed => ("!", TextStyle::fg(theme.palette().red), "failed"),
        Activity::Unknown => ("○", theme.muted_style(), "unknown"),
    }
}

/// The state of a session, as far as this run has heard of it.
pub open spec fn state_word(session: Session, fresh: bool) -> Seq<char> {
    if fresh {
        activity_word(session.activity)
    } else {
        "cached"@
    }
}

/// How the state of a session is shown.
pub open spec fn state_look(session: Session, fresh: bool, millis: u64, theme: Theme) ->
    TextStyle {
    if fresh {
        activity_look(session.activity, millis, theme)
    } else {
        theme.muted()
    }
}

/// The state of a session, as far as this run has heard of it.
pub fn session_state(session: &Session, fresh: bool, millis: u64, theme: Theme) -> (r: (
    &'static str,
    TextStyle,
    &'static str,
))
    ensures
        r.0@ == (if fresh {
            activity_mark(session.activity, millis)
        } else {
            "◌"@
        }),
        r.1 == state_look(*session, fresh, millis, theme),
        r.2@ == state_word(*session, fresh),
{
    if fresh {
        activity_style(session.activity, millis, theme)
    } else {
        ("◌", theme.muted_style(), "cached")
    }
}

/// The row of a session: an unread one is marked as such, whatever it does.
pub open spec fn session_row(
    session: Session,
    fresh: bool,
    unread: bool,
    columns: Columns,
    theme: Theme,
    now: u64,
    millis: u64,
) -> TableRowView {
    let mark = if unread {
        "•"@
    } else if fresh {
        activity_mark(session.activity, millis)
    } else {
        "◌"@
    };
    let style = if unread {
        coloured(theme.colors().yellow)
    } else {
        state_look(session, fresh, millis, theme)
    };
    let prefix = "    "@ + mark + " "@;
    let title = columns.title_cell(prefix, session.title@, plain_style());
    TableRowView {
        cells: columns.row_cells(
            theme,
            seq![span_of(prefix, style), title[1]],
            session.agent.name(),
            seq![span_of(state_word(session, fresh), style)],
            short_age(session.last_interaction_unix_seconds, now),
            session.last_message@,
        ),
        style: plain_style(),
    }
}

/// The row of a session.
pub fn session_item(
    session: &Session,
    fresh: bool,
    unread: bool,
    columns: &Columns,
    theme: Theme,
    now: u64,
    millis: u64,
) -> (r: TableRow)
    ensures
        r@ == session_row(*session, fresh, unread, *columns, theme, now, millis),
{
    let (own_mark, own_style, word): (&'static str, TextStyle, &'static str) = session_state(
        session,
        fresh,
        millis,
        theme,
    );
    let mark: &str = if unread { "•" } else { own_mark };
    let style: TextStyle = if unread {
        TextStyle::fg(theme.palette().yellow)
    } else {
        own_style
    };
    let mut prefix: String = "    ".to_owned();
    prefix.append(mark);
    prefix.append(" ");
    let mut title: Vec<StyledSpan> = columns.title_spans(
        prefix.as_str(),
        session.title.as_str(),
        TextStyle::plain(),
    );
    let ghost cell = span_views(title@);
    assert(cell[1] == title@[1]@);
    title.set(0, styled(prefix.as_str(), style));
    assert(span_views(title@) =~= seq![span_of(prefix@, style), cell[1]]);
    TableRow {
        cells: columns.row(
            theme,
            title,
            session.agent.as_str(),
            single(word, style),
            format_age(session.last_interaction_unix_seconds, now).as_str(),
            session.last_message.as_str(),
        ),
        style: TextStyle::plain(),
    }
}

impl PickerView {
    /// A row of the dashboard as a row of the table.
    pub open spec fn table_row(
        self,
        row: DashboardRow,
        columns: Columns,
        theme: Theme,
        clock: Clock,
        millis: u64,
    ) -> TableRowView {
        match row {
            DashboardRow::Section { section, count, expanded } => section_row(
                section,
                count,
                expanded,
                columns,
                theme,
            ),
            DashboardRow::Host { host, count, fresh, expanded, .. } => host_row(
                host@,
                host@ == self.local_hostname,
                count,
                self.connectivity(host@, fresh, clock.monotonic_millis),
                expanded,
                columns,
                theme,
            ),
            DashboardRow::Group { cwd, count, expanded, .. } => group_row(
                cwd@,
                count,
                expanded,
                columns,
                theme,
                self.home,
            ),
            DashboardRow::Session(session_ref) => {
                let session = self.session_of(session_ref);
                session_row(
                    session,
                    self.fresh_ids.contains(session.id@),
                    self.is_unread(session),
                    columns,
                    theme,
                    clock.unix_seconds,
                    millis,
                )
            },
        }
    }
}

impl PickerApp {
    fn table_row(
        &self,
        row: &DashboardRow,
        columns: &Columns,
        theme: Theme,
        clock: Clock,
        millis: u64,
    ) -> (r: TableRow)
        requires
            *row is Session ==> self@.has_ref(row->Session_0),
        ensures
            r@ == self@.table_row(*row, *columns, theme, clock, millis),
    {
        match row {
            DashboardRow::Section { section, count, expanded } => section_item(
                *section,
                *count,
                *expanded,
                columns,
                theme,
            ),
            DashboardRow::Host { host, count, fresh, expanded, .. } => host_item(
                host.as_str(),
                same(host.as_str(), self.local_hostname.as_str()),
                *count,
                self.group_connectivity(host.as_str(), *fresh, clock.monotonic_millis),
                *expanded,
                columns,
                theme,
            ),
            DashboardRow::Group { cwd, count, expanded, .. } => group_item(
                cwd.as_str(),
                *count,
                *expanded,
                columns,
                theme,
                &self.home,
            ),
            DashboardRow::Session(session_ref) => {
                let session: &Session = self.session_for_ref(*session_ref);
                session_item(
                    session,
                    self.fresh_ids.contains(session.id.as_str()),
                    self.unread_ids.contains(session.id.as_str()),
                    columns,
                    theme,
                    clock.unix_seconds,
                    millis,
                )
            },
        }
    }

    /// The rows of the table. The mark of a session that works turns with the milliseconds.
    pub fn table_rows(&self, columns: &Columns, theme: Theme, clock: Clock, millis: u64) -> (r: Vec<
        TableRow,
    >)
        requires
            self@.wf(),
        ensures
            table_row_views(r@) == self@.rows.map_values(
                |row: DashboardRow| self@.table_row(row, *columns, theme, clock, millis),
            ),
    {
        let ghost v = self@;
        let mut r: Vec<TableRow> = Vec::new();
        let mut i: usize = 0;
        while i < self.rows.len()
            invariant
                v == self@,
                v.wf(),
                i <= self.rows@.len(),
                r@.len() == i,
                forall|j: int|
                    0 <= j < i ==> (#[trigger] r@[j])@ == v.table_row(
                        v.rows[j],
                        *columns,
                        theme,
                        clock,
                        millis,
                    ),
            decreases self.rows@.len() - i,
        {
            assert(v.rows[i as int] == self.rows@[i as int]);
            r.push(self.table_row(&self.rows[i], columns, theme, clock, millis));
            i += 1;
        }
        assert(table_row_views(r@) =~= self@.rows.map_values(
            |row: DashboardRow| self@.table_row(row, *columns, theme, clock, millis),
        ));
        r
    }
}

// ---- laws ----

/// The columns fit the screen, with two cells between each two and two for the mark of the
/// cursor, and no column is wider than what the screen leaves it.
pub proof fn columns_fit_the_screen(screen: u16)
    requires
        screen >= 2,
    ensures
        ({
            let columns = columns_for(screen);
            let between = 2 * (columns.shown_widths().len() - 1);
            &&& columns.title + (if columns.harness {
                7int
            } else {
                0
            }) + (if columns.state {
                10int
            } else {
                0
            }) + (if columns.age {
                7int
            } else {
                0
            }) + columns.message + between <= screen - 2
        }),
{
}

/// Every row of the table has a cell for every column that is shown.
pub proof fn rows_have_a_cell_for_every_column(
    columns: Columns,
    theme: Theme,
    title: Seq<SpanView>,
    harness: Seq<char>,
    state: Seq<SpanView>,
    age: Seq<char>,
    message: Seq<char>,
)
    ensures
        columns.row_cells(theme, title, harness, state, age, message).len()
            == columns.shown_widths().len(),
{
}

/// What is fitted is the text, or ends in an ellipsis and holds only what stays below the
/// width.
pub proof fn fitted_text_stays_below_the_width(clean: Seq<char>, widths: Seq<usize>, width: usize)
    requires
        widths.len() == clean.len() + 1,
        widths.last() > width,
        width > 0,
        widths[0] < width,
    ensures
        ({
            let n = fitting(widths, width, 0);
            &&& n <= clean.len()
            &&& fitted(clean, widths, width) == clean.take(n as int).push('\u{2026}')
            &&& widths[n as int] < width
        }),
{
    lemma_fitting(widths, width, 0);
}

proof fn lemma_fitting(widths: Seq<usize>, width: usize, k: nat)
    requires
        k < widths.len(),
        widths[k as int] < width,
    ensures
        fitting(widths, width, k) < widths.len(),
        widths[fitting(widths, width, k) as int] < width,
    decreases widths.len() - k,
{
    if k + 1 < widths.len() && widths[k as int + 1] < width {
        lemma_fitting(widths, width, k + 1);
    }
}

} // verus!
