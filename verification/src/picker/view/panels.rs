//! What stands above and below the table.

use vstd::prelude::*;

use crate::domain::{RuntimeOwner, Session};
use crate::picker::dashboard::{capped, SectionCounts};
use crate::picker::{Clock, DashboardSection, InputMode, PickerApp, PickerView, ALL_HOSTS};
use crate::style::{
    coloured, emboldened, line_views, plain_style, raw, raw_of, span_of, span_views, styled,
    SpanView, StyledSpan, TextStyle,
};
use crate::table::{padding, push_spaces};
use crate::text::{
    byte_count, decimal, decimal_of, lemma_utf8_len_bound, lowercase_text, same, utf8_len,
};

use super::rows::{session_state, state_look, state_word};
use super::text::{
    compact_home, compacted, format_age, short_age, shortened, truncate_with_ellipsis,
};
use super::theme::Theme;

verus! {

/// A piece of text with a count.
pub open spec fn count_text(before: Seq<char>, n: nat, after: Seq<char>) -> Seq<char> {
    before + decimal(n) + after
}

fn with_number(before: &str, n: usize, after: &str) -> (r: String)
    ensures
        r@ == count_text(before@, n as nat, after@),
{
    let mut r: String = before.to_owned();
    r.append(decimal_of(n as u64).as_str());
    r.append(after);
    r
}

impl PickerView {
    /// What a part of the inventory counts of what is shown.
    pub open spec fn shown_count(self, section: DashboardSection, now: u64) -> nat {
        capped(self.section_count(section, lowercase_text(self.query), now)) as nat
    }

    /// The first line above the table: how many sessions are current, were used within a day
    /// and within a week, and are archived.
    pub open spec fn header_title(self, theme: Theme, now: u64) -> Seq<SpanView> {
        seq![
            span_of(" Rollcall "@, emboldened(plain_style())),
            span_of(
                count_text(
                    " Currently active "@,
                    self.shown_count(DashboardSection::Current, now),
                    " "@,
                ),
                emboldened(coloured(theme.colors().green)),
            ),
            span_of(
                count_text(" 24h "@, self.shown_count(DashboardSection::LastDay, now), " "@),
                theme.muted(),
            ),
            span_of(
                count_text(" 7d "@, self.shown_count(DashboardSection::LastWeek, now), " "@),
                theme.muted(),
            ),
            span_of(
                count_text(
                    " Archive "@,
                    self.shown_count(DashboardSection::Archive, now),
                    " "@,
                ),
                theme.muted(),
            ),
            span_of(
                "  "@ + if self.host_filter == ALL_HOSTS@ {
                    "all hosts"@
                } else {
                    self.host_filter
                },
                theme.muted(),
            ),
        ]
    }

    /// The second line above the table: how many hosts are online, checked and down, how many
    /// sessions are unread, and what is searched for.
    pub open spec fn header_subtitle(self, theme: Theme) -> Seq<SpanView> {
        let palette = theme.colors();
        seq![
            span_of(
                count_text("Hosts: "@, self.reachable_hosts.len(), " online"@),
                coloured(palette.green),
            ),
        ] + (if self.pending_hosts == Set::<Seq<char>>::empty() {
            Seq::empty()
        } else {
            seq![
                raw_of(" · "@),
                span_of(
                    decimal(self.pending_hosts.len()) + " checking"@,
                    coloured(palette.yellow),
                ),
            ]
        }) + seq![
            raw_of(" · "@),
            span_of(
                decimal(self.host_errors.dom().len()) + " down"@,
                if self.host_errors == Map::<Seq<char>, String>::empty() {
                    theme.muted()
                } else {
                    coloured(palette.red)
                },
            ),
        ] + (if self.unread_ids == Set::<Seq<char>>::empty() {
            Seq::empty()
        } else {
            seq![
                raw_of(" · "@),
                span_of(
                    decimal(self.unread_ids.len()) + " unread"@,
                    emboldened(coloured(palette.yellow)),
                ),
            ]
        }) + (if self.input_mode is Search || self.query.len() > 0 {
            seq![
                raw_of("    "@),
                span_of("/"@ + self.query, emboldened(coloured(palette.blue))),
                span_of(
                    count_text(" · "@, self.visible_sessions(), " shown"@),
                    theme.muted(),
                ),
            ]
        } else {
            Seq::empty()
        })
    }
}

impl PickerApp {
    /// The first line above the table.
    pub fn header_title(&self, theme: Theme, clock: Clock) -> (r: Vec<StyledSpan>)
        ensures
            span_views(r@) == self@.header_title(theme, clock.unix_seconds),
    {
        let counts: SectionCounts = self.section_counts(clock.unix_seconds);
        let muted: TextStyle = theme.muted_style();
        let mut filter: String = "  ".to_owned();
        if same(self.host_filter.as_str(), ALL_HOSTS) {
            filter.append("all hosts");
        } else {
            filter.append(self.host_filter.as_str());
        }
        let current: usize = counts.get(DashboardSection::Current);
        let day: usize = counts.get(DashboardSection::LastDay);
        let week: usize = counts.get(DashboardSection::LastWeek);
        let archive: usize = counts.get(DashboardSection::Archive);
        let mut r: Vec<StyledSpan> = Vec::new();
        r.push(styled(" Rollcall ", TextStyle::plain().bold()));
        r.push(
            styled(
                with_number(" Currently active ", current, " ").as_str(),
                TextStyle::fg(theme.palette().green).bold(),
            ),
        );
        r.push(styled(with_number(" 24h ", day, " ").as_str(), muted));
        r.push(styled(with_number(" 7d ", week, " ").as_str(), muted));
        r.push(styled(with_number(" Archive ", archive, " ").as_str(), muted));
        r.push(styled(filter.as_str(), muted));
        assert(span_views(r@) =~= self@.header_title(theme, clock.unix_seconds));
        r
    }

    /// The second line above the table.
    pub fn header_subtitle(&self, theme: Theme) -> (r: Vec<StyledSpan>)
        ensures
            span_views(r@) == self@.header_subtitle(theme),
    {
        let green: TextStyle = TextStyle::fg(theme.palette().green);
        let yellow: TextStyle = TextStyle::fg(theme.palette().yellow);
        let blue: TextStyle = TextStyle::fg(theme.palette().blue);
        let mut r: Vec<StyledSpan> = Vec::new();
        proof {
            reveal_strlit("");
            assert(""@ =~= Seq::<char>::empty());
            assert forall|n: nat, after: Seq<char>| #[trigger]
                count_text(""@, n, after) == decimal(n) + after by {
                assert(count_text(""@, n, after) =~= decimal(n) + after);
            }
        }
        r.push(
            styled(with_number("Hosts: ", self.reachable_hosts.len(), " online").as_str(), green),
        );
        if !self.pending_hosts.is_empty() {
            r.push(raw(" · "));
            r.push(
                styled(with_number("", self.pending_hosts.len(), " checking").as_str(), yellow),
            );
        }
        r.push(raw(" · "));
        let down: TextStyle = if self.host_errors.is_empty() {
            theme.muted_style()
        } else {
            TextStyle::fg(theme.palette().red)
        };
        r.push(styled(with_number("", self.host_errors.len(), " down").as_str(), down));
        if !self.unread_ids.is_empty() {
            r.push(raw(" · "));
            r.push(
                styled(
                    with_number("", self.unread_ids.len(), " unread").as_str(),
                    yellow.bold(),
                ),
            );
        }
        if self.input_mode == InputMode::Search || !self.query.as_str().is_empty() {
            let mut query: String = "/".to_owned();
            query.append(self.query.as_str());
            r.push(raw("    "));
            r.push(styled(query.as_str(), blue.bold()));
            r.push(
                styled(
                    with_number(" · ", self.visible_session_count(), " shown").as_str(),
                    theme.muted_style(),
                ),
            );
        }
        assert(span_views(r@) =~= self@.header_subtitle(theme));
        r
    }
}

// ---- the selected session ----

/// Who owns a session.
pub open spec fn owner_text(session: Session) -> Seq<char> {
    match session.runtime {
        RuntimeOwner::TmuxFrontend => match session.tmux {
            Some(binding) => "tmux "@ + binding.session@,
            None => "tmux"@,
        },
        RuntimeOwner::SharedBackend => "Rollcall backend"@,
        RuntimeOwner::ExternalFrontend => "external frontend"@,
        RuntimeOwner::Resumable => "resumable"@,
    }
}

fn owner_of(session: &Session) -> (r: String)
    ensures
        r@ == owner_text(*session),
{
    match session.runtime {
        RuntimeOwner::TmuxFrontend => match &session.tmux {
            Some(binding) => {
                let mut r: String = "tmux ".to_owned();
                r.append(binding.session.as_str());
                r
            },
            None => "tmux".to_owned(),
        },
        RuntimeOwner::SharedBackend => "Rollcall backend".to_owned(),
        RuntimeOwner::ExternalFrontend => "external frontend".to_owned(),
        RuntimeOwner::Resumable => "resumable".to_owned(),
    }
}

/// What is said of a session below its title.
pub open spec fn metadata_text(session: Session, unread: bool, home: Option<Seq<char>>, now: u64) ->
    Seq<char> {
    compacted(session.cwd@, home) + " / "@ + session.host@ + " · "@ + short_age(
        session.last_interaction_unix_seconds,
        now,
    ) + " · "@ + owner_text(session) + " · "@ + session.native_session_id@ + if unread {
        " · unread"@
    } else {
        ""@
    }
}

/// The width that is left for the title beside the state.
pub open spec fn title_room(width: usize, word: Seq<char>) -> nat {
    if width > utf8_len(word) + 3 {
        (width - (utf8_len(word) + 3)) as nat
    } else {
        0
    }
}

impl PickerView {
    /// The details of the session under the cursor, in lines of at most so many characters.
    pub open spec fn detail_lines(
        self,
        theme: Theme,
        screen: u16,
        clock: Clock,
        millis: u64,
    ) -> Seq<Seq<SpanView>> {
        match self.chosen_session() {
            None => Seq::empty(),
            Some(session) => {
                let fresh = self.fresh_ids.contains(session.id@);
                let word = state_word(session, fresh);
                let width: usize = if screen > 2 {
                    (screen - 2) as usize
                } else {
                    0
                };
                let message = if session.last_message@.len() == 0 {
                    "No cached agent response yet."@
                } else {
                    session.last_message@
                };
                seq![
                    seq![
                        span_of(
                            word + padding(word, 9),
                            emboldened(state_look(session, fresh, millis, theme)),
                        ),
                        span_of(
                            shortened(session.title@, title_room(width, word)),
                            emboldened(plain_style()),
                        ),
                    ],
                    seq![
                        span_of(
                            shortened(message, width as nat),
                            coloured(theme.colors().text),
                        ),
                    ],
                    seq![
                        span_of(
                            shortened(
                                metadata_text(
                                    session,
                                    self.is_unread(session),
                                    self.home,
                                    clock.unix_seconds,
                                ),
                                width as nat,
                            ),
                            theme.muted(),
                        ),
                    ],
                ]
            },
        }
    }
}

fn room_for_title(width: usize, word: &str) -> (r: usize)
    ensures
        r == title_room(width, word@),
{
    proof {
        lemma_utf8_len_bound(word@);
    }
    let bytes: u128 = byte_count(word);
    if bytes < width as u128 && bytes + 3 < width as u128 {
        width - (bytes as usize + 3)
    } else {
        0
    }
}

impl PickerApp {
    fn metadata_of(&self, session: &Session, clock: Clock) -> (r: String)
        ensures
            r@ == metadata_text(
                *session,
                self@.is_unread(*session),
                self@.home,
                clock.unix_seconds,
            ),
    {
        let mut r: String = compact_home(session.cwd.as_str(), &self.home);
        r.append(" / ");
        r.append(session.host.as_str());
        r.append(" · ");
        r.append(format_age(session.last_interaction_unix_seconds, clock.unix_seconds).as_str());
        r.append(" · ");
        r.append(owner_of(session).as_str());
        r.append(" · ");
        r.append(session.native_session_id.as_str());
        proof {
            reveal_strlit("");
            assert(r@ + ""@ =~= r@);
        }
        if self.unread_ids.contains(session.id.as_str()) {
            r.append(" · unread");
        }
        r
    }

    /// The details of the session under the cursor, in lines of at most so many characters.
    pub fn detail_lines(&self, theme: Theme, screen: u16, clock: Clock, millis: u64) -> (r: Vec<
        Vec<StyledSpan>,
    >)
        requires
            self@.wf(),
        ensures
            line_views(r@) == self@.detail_lines(theme, screen, clock, millis),
    {
        let mut r: Vec<Vec<StyledSpan>> = Vec::new();
        let session: &Session = match self.selected_session() {
            Some(session) => session,
            None => {
                assert(line_views(r@) =~= Seq::<Seq<SpanView>>::empty());
                return r;
            },
        };
        let fresh: bool = self.fresh_ids.contains(session.id.as_str());
        let (_mark, style, word): (&'static str, TextStyle, &'static str) = session_state(
            session,
            fresh,
            millis,
            theme,
        );
        let width: usize = if screen > 2 { screen as usize - 2 } else { 0 };
        let mut state: String = word.to_owned();
        push_spaces(&mut state, word, 9);
        let title: String = truncate_with_ellipsis(
            session.title.as_str(),
            room_for_title(width, word),
        );
        let message: &str = if session.last_message.as_str().is_empty() {
            "No cached agent response yet."
        } else {
            session.last_message.as_str()
        };
        let mut first: Vec<StyledSpan> = Vec::new();
        first.push(styled(state.as_str(), style.bold()));
        first.push(styled(title.as_str(), TextStyle::plain().bold()));
        let mut second: Vec<StyledSpan> = Vec::new();
        second.push(
            styled(
                truncate_with_ellipsis(message, width).as_str(),
                TextStyle::fg(theme.palette().text),
            ),
        );
        let mut third: Vec<StyledSpan> = Vec::new();
        third.push(
            styled(
                truncate_with_ellipsis(self.metadata_of(session, clock).as_str(), width).as_str(),
                theme.muted_style(),
            ),
        );
        proof {
            let goal = self@.detail_lines(theme, screen, clock, millis);
            assert(span_views(first@) =~= goal[0]);
            assert(span_views(second@) =~= goal[1]);
            assert(span_views(third@) =~= goal[2]);
        }
        r.push(first);
        r.push(second);
        r.push(third);
        assert(line_views(r@) =~= self@.detail_lines(theme, screen, clock, millis));
        r
    }
}

// ---- the footer ----

/// A key and what it does, as the footer names them.
pub open spec fn key_hint(key: Seq<char>, text: Seq<char>, theme: Theme) -> Seq<SpanView> {
    seq![span_of(key, coloured(theme.colors().blue)), raw_of(text)]
}

fn push_hint(line: &mut Vec<StyledSpan>, key: &str, text: &str, theme: Theme)
    ensures
        span_views(final(line)@) == span_views(old(line)@) + key_hint(key@, text@, theme),
{
    let ghost before = span_views(line@);
    line.push(styled(key, TextStyle::fg(theme.palette().blue)));
    line.push(raw(text));
    assert(span_views(line@) =~= before + key_hint(key@, text@, theme));
}

/// The word for what settling does to a session.
pub open spec fn settle_word(archived: Option<bool>) -> Seq<char> {
    match archived {
        Some(true) => " restore  "@,
        Some(false) => " settle  "@,
        None => " settle/restore  "@,
    }
}

impl PickerView {
    /// The hints while browsing.
    pub open spec fn browse_hints(self, theme: Theme) -> Seq<SpanView> {
        let archived = match self.chosen_session() {
            Some(session) => self.archived_state(session.id@),
            None => None,
        };
        match archived {
            Some(archived) => key_hint(
                "↵"@,
                if archived {
                    " restore+open  "@
                } else {
                    " open  "@
                },
                theme,
            ) + key_hint("a"@, settle_word(Some(archived)), theme) + key_hint(
                "x"@,
                " read  "@,
                theme,
            ) + key_hint("tab"@, " collapse group  "@, theme) + key_hint(
                "/"@,
                " search  "@,
                theme,
            ) + key_hint("?"@, " keys"@, theme),
            None => key_hint("↵/space/tab"@, " toggle row  "@, theme) + key_hint(
                "/"@,
                " search  "@,
                theme,
            ) + key_hint("?"@, " keys"@, theme),
        }
    }

    /// The line below the table. A notice comes before a status, and a status before hints.
    pub open spec fn footer(self, theme: Theme) -> Seq<SpanView> {
        match self.input_mode {
            InputMode::Browse => match (self.notice, self.status) {
                (Some(notice), _) => seq![
                    span_of(notice.0, emboldened(coloured(theme.colors().green))),
                ],
                (None, Some(status)) => seq![span_of(status, coloured(theme.colors().yellow))],
                (None, None) => self.browse_hints(theme),
            },
            InputMode::Search => seq![raw_of("type to filter  "@)] + key_hint(
                "ctrl-u"@,
                " clear  "@,
                theme,
            ) + key_hint("enter/esc"@, " done"@, theme),
            InputMode::Hosts => key_hint("j/k"@, " move  "@, theme) + key_hint(
                "enter"@,
                " filter  "@,
                theme,
            ) + key_hint("esc"@, " close"@, theme),
            InputMode::Help => key_hint("?/enter/esc"@, " close help"@, theme),
            InputMode::Preview => {
                let archived = match self.preview {
                    Some(preview) => self.archived_state(preview.session_id),
                    None => None,
                };
                key_hint("enter"@, " open  "@, theme) + key_hint(
                    "a"@,
                    settle_word(archived),
                    theme,
                ) + key_hint("x"@, " read  "@, theme) + key_hint("j/k"@, " scroll  "@, theme)
                    + key_hint("esc"@, " close"@, theme)
            },
        }
    }
}

fn settle_hint(archived: Option<bool>) -> (r: &'static str)
    ensures
        r@ == settle_word(archived),
{
    match archived {
        Some(archived) => if archived {
            " restore  "
        } else {
            " settle  "
        },
        None => " settle/restore  ",
    }
}

impl PickerApp {
    fn browse_hints(&self, theme: Theme) -> (r: Vec<StyledSpan>)
        requires
            self@.wf(),
        ensures
            span_views(r@) == self@.browse_hints(theme),
    {
        let archived: Option<bool> = match self.selected_session() {
            Some(session) => self.archived_state_for_session(session.id.as_str()),
            None => None,
        };
        let mut r: Vec<StyledSpan> = Vec::new();
        assert(span_views(r@) =~= Seq::<SpanView>::empty());
        match archived {
            Some(state) => {
                let open: &str = if state { " restore+open  " } else { " open  " };
                push_hint(&mut r, "↵", open, theme);
                push_hint(&mut r, "a", settle_hint(archived), theme);
                push_hint(&mut r, "x", " read  ", theme);
                push_hint(&mut r, "tab", " collapse group  ", theme);
            },
            None => {
                push_hint(&mut r, "↵/space/tab", " toggle row  ", theme);
            },
        }
        push_hint(&mut r, "/", " search  ", theme);
        push_hint(&mut r, "?", " keys", theme);
        assert(span_views(r@) =~= self@.browse_hints(theme));
        r
    }

    /// The line below the table.
    pub fn footer_line(&self, theme: Theme) -> (r: Vec<StyledSpan>)
        requires
            self@.wf(),
        ensures
            span_views(r@) == self@.footer(theme),
    {
        let mut r: Vec<StyledSpan> = Vec::new();
        match self.input_mode {
            InputMode::Browse => {
                if let Some((notice, _shown_at)) = &self.notice {
                    r.push(
                        styled(notice.as_str(), TextStyle::fg(theme.palette().green).bold()),
                    );
                } else if let Some(status) = &self.status {
                    r.push(styled(status.as_str(), TextStyle::fg(theme.palette().yellow)));
                } else {
                    return self.browse_hints(theme);
                }
            },
            InputMode::Search => {
                r.push(raw("type to filter  "));
                push_hint(&mut r, "ctrl-u", " clear  ", theme);
                push_hint(&mut r, "enter/esc", " done", theme);
            },
            InputMode::Hosts => {
                push_hint(&mut r, "j/k", " move  ", theme);
                push_hint(&mut r, "enter", " filter  ", theme);
                push_hint(&mut r, "esc", " close", theme);
            },
            InputMode::Help => {
                push_hint(&mut r, "?/enter/esc", " close help", theme);
            },
            InputMode::Preview => {
                let archived: Option<bool> = match &self.preview {
                    Some(preview) => self.archived_state_for_session(
                        preview.session_id.as_str(),
                    ),
                    None => None,
                };
                push_hint(&mut r, "enter", " open  ", theme);
                push_hint(&mut r, "a", settle_hint(archived), theme);
                push_hint(&mut r, "x", " read  ", theme);
                push_hint(&mut r, "j/k", " scroll  ", theme);
                push_hint(&mut r, "esc", " close", theme);
            },
        }
        assert(span_views(r@) =~= self@.footer(theme));
        r
    }

    /// Whether the details of the session under the cursor are shown: where the user asked for
    /// them and the screen is high enough.
    pub fn details_shown(&self, screen_height: u16) -> (r: bool)
        ensures
            r == (self@.show_details && screen_height >= 20),
    {
        self.show_details && screen_height >= 20
    }
}

// ---- laws ----

/// A notice is shown as long as it lasts, whatever the refresh says, and gives way to the
/// status when it has gone.
pub proof fn a_notice_comes_before_the_status(
    v: PickerView,
    theme: Theme,
    text: Seq<char>,
    shown_at: u64,
    status: Seq<char>,
)
    requires
        v.input_mode is Browse,
    ensures
        ((PickerView {
            notice: Some((text, shown_at)),
            status: Some(status),
            ..v
        }).footer(theme)[0].text == text),
        ((PickerView { notice: None, status: Some(status), ..v }).footer(theme)[0].text == status),
{
}

} // verus!
