//! What stands over the table: the help, a preview, and the choice of a host.

use vstd::prelude::*;

use crate::domain::Session;
use crate::picker::{ContentView, PickerApp, PickerView, PreviewContent, ALL_HOSTS};
use crate::reconnect::HostPhase;
use crate::style::{
    coloured, emboldened, plain_style, raw, span_of, span_views, styled, SpanView, StyledSpan,
    TextStyle,
};
use crate::table::{padding, push_spaces};
use crate::text::{decimal, decimal_of, joined, same, texts};

use super::rows::{pulse_mark, working_pulse};
use super::text::{
    preview_window, shortened, truncate_with_ellipsis, window, wrap_preview_body, wrapped_body,
};
use super::theme::Theme;

verus! {

/// The lines of the help.
pub open spec fn help_text() -> Seq<Seq<char>> {
    seq![
        "  j/k or arrows   move"@,
        "  g/G             first / last"@,
        "  enter           attach / resume; toggle selected group/section"@,
        "  space/tab       expand / collapse selected group/section"@,
        "  p               preview pane / response"@,
        "  a               settle / restore"@,
        "  x               mark selected session read"@,
        "  /               search"@,
        "  h               host filter"@,
        "  i               session details"@,
        "  r               refresh now"@,
        "  ?/q/esc         close help"@,
        ""@,
        "  ◐ work   ◆ attention   ✓ done   ! fail"@,
        "  ◌ cached / checking / offline"@,
    ]
}

/// The lines of the help: the one that explains the marks stands out.
pub open spec fn help_spans(theme: Theme) -> Seq<SpanView> {
    Seq::new(
        help_text().len(),
        |i: int|
            span_of(
                help_text()[i],
                if i == 13 {
                    emboldened(coloured(theme.colors().text))
                } else {
                    plain_style()
                },
            ),
    )
}

/// The lines of the help.
pub fn help_lines(theme: Theme) -> (r: Vec<StyledSpan>)
    ensures
        span_views(r@) == help_spans(theme),
{
    let mut r: Vec<StyledSpan> = Vec::new();
    r.push(raw("  j/k or arrows   move"));
    r.push(raw("  g/G             first / last"));
    r.push(raw("  enter           attach / resume; toggle selected group/section"));
    r.push(raw("  space/tab       expand / collapse selected group/section"));
    r.push(raw("  p               preview pane / response"));
    r.push(raw("  a               settle / restore"));
    r.push(raw("  x               mark selected session read"));
    r.push(raw("  /               search"));
    r.push(raw("  h               host filter"));
    r.push(raw("  i               session details"));
    r.push(raw("  r               refresh now"));
    r.push(raw("  ?/q/esc         close help"));
    r.push(raw(""));
    r.push(
        styled(
            "  ◐ work   ◆ attention   ✓ done   ! fail",
            TextStyle::fg(theme.palette().text).bold(),
        ),
    );
    r.push(raw("  ◌ cached / checking / offline"));
    assert(span_views(r@) =~= help_spans(theme));
    r
}

// ---- previews ----

/// What a preview shows.
#[derive(Debug, Eq, PartialEq)]
pub struct PreviewPanel {
    pub title: String,
    pub origin: String,
    pub body: String,
    pub style: TextStyle,
    pub notice: Option<String>,
}

/// Where the text of a preview comes from.
pub open spec fn preview_source(content: ContentView) -> Seq<char> {
    match content {
        ContentView::Loading => "capturing live tmux pane"@,
        ContentView::Ready { source, .. } => source,
        ContentView::Failed { .. } => "cached response · live capture failed"@,
    }
}

/// The text of a preview.
pub open spec fn preview_body(content: ContentView, millis: u64) -> Seq<char> {
    match content {
        ContentView::Loading => pulse_mark(millis) + " Loading preview…"@,
        ContentView::Ready { body, .. } => body,
        ContentView::Failed { error, fallback } => fallback + "\n\nCapture error: "@ + error,
    }
}

/// How the text of a preview is shown.
pub open spec fn preview_style(content: ContentView, theme: Theme) -> TextStyle {
    match content {
        ContentView::Loading => coloured(theme.colors().blue),
        _ => plain_style(),
    }
}

/// At least one.
pub open spec fn at_least_one(n: usize) -> nat {
    if n == 0 {
        1
    } else {
        n as nat
    }
}

impl PickerView {
    /// The panel shows the preview on a screen of the given size.
    pub open spec fn is_preview_panel(
        self,
        panel: PreviewPanel,
        theme: Theme,
        title_width: usize,
        body_width: usize,
        body_height: usize,
        millis: u64,
    ) -> bool {
        &&& self.preview is Some
        &&& {
            let preview = self.preview->0;
            let room: nat = if title_width > 0 {
                (title_width - 1) as nat
            } else {
                0
            };
            &&& panel.title@ == shortened(preview.title, room)
            &&& panel.origin@ == preview.host + " · "@ + preview_source(preview.content)
            &&& panel.body@ == joined(
                window(
                    wrapped_body(
                        preview_body(preview.content, millis),
                        at_least_one(body_width),
                    ),
                    at_least_one(body_height),
                    preview.scroll_from_bottom as nat,
                ),
                "\n"@,
            )
            &&& panel.style == preview_style(preview.content, theme)
            &&& (match panel.notice {
                Some(notice) => Some(notice@),
                None => None,
            }) == preview.notice
        }
    }
}

impl PickerApp {
    /// What the preview shows on a screen of the given size, where there is one.
    pub fn preview_panel(
        &self,
        theme: Theme,
        title_width: usize,
        body_width: usize,
        body_height: usize,
        millis: u64,
    ) -> (r: Option<PreviewPanel>)
        ensures
            r is Some <==> self@.preview is Some,
            r matches Some(panel) ==> self@.is_preview_panel(
                panel,
                theme,
                title_width,
                body_width,
                body_height,
                millis,
            ),
    {
        let preview = match &self.preview {
            Some(preview) => preview,
            None => {
                return None;
            },
        };
        let (source, body, style): (&str, String, TextStyle) = match &preview.content {
            PreviewContent::Loading => {
                let mut body: String = working_pulse(millis, theme).0.to_owned();
                body.append(" Loading preview…");
                ("capturing live tmux pane", body, TextStyle::fg(theme.palette().blue))
            },
            PreviewContent::Ready { source, body } => (*source, body.clone(), TextStyle::plain()),
            PreviewContent::Failed { error, fallback } => {
                let mut body: String = fallback.clone();
                body.append("\n\nCapture error: ");
                body.append(error.as_str());
                ("cached response · live capture failed", body, TextStyle::plain())
            },
        };
        let mut origin: String = preview.host.clone();
        origin.append(" · ");
        origin.append(source);
        let room: usize = if title_width > 0 { title_width - 1 } else { 0 };
        let width: usize = if body_width == 0 { 1 } else { body_width };
        let height: usize = if body_height == 0 { 1 } else { body_height };
        let lines: Vec<String> = wrap_preview_body(body.as_str(), width);
        let notice: Option<String> = match &preview.notice {
            Some(notice) => Some(notice.clone()),
            None => None,
        };
        Some(
            PreviewPanel {
                title: truncate_with_ellipsis(preview.title.as_str(), room),
                origin,
                body: preview_window(&lines, height, preview.scroll_from_bottom),
                style,
                notice,
            },
        )
    }
}

// ---- hosts ----

/// How many sessions are on a host.
pub open spec fn sessions_on(sessions: Seq<Session>, host: Seq<char>) -> nat {
    sessions.filter(|session: Session| session.host@ == host).len()
}

fn count_on(sessions: &Vec<Session>, host: &str) -> (r: usize)
    ensures
        r == sessions_on(sessions@, host@),
{
    let ghost keep = |session: Session| session.host@ == host@;
    let mut n: usize = 0;
    let mut i: usize = 0;
    proof {
        reveal(Seq::filter);
        assert(sessions@.take(0).filter(keep) =~= Seq::<Session>::empty());
    }
    while i < sessions.len()
        invariant
            i <= sessions@.len(),
            keep == (|session: Session| session.host@ == host@),
            n == sessions@.take(i as int).filter(keep).len(),
            n <= i,
        decreases sessions@.len() - i,
    {
        proof {
            let session = sessions@[i as int];
            assert(sessions@.take(i + 1) =~= sessions@.take(i as int).push(session));
            sessions@.take(i as int).lemma_filter_push(session, keep);
        }
        if same(sessions[i].host.as_str(), host) {
            n += 1;
        }
        i += 1;
    }
    assert(sessions@.take(i as int) =~= sessions@);
    n
}

impl PickerView {
    /// What is said of the connection to a host in the list.
    pub open spec fn host_state(self, host: Seq<char>) -> Seq<char> {
        match self.target_of(host) {
            None => ""@,
            Some(target) => if !self.reconnect.dom().contains(target) {
                ""@
            } else {
                match self.reconnect[target].phase {
                    HostPhase::Connecting => "  checking"@,
                    HostPhase::Backoff => "  offline"@,
                    HostPhase::Blocked => "  blocked"@,
                    _ => ""@,
                }
            },
        }
    }

    /// A host in the list: how many sessions it has, whether it is the one shown, and what is
    /// known of the connection.
    pub open spec fn host_choice_text(self, host: Seq<char>) -> Seq<char> {
        let everything = host == ALL_HOSTS@;
        let active = if everything {
            self.active.len()
        } else {
            sessions_on(self.active, host)
        };
        let settled = if everything {
            self.settled.len()
        } else {
            sessions_on(self.settled, host)
        };
        host + padding(host, 24) + " "@ + decimal(active) + " active · "@ + decimal(settled)
            + " settled"@ + (if host == self.host_filter {
            "  current"@
        } else {
            ""@
        }) + self.host_state(host)
    }
}

impl PickerApp {
    fn host_state(&self, host: &str) -> (r: &'static str)
        ensures
            r@ == self@.host_state(host@),
    {
        let target: &String = match self.target_for_observed_host(host) {
            Some(target) => target,
            None => {
                return "";
            },
        };
        match self.reconnect.get(target.as_str()) {
            None => "",
            Some(state) => match state.phase() {
                HostPhase::Connecting => "  checking",
                HostPhase::Backoff => "  offline",
                HostPhase::Blocked => "  blocked",
                _ => "",
            },
        }
    }

    /// The list of hosts that can be chosen.
    pub fn host_choice_lines(&self) -> (r: Vec<String>)
        ensures
            texts(r@) == self@.host_choices.map_values(
                |host: Seq<char>| self@.host_choice_text(host),
            ),
    {
        let ghost v = self@;
        let mut r: Vec<String> = Vec::new();
        let mut i: usize = 0;
        while i < self.host_choices.len()
            invariant
                v == self@,
                i <= self.host_choices@.len(),
                r@.len() == i,
                forall|j: int|
                    0 <= j < i ==> (#[trigger] r@[j])@ == v.host_choice_text(
                        self.host_choices@[j]@,
                    ),
            decreases self.host_choices@.len() - i,
        {
            let host: &str = self.host_choices[i].as_str();
            let everything: bool = same(host, ALL_HOSTS);
            let active: usize = if everything {
                self.active.len()
            } else {
                count_on(&self.active, host)
            };
            let settled: usize = if everything {
                self.settled.len()
            } else {
                count_on(&self.settled, host)
            };
            let mut line: String = host.to_owned();
            push_spaces(&mut line, host, 24);
            line.append(" ");
            line.append(decimal_of(active as u64).as_str());
            line.append(" active · ");
            line.append(decimal_of(settled as u64).as_str());
            line.append(" settled");
            line.append(if same(host, self.host_filter.as_str()) { "  current" } else { "" });
            line.append(self.host_state(host));
            r.push(line);
            i += 1;
        }
        assert(texts(r@) =~= self@.host_choices.map_values(
            |host: Seq<char>| self@.host_choice_text(host),
        ));
        r
    }
}

} // verus!
