//! The normalized session model shared by every adapter.

use vstd::prelude::*;

use crate::text::{chars_of, find, lemma_first_index, lemma_split_first, same, string_of};

verus! {

/// The coding agents whose sessions are tracked.
#[derive(Clone, Copy, Debug, Eq, PartialEq, PartialOrd, Ord, Structural)]
pub enum AgentKind {
    Codex,
    Omp,
    Pi,
    Hermes,
    Agy,
}

impl Default for AgentKind {
    fn default() -> (r: Self)
        ensures
            r == AgentKind::Codex,
    {
        AgentKind::Codex
    }
}

impl AgentKind {
    /// The name under which the agent stands in identifiers.
    pub open spec fn name(self) -> Seq<char> {
        match self {
            AgentKind::Codex => "codex"@,
            AgentKind::Omp => "omp"@,
            AgentKind::Pi => "pi"@,
            AgentKind::Hermes => "hermes"@,
            AgentKind::Agy => "agy"@,
        }
    }

    /// The agent's name.
    pub fn as_str(self) -> (r: &'static str)
        ensures
            r@ == self.name(),
    {
        match self {
            AgentKind::Codex => "codex",
            AgentKind::Omp => "omp",
            AgentKind::Pi => "pi",
            AgentKind::Hermes => "hermes",
            AgentKind::Agy => "agy",
        }
    }

    /// The agent of a name, where there is one.
    pub fn parse(value: &str) -> (r: Option<Self>)
        ensures
            r matches Some(agent) ==> agent.name() == value@,
            r is None ==> forall|kind: AgentKind| (#[trigger] kind.name()) != value@,
    {
        if same(value, "codex") {
            Some(AgentKind::Codex)
        } else if same(value, "omp") {
            Some(AgentKind::Omp)
        } else if same(value, "pi") {
            Some(AgentKind::Pi)
        } else if same(value, "hermes") {
            Some(AgentKind::Hermes)
        } else if same(value, "agy") {
            Some(AgentKind::Agy)
        } else {
            None
        }
    }
}

/// What is in the agents' names.
proof fn lemma_names()
    ensures
        forall|agent: AgentKind| !(#[trigger] agent.name()).contains(':'),
        forall|agent: AgentKind| (#[trigger] agent.name()).len() > 0,
        forall|a: AgentKind, b: AgentKind|
            (#[trigger] a.name()) == (#[trigger] b.name()) ==> a == b,
{
    reveal_strlit("codex");
    reveal_strlit("omp");
    reveal_strlit("pi");
    reveal_strlit("hermes");
    reveal_strlit("agy");
    assert("codex"@[0] == 'c');
    assert("codex"@[1] == 'o');
    assert("omp"@[0] == 'o');
    assert("pi"@[0] == 'p');
    assert("hermes"@[0] == 'h');
    assert("agy"@[0] == 'a');
}

/// Two agents have the same name only where they are the same.
pub proof fn agent_names_are_distinct(a: AgentKind, b: AgentKind)
    ensures
        a.name() == b.name() <==> a == b,
{
    lemma_names();
}

/// What identifies a session across hosts and agents.
#[derive(Debug, Eq, PartialEq)]
pub struct SessionKey {
    pub host: String,
    pub agent: AgentKind,
    pub native_session_id: String,
}

impl Clone for SessionKey {
    fn clone(&self) -> (r: Self)
        ensures
            r == *self,
    {
        SessionKey {
            host: self.host.clone(),
            agent: self.agent,
            native_session_id: self.native_session_id.clone(),
        }
    }
}

/// The stable identifier of a session: `HOST:AGENT:NATIVE_ID`.
pub open spec fn stable_id_text(
    host: Seq<char>,
    agent: AgentKind,
    native_session_id: Seq<char>,
) -> Seq<char> {
    host + seq![':'] + (agent.name() + seq![':'] + native_session_id)
}

/// `value` is the stable identifier of the parts, none of which may be missing: the host
/// is not empty and holds no colon, and the native identifier is not empty.
pub open spec fn is_stable_id(
    value: Seq<char>,
    host: Seq<char>,
    agent: AgentKind,
    native_session_id: Seq<char>,
) -> bool {
    &&& host.len() > 0
    &&& !host.contains(':')
    &&& native_session_id.len() > 0
    &&& value == stable_id_text(host, agent, native_session_id)
}

impl SessionKey {
    /// The text of the key.
    pub open spec fn id(self) -> Seq<char> {
        stable_id_text(self.host@, self.agent, self.native_session_id@)
    }

    /// The stable identifier.
    pub fn stable_id(&self) -> (r: String)
        ensures
            r@ == self.id(),
    {
        let mut r: String = self.host.clone();
        r.push(':');
        r.append(self.agent.as_str());
        r.push(':');
        r.append(self.native_session_id.as_str());
        assert(r@ =~= self.id());
        r
    }

    /// Reads a stable identifier.
    pub fn parse(value: &str) -> (r: Option<Self>)
        ensures
            r matches Some(key) ==> is_stable_id(
                value@,
                key.host@,
                key.agent,
                key.native_session_id@,
            ),
            r is None ==> forall|host: Seq<char>, agent: AgentKind, native: Seq<char>|
                !#[trigger] is_stable_id(value@, host, agent, native),
    {
        let chars: Vec<char> = chars_of(value);
        let first: usize = find(&chars, 0, ':');
        let ghost whole = chars@;
        proof {
            assert(chars@.skip(0) =~= whole);
            lemma_first_index(whole, ':');
            assert forall|host: Seq<char>, agent: AgentKind, native: Seq<char>| #[trigger]
                is_stable_id(value@, host, agent, native) implies first == host.len()
                && whole.take(first as int) == host && whole.skip(first + 1) == agent.name()
                + seq![':'] + native by {
                lemma_split_first(host, ':', agent.name() + seq![':'] + native);
                assert(whole.take(first as int) =~= host);
                assert(whole.skip(first + 1) =~= agent.name() + seq![':'] + native);
            }
        }
        if first == chars.len() {
            proof {
                assert forall|host: Seq<char>, agent: AgentKind, native: Seq<char>| !#[trigger]
                    is_stable_id(value@, host, agent, native) by {
                    if is_stable_id(value@, host, agent, native) {
                        assert(whole[host.len() as int] == ':');
                        assert(whole.contains(':'));
                    }
                }
            }
            return None;
        }
        let second: usize = find(&chars, first + 1, ':');
        let ghost rest = whole.skip(first + 1);
        proof {
            lemma_first_index(rest, ':');
            assert forall|host: Seq<char>, agent: AgentKind, native: Seq<char>| #[trigger]
                is_stable_id(value@, host, agent, native) implies second - first - 1
                == agent.name().len() && second < whole.len() && rest.take(second - first - 1)
                == agent.name() && whole.skip(second + 1) == native by {
                lemma_names();
                lemma_split_first(agent.name(), ':', native);
                assert(rest.take(second - first - 1) =~= agent.name());
                assert(whole.skip(second + 1) =~= native);
            }
        }
        if first == 0 || second >= chars.len() || second + 1 == chars.len() {
            return None;
        }
        let host: String = string_of(&chars, 0, first);
        let agent_name: String = string_of(&chars, first + 1, second);
        let native_session_id: String = string_of(&chars, second + 1, chars.len());
        proof {
            assert(agent_name@ =~= rest.take(second - first - 1));
            assert(native_session_id@ =~= whole.skip(second + 1));
            assert(host@ =~= whole.take(first as int));
        }
        match AgentKind::parse(agent_name.as_str()) {
            None => None,
            Some(agent) => {
                proof {
                    assert(whole =~= stable_id_text(host@, agent, native_session_id@));
                    assert forall|j: int| 0 <= j < host@.len() implies host@[j] != ':' by {
                        assert(whole[j] == host@[j]);
                    }
                }
                Some(SessionKey { host, agent, native_session_id })
            },
        }
    }
}

/// The parts of a stable identifier are determined by it.
pub proof fn stable_ids_are_unambiguous(
    value: Seq<char>,
    host: Seq<char>,
    agent: AgentKind,
    native: Seq<char>,
    other_host: Seq<char>,
    other_agent: AgentKind,
    other_native: Seq<char>,
)
    requires
        is_stable_id(value, host, agent, native),
        is_stable_id(value, other_host, other_agent, other_native),
    ensures
        host == other_host,
        agent == other_agent,
        native == other_native,
{
    lemma_names();
    lemma_split_first(host, ':', agent.name() + seq![':'] + native);
    lemma_split_first(other_host, ':', other_agent.name() + seq![':'] + other_native);
    lemma_split_first(agent.name(), ':', native);
    lemma_split_first(other_agent.name(), ':', other_native);
    assert(host =~= value.take(host.len() as int));
    assert(other_host =~= value.take(host.len() as int));
    let rest = value.skip(host.len() as int + 1);
    assert(rest =~= agent.name() + seq![':'] + native);
    assert(rest =~= other_agent.name() + seq![':'] + other_native);
    assert(agent.name() =~= rest.take(agent.name().len() as int));
    assert(other_agent.name() =~= rest.take(agent.name().len() as int));
    assert(native =~= rest.skip(agent.name().len() as int + 1));
    assert(other_native =~= rest.skip(agent.name().len() as int + 1));
}

/// Every key whose host is a non-empty name without a colon and whose native identifier is
/// not empty is read back from its stable identifier.
pub proof fn stable_ids_round_trip(key: SessionKey)
    requires
        key.host@.len() > 0,
        !key.host@.contains(':'),
        key.native_session_id@.len() > 0,
    ensures
        is_stable_id(key.id(), key.host@, key.agent, key.native_session_id@),
{
}

/// A session as an adapter reports it.
#[derive(Debug, Eq, PartialEq)]
pub struct Session {
    pub id: String,
    pub host: String,
    pub agent: AgentKind,
    pub native_session_id: String,
    pub title: String,
    pub cwd: String,
    pub source: String,
    pub activity: Activity,
    pub last_message: String,
    pub last_interaction_unix_seconds: u64,
    pub updated_unix_seconds: u64,
    pub runtime: RuntimeOwner,
    pub tmux: Option<TmuxBinding>,
}

/// A copy of an optional binding.
pub fn clone_binding(binding: &Option<TmuxBinding>) -> (r: Option<TmuxBinding>)
    ensures
        r == *binding,
{
    match binding {
        Some(binding) => Some(binding.clone()),
        None => None,
    }
}

impl Clone for Session {
    fn clone(&self) -> (r: Self)
        ensures
            r == *self,
    {
        Session {
            id: self.id.clone(),
            host: self.host.clone(),
            agent: self.agent,
            native_session_id: self.native_session_id.clone(),
            title: self.title.clone(),
            cwd: self.cwd.clone(),
            source: self.source.clone(),
            activity: self.activity,
            last_message: self.last_message.clone(),
            last_interaction_unix_seconds: self.last_interaction_unix_seconds,
            updated_unix_seconds: self.updated_unix_seconds,
            runtime: self.runtime,
            tmux: clone_binding(&self.tmux),
        }
    }
}

impl Session {
    /// The key of the session.
    pub fn key(&self) -> (r: SessionKey)
        ensures
            r == (SessionKey {
                host: self.host,
                agent: self.agent,
                native_session_id: self.native_session_id,
            }),
    {
        SessionKey {
            host: self.host.clone(),
            agent: self.agent,
            native_session_id: self.native_session_id.clone(),
        }
    }
}

/// Who owns the native process of a session.
#[derive(Clone, Copy, Debug, Eq, PartialEq, Structural)]
pub enum RuntimeOwner {
    Resumable,
    SharedBackend,
    ExternalFrontend,
    TmuxFrontend,
}

/// What a session is doing.
#[derive(Clone, Copy, Debug, Eq, PartialEq, Structural)]
pub enum Activity {
    Working,
    WaitingApproval,
    WaitingInput,
    Completed,
    Failed,
    Unknown,
}

impl Activity {
    /// A session of this activity may be settled without being asked.
    pub open spec fn settles(self) -> bool {
        self is Completed || self is Unknown
    }

    /// Whether a session of this activity may be settled without being asked.
    pub fn can_auto_settle(self) -> (r: bool)
        ensures
            r == self.settles(),
    {
        match self {
            Activity::Completed | Activity::Unknown => true,
            _ => false,
        }
    }
}

/// What is known of an activity after an observation: a completion always counts, work
/// counts unless the session waits for the user, and nothing else changes it.
pub open spec fn merged_activity(current: Activity, observed: Activity) -> Activity {
    match observed {
        Activity::Completed => Activity::Completed,
        Activity::Working => if current is WaitingApproval || current is WaitingInput {
            current
        } else {
            Activity::Working
        },
        _ => current,
    }
}

/// Merges an observed activity into the current one.
pub fn merge_observed_activity(current: Activity, observed: Activity) -> (r: Activity)
    ensures
        r == merged_activity(current, observed),
{
    match observed {
        Activity::Completed => Activity::Completed,
        Activity::Working => match current {
            Activity::WaitingApproval | Activity::WaitingInput => current,
            _ => Activity::Working,
        },
        _ => current,
    }
}

/// A session that waits for the user keeps waiting until its turn is seen to finish.
pub proof fn attention_survives_until_completion(current: Activity, observed: Activity)
    requires
        current is WaitingApproval || current is WaitingInput,
    ensures
        observed is Completed ==> merged_activity(current, observed) is Completed,
        !(observed is Completed) ==> merged_activity(current, observed) == current,
{
}

/// Merging one observation twice is merging it once.
pub proof fn merging_an_observation_is_idempotent(current: Activity, observed: Activity)
    ensures
        merged_activity(merged_activity(current, observed), observed) == merged_activity(
            current,
            observed,
        ),
{
}

/// The pane in which a session's terminal runs.
#[derive(Debug, Eq, PartialEq)]
pub struct TmuxBinding {
    pub session: String,
    pub pane: String,
}

impl Clone for TmuxBinding {
    fn clone(&self) -> (r: Self)
        ensures
            r == *self,
    {
        TmuxBinding { session: self.session.clone(), pane: self.pane.clone() }
    }
}

/// Whether two bindings name the same pane.
pub fn same_binding(a: &Option<TmuxBinding>, b: &Option<TmuxBinding>) -> (r: bool)
    ensures
        r == binding_eq(*a, *b),
{
    match (a, b) {
        (None, None) => true,
        (Some(a), Some(b)) => same(a.session.as_str(), b.session.as_str()) && same(
            a.pane.as_str(),
            b.pane.as_str(),
        ),
        _ => false,
    }
}

/// Two bindings name the same pane.
pub open spec fn binding_eq(a: Option<TmuxBinding>, b: Option<TmuxBinding>) -> bool {
    match (a, b) {
        (None, None) => true,
        (Some(a), Some(b)) => a.session@ == b.session@ && a.pane@ == b.pane@,
        _ => false,
    }
}

/// What a probe saw of a live session.
#[derive(Debug, Eq, PartialEq)]
pub struct LiveObservation {
    pub activity: Activity,
    pub runtime: RuntimeOwner,
    pub tmux: Option<TmuxBinding>,
}

impl Clone for LiveObservation {
    fn clone(&self) -> (r: Self)
        ensures
            r == *self,
    {
        LiveObservation {
            activity: self.activity,
            runtime: self.runtime,
            tmux: clone_binding(&self.tmux),
        }
    }
}

// ---- contents ----

/// What a binding says.
pub open spec fn binding_view(binding: Option<TmuxBinding>) -> Option<(Seq<char>, Seq<char>)> {
    match binding {
        Some(binding) => Some((binding.session@, binding.pane@)),
        None => None,
    }
}

/// What an observation says.
#[verifier::ext_equal]
pub struct ObservationView {
    pub activity: Activity,
    pub runtime: RuntimeOwner,
    pub tmux: Option<(Seq<char>, Seq<char>)>,
}

impl LiveObservation {
    /// What the observation says.
    pub open spec fn view(self) -> ObservationView {
        ObservationView {
            activity: self.activity,
            runtime: self.runtime,
            tmux: binding_view(self.tmux),
        }
    }
}

/// What observations say, by session.
pub open spec fn observation_views(observations: Map<Seq<char>, LiveObservation>) -> Map<
    Seq<char>,
    ObservationView,
> {
    Map::new(
        |id: Seq<char>| observations.dom().contains(id),
        |id: Seq<char>| observations[id].view(),
    )
}

/// What a session says.
#[verifier::ext_equal]
pub struct SessionView {
    pub id: Seq<char>,
    pub host: Seq<char>,
    pub agent: AgentKind,
    pub native_session_id: Seq<char>,
    pub title: Seq<char>,
    pub cwd: Seq<char>,
    pub source: Seq<char>,
    pub activity: Activity,
    pub last_message: Seq<char>,
    pub last_interaction_unix_seconds: u64,
    pub updated_unix_seconds: u64,
    pub runtime: RuntimeOwner,
    pub tmux: Option<(Seq<char>, Seq<char>)>,
}

impl Session {
    /// What the session says.
    pub open spec fn view(self) -> SessionView {
        SessionView {
            id: self.id@,
            host: self.host@,
            agent: self.agent,
            native_session_id: self.native_session_id@,
            title: self.title@,
            cwd: self.cwd@,
            source: self.source@,
            activity: self.activity,
            last_message: self.last_message@,
            last_interaction_unix_seconds: self.last_interaction_unix_seconds,
            updated_unix_seconds: self.updated_unix_seconds,
            runtime: self.runtime,
            tmux: binding_view(self.tmux),
        }
    }
}

/// What sessions say.
pub open spec fn session_views(sessions: Seq<Session>) -> Seq<SessionView> {
    sessions.map_values(|session: Session| session.view())
}

/// One more session says one thing more.
pub proof fn lemma_session_views_push(sessions: Seq<Session>, session: Session)
    ensures
        session_views(sessions.push(session)) == session_views(sessions).push(session.view()),
{
    assert(session_views(sessions.push(session)) =~= session_views(sessions).push(session.view()));
}

} // verus!
