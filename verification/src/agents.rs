//! The adapters taken together: one inventory, one map of live observations, one way to open.

use vstd::prelude::*;

use crate::codex::{detailed, enrich_session, lemma_observation_insert, CodexError, ReadTurn};
use crate::domain::{
    observation_views, session_views, stable_id_text, AgentKind, LiveObservation, ObservationView,
    Session, SessionKey, SessionView,
};
use crate::keyed::StringMap;
use crate::native::NativeError;
use crate::omp::OmpError;
use crate::recency::{limit_sessions, limited, newest_first, sort_newest_first};
use crate::text::{debug, debug_text, starts_text, texts};
use crate::tmux::observed_host_text;

verus! {

/// Why a coding agent could not be used.
#[derive(Debug, Eq, PartialEq)]
pub enum AgentError {
    InvalidSessionId(String),
    Codex(CodexError),
    Omp(OmpError),
    Native(NativeError),
}

impl AgentError {
    /// What the user is told.
    pub open spec fn text(self) -> Seq<char> {
        match self {
            AgentError::InvalidSessionId(session) => "invalid coding-agent session "@ + debug_text(
                session@,
            ) + "; expected HOST:AGENT:SESSION_ID"@,
            AgentError::Codex(error) => error.text(),
            AgentError::Omp(error) => error.text(),
            AgentError::Native(error) => error.text(),
        }
    }

    /// What the user is told.
    pub fn message(&self) -> (r: String)
        ensures
            r@ == self.text(),
    {
        match self {
            AgentError::InvalidSessionId(session) => {
                let mut r: String = "invalid coding-agent session ".to_owned();
                r.append(debug(session.as_str()).as_str());
                r.append("; expected HOST:AGENT:SESSION_ID");
                r
            },
            AgentError::Codex(error) => error.message(),
            AgentError::Omp(error) => error.message(),
            AgentError::Native(error) => error.message(),
        }
    }
}

impl vstd::std_specs::convert::FromSpecImpl<CodexError> for AgentError {
    open spec fn obeys_from_spec() -> bool {
        true
    }

    open spec fn from_spec(error: CodexError) -> Self {
        AgentError::Codex(error)
    }
}

impl From<CodexError> for AgentError {
    fn from(error: CodexError) -> (r: Self) {
        AgentError::Codex(error)
    }
}

impl vstd::std_specs::convert::FromSpecImpl<OmpError> for AgentError {
    open spec fn obeys_from_spec() -> bool {
        true
    }

    open spec fn from_spec(error: OmpError) -> Self {
        AgentError::Omp(error)
    }
}

impl From<OmpError> for AgentError {
    fn from(error: OmpError) -> (r: Self) {
        AgentError::Omp(error)
    }
}

impl vstd::std_specs::convert::FromSpecImpl<NativeError> for AgentError {
    open spec fn obeys_from_spec() -> bool {
        true
    }

    open spec fn from_spec(error: NativeError) -> Self {
        AgentError::Native(error)
    }
}

impl From<NativeError> for AgentError {
    fn from(error: NativeError) -> (r: Self) {
        AgentError::Native(error)
    }
}

// ---- inventory ----

/// The agents that are probed, in the order in which they are asked.
pub fn native_agents() -> (r: Vec<AgentKind>)
    ensures
        r@ == seq![AgentKind::Pi, AgentKind::Hermes, AgentKind::Agy],
{
    let r: Vec<AgentKind> = vec![AgentKind::Pi, AgentKind::Hermes, AgentKind::Agy];
    assert(r@ =~= seq![AgentKind::Pi, AgentKind::Hermes, AgentKind::Agy]);
    r
}

/// What Codex contributes to an inventory: nothing where it is not installed, and else what
/// its adapter answered.
pub open spec fn codex_answer(
    available: Result<bool, CodexError>,
    answer: Result<Vec<Session>, CodexError>,
) -> Result<Seq<Session>, AgentError> {
    match available {
        Ok(true) => match answer {
            Ok(sessions) => Ok(sessions@),
            Err(error) => Err(AgentError::Codex(error)),
        },
        Ok(false) => Ok(Seq::empty()),
        Err(error) => Err(AgentError::Codex(error)),
    }
}

/// What Oh My Pi contributes to an inventory.
pub open spec fn omp_answer(answer: Result<Vec<Session>, OmpError>) -> Result<
    Seq<Session>,
    AgentError,
> {
    match answer {
        Ok(sessions) => Ok(sessions@),
        Err(error) => Err(AgentError::Omp(error)),
    }
}

/// What a native adapter contributes to an inventory.
pub open spec fn native_answer(answer: Result<Vec<Session>, NativeError>) -> Result<
    Seq<Session>,
    AgentError,
> {
    match answer {
        Ok(sessions) => Ok(sessions@),
        Err(error) => Err(AgentError::Native(error)),
    }
}

/// The results of adapters, with the sessions as a sequence.
pub open spec fn answers(results: Seq<Result<Vec<Session>, AgentError>>) -> Seq<
    Result<Seq<Session>, AgentError>,
> {
    results.map_values(
        |result: Result<Vec<Session>, AgentError>|
            match result {
                Ok(sessions) => Ok(sessions@),
                Err(error) => Err(error),
            },
    )
}

fn of_native(answer: Result<Vec<Session>, NativeError>) -> (r: Result<Vec<Session>, AgentError>)
    ensures
        match r {
            Ok(sessions) => native_answer(answer) == Ok::<Seq<Session>, AgentError>(sessions@),
            Err(error) => native_answer(answer) == Err::<Seq<Session>, AgentError>(error),
        },
{
    match answer {
        Ok(sessions) => Ok(sessions),
        Err(error) => Err(AgentError::Native(error)),
    }
}

/// What the adapters of a host answered, in the order in which they count: Codex, Oh My Pi and
/// the agents that are probed. The answer of Codex counts only where it is installed.
pub fn adapter_results(
    codex_available: Result<bool, CodexError>,
    codex: Result<Vec<Session>, CodexError>,
    omp: Result<Vec<Session>, OmpError>,
    pi: Result<Vec<Session>, NativeError>,
    hermes: Result<Vec<Session>, NativeError>,
    agy: Result<Vec<Session>, NativeError>,
) -> (r: Vec<Result<Vec<Session>, AgentError>>)
    ensures
        answers(r@) == seq![
            codex_answer(codex_available, codex),
            omp_answer(omp),
            native_answer(pi),
            native_answer(hermes),
            native_answer(agy),
        ],
{
    let ghost expected = seq![
        codex_answer(codex_available, codex),
        omp_answer(omp),
        native_answer(pi),
        native_answer(hermes),
        native_answer(agy),
    ];
    let mut r: Vec<Result<Vec<Session>, AgentError>> = Vec::new();
    r.push(
        match codex_available {
            Ok(true) => match codex {
                Ok(sessions) => Ok(sessions),
                Err(error) => Err(AgentError::Codex(error)),
            },
            Ok(false) => Ok(Vec::new()),
            Err(error) => Err(AgentError::Codex(error)),
        },
    );
    r.push(
        match omp {
            Ok(sessions) => Ok(sessions),
            Err(error) => Err(AgentError::Omp(error)),
        },
    );
    r.push(of_native(pi));
    r.push(of_native(hermes));
    r.push(of_native(agy));
    assert(answers(r@)[0] == expected[0]);
    assert(answers(r@) =~= expected);
    r
}

/// The sessions that the adapters found, in the order of the adapters.
pub open spec fn found(results: Seq<Result<Vec<Session>, AgentError>>) -> Seq<Session>
    decreases results.len(),
{
    if results.len() == 0 {
        Seq::empty()
    } else {
        found(results.drop_last()) + match results.last() {
            Ok(sessions) => sessions@,
            Err(_) => Seq::empty(),
        }
    }
}

/// The error of the first adapter that failed.
pub open spec fn first_error(results: Seq<Result<Vec<Session>, AgentError>>) -> Option<AgentError>
    decreases results.len(),
{
    if results.len() == 0 {
        None
    } else {
        match first_error(results.drop_last()) {
            Some(error) => Some(error),
            None => match results.last() {
                Ok(_) => None,
                Err(error) => Some(error),
            },
        }
    }
}

/// The inventory of a host from what its adapters found, the newest session first. An adapter
/// that is not installed finds nothing; where nothing at all was found, a failure counts.
pub fn discover(results: Vec<Result<Vec<Session>, AgentError>>, limit: Option<usize>) -> (r: Result<
    Vec<Session>,
    AgentError,
>)
    ensures
        r is Err <==> found(results@).len() == 0 && first_error(results@) is Some,
        r matches Err(error) ==> Some(error) == first_error(results@),
        r matches Ok(sessions) ==> sessions@ == limited(newest_first(found(results@)), limit),
{
    let ghost all = results@;
    let mut sessions: Vec<Session> = Vec::new();
    let mut failure: Option<AgentError> = None;
    for result in it: results
        invariant
            it.seq() == all,
            sessions@ == found(all.take(it.index())),
            failure == first_error(all.take(it.index())),
    {
        proof {
            assert(all.take(it.index() + 1).drop_last() =~= all.take(it.index()));
            assert(all.take(it.index() + 1).last() == result);
        }
        match result {
            Ok(more) => {
                let mut more: Vec<Session> = more;
                sessions.append(&mut more);
            },
            Err(error) => {
                if failure.is_none() {
                    failure = Some(error);
                }
            },
        }
    }
    assert(all.take(all.len() as int) =~= all);
    if sessions.len() == 0 {
        if let Some(error) = failure {
            return Err(error);
        }
    }
    sort_and_limit_sessions(&mut sessions, limit);
    Ok(sessions)
}

/// Puts the newest session first, whichever adapter found it, and then keeps at most so many.
pub fn sort_and_limit_sessions(sessions: &mut Vec<Session>, limit: Option<usize>)
    ensures
        final(sessions)@ == limited(newest_first(old(sessions)@), limit),
{
    let mut all: Vec<Session> = Vec::new();
    all.append(sessions);
    let mut sorted: Vec<Session> = sort_newest_first(all);
    limit_sessions(&mut sorted, limit);
    *sessions = sorted;
}

/// The sessions after the details of some Codex threads were read.
pub open spec fn enriched(
    sessions: Seq<SessionView>,
    details: Map<Seq<char>, Vec<ReadTurn>>,
) -> Seq<SessionView> {
    sessions.map_values(
        |session: SessionView|
            if session.agent is Codex && details.dom().contains(session.native_session_id) {
                detailed(session, details[session.native_session_id]@)
            } else {
                session
            },
    )
}

/// Some session is one of Codex.
pub open spec fn has_codex(sessions: Seq<SessionView>) -> bool {
    exists|i: int| 0 <= i < sessions.len() && (#[trigger] sessions[i]).agent is Codex
}

/// The sessions of Codex: the only ones whose details are asked for.
pub fn codex_sessions(sessions: &Vec<Session>) -> (r: Vec<Session>)
    ensures
        r@ == sessions@.filter(|session: Session| session.agent is Codex),
        r@.len() > 0 <==> has_codex(session_views(sessions@)),
{
    let ghost keep = |session: Session| session.agent is Codex;
    let ghost views = session_views(sessions@);
    let mut r: Vec<Session> = Vec::new();
    let mut i: usize = 0;
    assert(sessions@.take(0).filter(keep) =~= Seq::<Session>::empty()) by {
        reveal(Seq::filter);
    }
    while i < sessions.len()
        invariant
            i <= sessions@.len(),
            keep == (|session: Session| session.agent is Codex),
            views == session_views(sessions@),
            r@ == sessions@.take(i as int).filter(keep),
            r@.len() > 0 ==> has_codex(views),
            r@.len() == 0 ==> forall|j: int| 0 <= j < i ==> (#[trigger] views[j]).agent !is Codex,
        decreases sessions@.len() - i,
    {
        let session: &Session = &sessions[i];
        proof {
            assert(sessions@.take(i + 1) =~= sessions@.take(i as int).push(*session));
            sessions@.take(i as int).lemma_filter_push(*session, keep);
            assert(views[i as int].agent == session.agent);
        }
        if session.agent == AgentKind::Codex {
            r.push(session.clone());
        }
        i += 1;
    }
    assert(sessions@.take(i as int) =~= sessions@);
    r
}

/// Adds the details of Codex threads that could be read, by native identifier. The other
/// sessions stay as they were. Where the details could not be read at all, every session does;
/// where no session is one of Codex, it does not matter what was read.
pub fn enrich_details(
    sessions: &mut Vec<Session>,
    details: Result<StringMap<Vec<ReadTurn>>, CodexError>,
) -> (r: Result<(), AgentError>)
    ensures
        !has_codex(session_views(old(sessions)@)) ==> r is Ok,
        !has_codex(session_views(old(sessions)@)) ==> final(sessions)@ == old(sessions)@,
        has_codex(session_views(old(sessions)@)) ==> match details {
            Ok(details) => r is Ok && session_views(final(sessions)@) == enriched(
                session_views(old(sessions)@),
                details@,
            ),
            Err(error) => final(sessions)@ == old(sessions)@ && r == Err::<(), AgentError>(
                AgentError::Codex(error),
            ),
        },
{
    if codex_sessions(sessions).len() == 0 {
        return Ok(());
    }
    match details {
        Ok(details) => {
            add_details(sessions, &details);
            Ok(())
        },
        Err(error) => Err(AgentError::Codex(error)),
    }
}

fn add_details(sessions: &mut Vec<Session>, details: &StringMap<Vec<ReadTurn>>)
    ensures
        session_views(final(sessions)@) == enriched(session_views(old(sessions)@), details@),
{
    let ghost before = sessions@;
    let mut i: usize = 0;
    while i < sessions.len()
        invariant
            i <= before.len(),
            sessions@.len() == before.len(),
            forall|j: int| i <= j < before.len() ==> sessions@[j] == before[j],
            forall|j: int|
                0 <= j < i ==> (#[trigger] sessions@[j]).view() == enriched(
                    session_views(before),
                    details@,
                )[j],
        decreases before.len() - i,
    {
        let mut session: Session = sessions[i].clone();
        if session.agent == AgentKind::Codex {
            if let Some(turns) = details.get(session.native_session_id.as_str()) {
                enrich_session(&mut session, turns);
            }
        }
        sessions.set(i, session);
        i += 1;
    }
    assert(session_views(sessions@) =~= enriched(session_views(before), details@));
}

/// The inventory of a host with the details of the Codex threads that could be read. Where
/// it lists a session of Codex, a failure to read any details counts.
pub fn discover_detailed(
    results: Vec<Result<Vec<Session>, AgentError>>,
    limit: Option<usize>,
    details: Result<StringMap<Vec<ReadTurn>>, CodexError>,
) -> (r: Result<Vec<Session>, AgentError>)
    ensures
        ({
            let sessions = limited(newest_first(found(results@)), limit);
            if found(results@).len() == 0 && first_error(results@) is Some {
                r is Err && Some(r->Err_0) == first_error(results@)
            } else if !has_codex(session_views(sessions)) {
                r is Ok && r->Ok_0@ == sessions
            } else {
                match details {
                    Ok(details) => r is Ok && session_views(r->Ok_0@) == enriched(
                        session_views(sessions),
                        details@,
                    ),
                    Err(error) => r == Err::<Vec<Session>, AgentError>(AgentError::Codex(error)),
                }
            }
        }),
{
    match discover(results, limit) {
        Ok(sessions) => {
            let mut sessions: Vec<Session> = sessions;
            match enrich_details(&mut sessions, details) {
                Ok(()) => Ok(sessions),
                Err(error) => Err(error),
            }
        },
        Err(error) => Err(error),
    }
}

// ---- live observations ----

/// What stands before the native identifier in a stable identifier.
pub open spec fn id_prefix(host: Seq<char>, agent: AgentKind) -> Seq<char> {
    stable_id_text(host, agent, Seq::empty())
}

/// Observations by stable identifier in place of the native one.
pub open spec fn qualified(
    observations: Map<Seq<char>, ObservationView>,
    host: Seq<char>,
    agent: AgentKind,
) -> Map<Seq<char>, ObservationView> {
    let prefix = id_prefix(host, agent);
    Map::new(
        |id: Seq<char>|
            starts_text(id, prefix) && observations.dom().contains(id.skip(prefix.len() as int)),
        |id: Seq<char>| observations[id.skip(prefix.len() as int)],
    )
}

/// The observations, and the ones that the adapter of an agent made.
pub open spec fn with_qualified(
    before: Map<Seq<char>, ObservationView>,
    more: Map<Seq<char>, ObservationView>,
    host: Seq<char>,
    agent: AgentKind,
) -> Map<Seq<char>, ObservationView> {
    before.union_prefer_right(qualified(more, host, agent))
}

proof fn lemma_id_prefix(host: Seq<char>, agent: AgentKind, native_id: Seq<char>)
    ensures
        stable_id_text(host, agent, native_id) == id_prefix(host, agent) + native_id,
        starts_text(stable_id_text(host, agent, native_id), id_prefix(host, agent)),
        stable_id_text(host, agent, native_id).skip(id_prefix(host, agent).len() as int)
            == native_id,
{
    let prefix = id_prefix(host, agent);
    let id = stable_id_text(host, agent, native_id);
    assert(id =~= prefix + native_id);
    assert(id.take(prefix.len() as int) =~= prefix);
    assert(id.skip(prefix.len() as int) =~= native_id);
}

fn add_qualified(
    observations: &mut StringMap<LiveObservation>,
    observed_host: &str,
    agent: AgentKind,
    more: &StringMap<LiveObservation>,
)
    ensures
        observation_views(final(observations)@) == with_qualified(
            observation_views(old(observations)@),
            observation_views(more@),
            observed_host@,
            agent,
        ),
{
    let ghost before = observation_views(observations@);
    let ghost added = observation_views(more@);
    let ghost prefix = id_prefix(observed_host@, agent);
    let keys: Vec<String> = more.keys();
    let ghost names = texts(keys@);
    let mut i: usize = 0;
    proof {
        let seen = names.take(0).to_set();
        assert(names.take(0) =~= Seq::<Seq<char>>::empty());
        assert(seen =~= Set::<Seq<char>>::empty());
        assert(added.restrict(seen) =~= Map::<Seq<char>, ObservationView>::empty());
        assert(with_qualified(before, added.restrict(seen), observed_host@, agent) =~= before);
    }
    while i < keys.len()
        invariant
            i <= keys@.len(),
            names == texts(keys@),
            names.to_set() == more@.dom(),
            added == observation_views(more@),
            prefix == id_prefix(observed_host@, agent),
            observation_views(observations@) == with_qualified(
                before,
                added.restrict(names.take(i as int).to_set()),
                observed_host@,
                agent,
            ),
        decreases keys@.len() - i,
    {
        let key: &String = &keys[i];
        proof {
            assert(names[i as int] == key@);
            assert(names.to_set().contains(key@));
        }
        if let Some(observation) = more.get(key.as_str()) {
            let id: String = SessionKey {
                host: observed_host.to_owned(),
                agent,
                native_session_id: key.clone(),
            }.stable_id();
            proof {
                let seen = names.take(i as int).to_set();
                let next = names.take(i + 1).to_set();
                lemma_id_prefix(observed_host@, agent, key@);
                assert(names.take(i + 1) =~= names.take(i as int).push(key@));
                assert forall|k: Seq<char>| next.contains(k) == (seen.contains(k) || k == key@) by {
                    if seen.contains(k) {
                        let j = choose|j: int|
                            0 <= j < names.take(i as int).len() && names.take(i as int)[j] == k;
                        assert(names.take(i + 1)[j] == k);
                    }
                    if k == key@ {
                        assert(names.take(i + 1)[i as int] == k);
                    }
                }
                lemma_observation_insert(observations@, id@, *observation);
                let old_map = with_qualified(before, added.restrict(seen), observed_host@, agent);
                let new_map = with_qualified(before, added.restrict(next), observed_host@, agent);
                assert forall|k: Seq<char>|
                    #![trigger new_map.dom().contains(k)]
                    starts_text(k, prefix) && k.skip(prefix.len() as int) == key@ implies k
                    == id@ by {
                    assert(k =~= k.take(prefix.len() as int) + k.skip(prefix.len() as int));
                }
                assert(new_map =~= old_map.insert(id@, observation.view()));
            }
            observations.insert(id, observation.clone());
        }
        i += 1;
    }
    proof {
        assert(names.take(i as int) =~= names);
        assert(added.restrict(names.to_set()) =~= added);
    }
}

/// Gives observations the stable identifiers of their sessions.
pub fn qualify_live_observations(
    observed_host: &str,
    agent: AgentKind,
    observations: &StringMap<LiveObservation>,
) -> (r: StringMap<LiveObservation>)
    ensures
        observation_views(r@) == qualified(
            observation_views(observations@),
            observed_host@,
            agent,
        ),
{
    let mut r: StringMap<LiveObservation> = StringMap::new();
    assert(observation_views(r@) =~= Map::<Seq<char>, ObservationView>::empty());
    add_qualified(&mut r, observed_host, agent, observations);
    assert(observation_views(r@) =~= qualified(
        observation_views(observations@),
        observed_host@,
        agent,
    ));
    r
}

/// What a native adapter told of the live processes of its agent.
pub struct NativeObservation {
    pub agent: AgentKind,
    pub result: Result<StringMap<LiveObservation>, NativeError>,
}

/// The first native adapter that failed.
pub open spec fn first_native_error(natives: Seq<NativeObservation>) -> Option<NativeError>
    decreases natives.len(),
{
    if natives.len() == 0 {
        None
    } else {
        match first_native_error(natives.drop_last()) {
            Some(error) => Some(error),
            None => match natives.last().result {
                Ok(_) => None,
                Err(error) => Some(error),
            },
        }
    }
}

/// The observations, and the ones that native adapters made.
pub open spec fn with_natives(
    before: Map<Seq<char>, ObservationView>,
    natives: Seq<NativeObservation>,
    host: Seq<char>,
) -> Map<Seq<char>, ObservationView>
    decreases natives.len(),
{
    if natives.len() == 0 {
        before
    } else {
        let rest = with_natives(before, natives.drop_last(), host);
        match natives.last().result {
            Ok(more) => with_qualified(
                rest,
                observation_views(more@),
                host,
                natives.last().agent,
            ),
            Err(_) => rest,
        }
    }
}

/// The observations of Codex and Oh My Pi, of which one may have failed.
pub open spec fn shared_observations(
    codex: Result<StringMap<LiveObservation>, CodexError>,
    omp: Result<StringMap<LiveObservation>, OmpError>,
    host: Seq<char>,
) -> Map<Seq<char>, ObservationView> {
    let first = match codex {
        Ok(more) => qualified(observation_views(more@), host, AgentKind::Codex),
        Err(_) => Map::empty(),
    };
    match omp {
        Ok(more) => with_qualified(first, observation_views(more@), host, AgentKind::Omp),
        Err(_) => first,
    }
}

/// What the adapters of a host tell of live processes, by stable identifier. A failure of
/// Codex is passed over where Oh My Pi answered, a failure of Oh My Pi always, and a failure of
/// a native adapter never.
pub fn observe_live(
    observed_host: &str,
    codex: Result<StringMap<LiveObservation>, CodexError>,
    omp: Result<StringMap<LiveObservation>, OmpError>,
    natives: Vec<NativeObservation>,
) -> (r: Result<StringMap<LiveObservation>, AgentError>)
    ensures
        match (codex, omp) {
            (Err(error), Err(_)) => r == Err::<StringMap<LiveObservation>, AgentError>(
                AgentError::Codex(error),
            ),
            _ => match first_native_error(natives@) {
                Some(error) => r == Err::<StringMap<LiveObservation>, AgentError>(
                    AgentError::Native(error),
                ),
                None => r is Ok && observation_views(r->Ok_0@) == with_natives(
                    shared_observations(codex, omp, observed_host@),
                    natives@,
                    observed_host@,
                ),
            },
        },
{
    let ghost all = natives@;
    let mut observations: StringMap<LiveObservation> = StringMap::new();
    match codex {
        Ok(more) => {
            observations = qualify_live_observations(observed_host, AgentKind::Codex, &more);
        },
        Err(error) => {
            if omp.is_err() {
                return Err(AgentError::Codex(error));
            }
        },
    }
    assert(observation_views(Map::<Seq<char>, LiveObservation>::empty()) =~= Map::<
        Seq<char>,
        ObservationView,
    >::empty());
    if let Ok(more) = &omp {
        add_qualified(&mut observations, observed_host, AgentKind::Omp, more);
    }
    let ghost shared = observation_views(observations@);
    assert(shared == shared_observations(codex, omp, observed_host@));
    for native in it: natives
        invariant
            it.seq() == all,
            all == natives@,
            shared == shared_observations(codex, omp, observed_host@),
            !(codex is Err && omp is Err),
            first_native_error(all.take(it.index())) is None,
            observation_views(observations@) == with_natives(
                shared,
                all.take(it.index()),
                observed_host@,
            ),
    {
        proof {
            assert(all.take(it.index() + 1).drop_last() =~= all.take(it.index()));
            assert(all.take(it.index() + 1).last() == native);
        }
        match native.result {
            Ok(more) => {
                add_qualified(&mut observations, observed_host, native.agent, &more);
            },
            Err(error) => {
                proof {
                    lemma_first_native_error(all, it.index() + 1);
                }
                return Err(AgentError::Native(error));
            },
        }
    }
    assert(all.take(all.len() as int) =~= all);
    Ok(observations)
}

proof fn lemma_first_native_error(natives: Seq<NativeObservation>, n: int)
    requires
        0 <= n <= natives.len(),
        first_native_error(natives.take(n)) is Some,
    ensures
        first_native_error(natives) == first_native_error(natives.take(n)),
    decreases natives.len(),
{
    if n == natives.len() {
        assert(natives.take(n) =~= natives);
    } else {
        assert(natives.drop_last().take(n) =~= natives.take(n));
        lemma_first_native_error(natives.drop_last(), n);
    }
}

// ---- opening a session ----

/// Which adapter opens a session, and with what.
#[derive(Debug, Eq, PartialEq)]
pub enum Opening {
    Codex { host: String, native_session_id: String },
    Omp { host: String, native_session_id: String },
    Native { host: String, agent: AgentKind, native_session_id: String, force_resume: bool },
}

/// Which adapter opens the session of a key.
pub open spec fn opening(key: SessionKey, force_resume: bool) -> Opening {
    match key.agent {
        AgentKind::Codex => Opening::Codex {
            host: key.host,
            native_session_id: key.native_session_id,
        },
        AgentKind::Omp => Opening::Omp {
            host: key.host,
            native_session_id: key.native_session_id,
        },
        _ => Opening::Native {
            host: key.host,
            agent: key.agent,
            native_session_id: key.native_session_id,
            force_resume,
        },
    }
}

/// Whether a result opens the session of an identifier.
pub open spec fn opens(
    r: Result<Opening, AgentError>,
    session_id: Seq<char>,
    force_resume: bool,
) -> bool {
    match r {
        Ok(found) => exists|key: SessionKey| #[trigger]
            crate::domain::is_stable_id(session_id, key.host@, key.agent, key.native_session_id@)
                && found == opening(key, force_resume),
        Err(error) => {
            &&& error is InvalidSessionId
            &&& error->InvalidSessionId_0@ == session_id
            &&& forall|host: Seq<char>, agent: AgentKind, native_id: Seq<char>|
                !#[trigger] crate::domain::is_stable_id(session_id, host, agent, native_id)
        },
    }
}

fn open_session(session_id: &str, force_resume: bool) -> (r: Result<Opening, AgentError>)
    ensures
        opens(r, session_id@, force_resume),
{
    let key: SessionKey = match SessionKey::parse(session_id) {
        Some(key) => key,
        None => {
            return Err(AgentError::InvalidSessionId(session_id.to_owned()));
        },
    };
    let ghost parsed = key;
    assert(crate::domain::is_stable_id(
        session_id@,
        parsed.host@,
        parsed.agent,
        parsed.native_session_id@,
    ));
    Ok(
        match key.agent {
            AgentKind::Codex => Opening::Codex {
                host: key.host,
                native_session_id: key.native_session_id,
            },
            AgentKind::Omp => Opening::Omp {
                host: key.host,
                native_session_id: key.native_session_id,
            },
            _ => Opening::Native {
                host: key.host,
                agent: key.agent,
                native_session_id: key.native_session_id,
                force_resume,
            },
        },
    )
}

/// Which adapter attaches to a session.
pub fn attach(session_id: &str) -> (r: Result<Opening, AgentError>)
    ensures
        opens(r, session_id@, false),
{
    open_session(session_id, false)
}

/// Which adapter resumes a session in a new frontend, as the user asked.
pub fn resume(session_id: &str) -> (r: Result<Opening, AgentError>)
    ensures
        opens(r, session_id@, true),
{
    open_session(session_id, true)
}

/// The name under which the sessions of a host are kept.
pub fn observed_host(host: &str, local_hostname: &str) -> (r: String)
    ensures
        r@ == observed_host_text(host@, local_hostname@),
{
    crate::codex::observed_host(host, local_hostname)
}

// ---- laws ----

/// An observation is found under the stable identifier of its session, and every key is such
/// an identifier.
pub proof fn observations_are_keyed_by_stable_identifier(
    observations: Map<Seq<char>, ObservationView>,
    host: Seq<char>,
    agent: AgentKind,
    native_id: Seq<char>,
    key: Seq<char>,
)
    ensures
        qualified(observations, host, agent).dom().contains(stable_id_text(host, agent, native_id))
            <==> observations.dom().contains(native_id),
        observations.dom().contains(native_id) ==> qualified(
            observations,
            host,
            agent,
        )[stable_id_text(host, agent, native_id)] == observations[native_id],
        qualified(observations, host, agent).dom().contains(key) ==> exists|id: Seq<char>|
            observations.dom().contains(id) && key == #[trigger] stable_id_text(host, agent, id),
{
    lemma_id_prefix(host, agent, native_id);
    let prefix = id_prefix(host, agent);
    if qualified(observations, host, agent).dom().contains(key) {
        let id = key.skip(prefix.len() as int);
        lemma_id_prefix(host, agent, id);
        assert(key =~= key.take(prefix.len() as int) + id);
        assert(observations.dom().contains(id) && key == stable_id_text(host, agent, id));
    }
}

/// A host counts as failed only where none of its adapters found a session and one failed.
pub proof fn one_adapter_is_enough(
    results: Seq<Result<Vec<Session>, AgentError>>,
    i: int,
    session: Session,
)
    requires
        0 <= i < results.len(),
        results[i] is Ok,
        results[i]->Ok_0@.contains(session),
    ensures
        found(results).contains(session),
        found(results).len() > 0,
    decreases results.len(),
{
    let rest = found(results.drop_last());
    if i == results.len() - 1 {
        let more = results[i]->Ok_0@;
        let k = choose|k: int| 0 <= k < more.len() && more[k] == session;
        assert(found(results)[rest.len() + k] == session);
    } else {
        one_adapter_is_enough(results.drop_last(), i, session);
        let k = choose|k: int| 0 <= k < rest.len() && rest[k] == session;
        assert(found(results)[k] == session);
    }
}

} // verus!
