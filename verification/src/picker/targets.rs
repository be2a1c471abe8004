//! Which hosts the picker asks, and how it starts.

use vstd::prelude::*;

use crate::agents::observed_host;
use crate::hosts::SshHost;
use crate::keyed::{StringMap, StringSet};
use crate::order::{lemma_ranked_view, ranked_by, stable_sort, Ranked};
use crate::reconnect::{requested, HostReconnectState};
use crate::store::Store;
use crate::text::{
    byte_count, clone_strings, lemma_texts_push, lowercase, lowercase_text, lt, owned, same,
    text_le, text_lt, text_lt_irreflexive, text_lt_total, text_lt_transitive, texts, utf8_len,
};
use crate::tmux::observed_host_text;

use super::{
    effect_views, text_of, Clock, EffectView, GroupSet, InputMode, PickerApp, PickerView,
    SectionSet, ALL_HOSTS,
};

verus! {

/// The filter that a host's name stands for.
pub open spec fn normalized_filter(host: Seq<char>, local_hostname: Seq<char>) -> Seq<char> {
    if host == ALL_HOSTS@ {
        ALL_HOSTS@
    } else {
        observed_host_text(host, local_hostname)
    }
}

/// The filter that a host's name stands for: the local host goes by its own name.
pub fn normalize_host_filter(host: &str, local_hostname: &str) -> (r: String)
    ensures
        r@ == normalized_filter(host@, local_hostname@),
{
    if same(host, ALL_HOSTS) {
        ALL_HOSTS.to_owned()
    } else {
        observed_host(host, local_hostname)
    }
}

/// A seed from the time in nanoseconds and the process.
pub open spec fn jitter_seed_of(nanoseconds: u128, process_id: u32) -> u64 {
    (if nanoseconds <= u64::MAX {
        nanoseconds as u64
    } else {
        0
    }) ^ (process_id as u64)
}

/// A seed from the time in nanoseconds and the process. A time that does not fit counts as
/// none.
pub fn reconnect_jitter_seed(nanoseconds: u128, process_id: u32) -> (r: u64)
    ensures
        r == jitter_seed_of(nanoseconds, process_id),
{
    let time: u64 = if nanoseconds <= u64::MAX as u128 { nanoseconds as u64 } else { 0 };
    time ^ (process_id as u64)
}

// ---- targets ----

/// A target is the host, or is observed under its name.
pub open spec fn is_target_of(
    target: Seq<char>,
    host: Seq<char>,
    local_hostname: Seq<char>,
) -> bool {
    target == host || observed_host_text(target, local_hostname) == normalized_filter(
        host,
        local_hostname,
    )
}

/// The targets that are asked where one host is watched.
pub open spec fn restricted(
    targets: Seq<Seq<char>>,
    host: Seq<char>,
    local_hostname: Seq<char>,
) -> Seq<Seq<char>> {
    let matching = targets.filter(
        |target: Seq<char>| is_target_of(target, host, local_hostname),
    );
    if host == ALL_HOSTS@ {
        targets
    } else if host == "local"@ || targets.contains(host) || matching.len() == 0 {
        seq![host]
    } else {
        matching
    }
}

/// The targets that are asked where one host is watched: that host and no other.
pub fn restrict_discovery_targets(targets: Vec<String>, host: &str, local_hostname: &str) -> (r: Vec<
    String,
>)
    ensures
        texts(r@) == restricted(texts(targets@), host@, local_hostname@),
{
    if same(host, ALL_HOSTS) {
        return targets;
    }
    let ghost views = texts(targets@);
    let ghost keep = |target: Seq<char>| is_target_of(target, host@, local_hostname@);
    let mut listed: bool = same(host, "local");
    let mut matching: Vec<String> = Vec::new();
    let filter: String = normalize_host_filter(host, local_hostname);
    let mut i: usize = 0;
    proof {
        reveal(Seq::filter);
        assert(views.take(0).filter(keep) =~= Seq::<Seq<char>>::empty());
        assert(texts(matching@) =~= views.take(0).filter(keep));
    }
    while i < targets.len()
        invariant
            i <= targets@.len(),
            views == texts(targets@),
            keep == (|target: Seq<char>| is_target_of(target, host@, local_hostname@)),
            filter@ == normalized_filter(host@, local_hostname@),
            listed == (host@ == "local"@ || views.take(i as int).contains(host@)),
            texts(matching@) == views.take(i as int).filter(keep),
        decreases targets@.len() - i,
    {
        let target: &String = &targets[i];
        let exact: bool = same(target.as_str(), host);
        proof {
            let some = views.take(i as int);
            let more = views.take(i + 1);
            assert(views[i as int] == target@);
            assert(more =~= some.push(target@));
            some.lemma_filter_push(target@, keep);
            if some.contains(host@) {
                let k = choose|k: int| 0 <= k < some.len() && some[k] == host@;
                assert(more[k] == host@);
            }
            if more.contains(host@) {
                let k = choose|k: int| 0 <= k < more.len() && more[k] == host@;
                if k < i {
                    assert(some[k] == host@);
                }
            }
            assert(more[i as int] == target@);
        }
        if exact {
            listed = true;
        }
        if exact || same(
            observed_host(target.as_str(), local_hostname).as_str(),
            filter.as_str(),
        ) {
            let copy: String = target.clone();
            proof {
                lemma_texts_push(matching@, copy);
            }
            matching.push(copy);
        }
        i += 1;
    }
    assert(views.take(i as int) =~= views);
    assert(texts(matching@).len() == matching@.len());
    if listed || matching.len() == 0 {
        let r: Vec<String> = owned([host]);
        assert(texts(r@) =~= seq![host@]);
        return r;
    }
    matching
}

/// Where a host is reached, and the alias that stands for it.
#[derive(Debug, Eq, PartialEq)]
pub struct Endpoint {
    pub hostname: String,
    pub user: Option<String>,
    pub port: u16,
    pub alias: String,
}

/// Where a host is reached, as text.
#[verifier::ext_equal]
pub struct EndpointView {
    pub hostname: Seq<char>,
    pub user: Option<Seq<char>>,
    pub port: u16,
    pub alias: Seq<char>,
}

impl View for Endpoint {
    type V = EndpointView;

    open spec fn view(&self) -> EndpointView {
        EndpointView {
            hostname: self.hostname@,
            user: text_of(self.user),
            port: self.port,
            alias: self.alias@,
        }
    }
}

/// Endpoints as text.
pub open spec fn endpoint_views(endpoints: Seq<Endpoint>) -> Seq<EndpointView> {
    endpoints.map_values(|endpoint: Endpoint| endpoint@)
}

/// Two endpoints are one.
pub open spec fn same_endpoint(a: EndpointView, b: EndpointView) -> bool {
    a.hostname == b.hostname && a.user == b.user && a.port == b.port
}

/// An alias is better than another: shorter, or of one length and earlier by name.
pub open spec fn better_alias(a: Seq<char>, b: Seq<char>) -> bool {
    utf8_len(a) < utf8_len(b) || (utf8_len(a) == utf8_len(b) && text_lt(a, b))
}

/// The endpoints, with one more or with a better alias.
pub open spec fn with_endpoint(endpoints: Seq<EndpointView>, endpoint: EndpointView) -> Seq<
    EndpointView,
> {
    if exists|i: int|
        0 <= i < endpoints.len() && same_endpoint(#[trigger] endpoints[i], endpoint) {
        endpoints.map_values(
            |known: EndpointView|
                if same_endpoint(known, endpoint) && better_alias(endpoint.alias, known.alias) {
                    EndpointView { alias: endpoint.alias, ..known }
                } else {
                    known
                },
        )
    } else {
        endpoints.push(endpoint)
    }
}

fn is_same_endpoint(a: &Endpoint, b: &Endpoint) -> (r: bool)
    ensures
        r == same_endpoint(a@, b@),
{
    if a.port != b.port || !same(a.hostname.as_str(), b.hostname.as_str()) {
        return false;
    }
    match (&a.user, &b.user) {
        (None, None) => true,
        (Some(a), Some(b)) => same(a.as_str(), b.as_str()),
        _ => false,
    }
}

fn is_better_alias(a: &str, b: &str) -> (r: bool)
    ensures
        r == better_alias(a@, b@),
{
    let x: u128 = byte_count(a);
    let y: u128 = byte_count(b);
    x < y || (x == y && lt(a, b))
}

/// Adds an endpoint, or a better alias to one that is there.
pub fn merge_endpoint(endpoints: &mut Vec<Endpoint>, endpoint: Endpoint)
    ensures
        endpoint_views(final(endpoints)@) == with_endpoint(
            endpoint_views(old(endpoints)@),
            endpoint@,
        ),
{
    let ghost before = endpoint_views(endpoints@);
    let ghost view = endpoint@;
    let ghost changed = before.map_values(
        |known: EndpointView|
            if same_endpoint(known, view) && better_alias(view.alias, known.alias) {
                EndpointView { alias: view.alias, ..known }
            } else {
                known
            },
    );
    let mut found: bool = false;
    let mut i: usize = 0;
    while i < endpoints.len()
        invariant
            i <= endpoints@.len(),
            endpoints@.len() == before.len() == changed.len(),
            view == endpoint@,
            changed == before.map_values(
                |known: EndpointView|
                    if same_endpoint(known, view) && better_alias(view.alias, known.alias) {
                        EndpointView { alias: view.alias, ..known }
                    } else {
                        known
                    },
            ),
            forall|j: int| i <= j < before.len() ==> (#[trigger] endpoints@[j])@ == before[j],
            forall|j: int| 0 <= j < i ==> (#[trigger] endpoints@[j])@ == changed[j],
            found == exists|j: int|
                0 <= j < i && same_endpoint(#[trigger] before[j], view),
        decreases endpoints@.len() - i,
    {
        assert(endpoints@[i as int]@ == before[i as int]);
        if is_same_endpoint(&endpoints[i], &endpoint) {
            assert(same_endpoint(before[i as int], view));
            found = true;
            if is_better_alias(endpoint.alias.as_str(), endpoints[i].alias.as_str()) {
                let known: &Endpoint = &endpoints[i];
                let user: Option<String> = match &known.user {
                    Some(user) => Some(user.clone()),
                    None => None,
                };
                let better = Endpoint {
                    hostname: known.hostname.clone(),
                    user,
                    port: known.port,
                    alias: endpoint.alias.clone(),
                };
                assert(better@ == changed[i as int]);
                endpoints.set(i, better);
            }
        }
        i += 1;
    }
    if found {
        assert(endpoint_views(endpoints@) =~= changed);
    } else {
        assert forall|j: int| 0 <= j < before.len() implies changed[j] == before[j] by {
            assert(!same_endpoint(before[j], view));
        }
        endpoints.push(endpoint);
        assert(endpoint_views(endpoints@) =~= before.push(view));
    }
}

/// Where a host of the configuration is reached.
pub open spec fn endpoint_of(host: SshHost) -> EndpointView {
    EndpointView {
        hostname: lowercase_text(host.hostname@),
        user: text_of(host.user),
        port: host.port,
        alias: host.alias@,
    }
}

/// The endpoints of the hosts whose settings could be resolved.
pub open spec fn endpoints_of(hosts: Seq<SshHost>) -> Seq<EndpointView>
    decreases hosts.len(),
{
    if hosts.len() == 0 {
        Seq::empty()
    } else {
        let before = endpoints_of(hosts.drop_last());
        if hosts.last().resolution_error is Some {
            before
        } else {
            with_endpoint(before, endpoint_of(hosts.last()))
        }
    }
}

/// A name among others.
pub struct NamedTarget {
    pub name: String,
}

impl Ranked for NamedTarget {
    open spec fn at_most(self, other: Self) -> bool {
        text_le(self.name@, other.name@)
    }

    proof fn at_most_total(a: Self, b: Self) {
        text_lt_total(a.name@, b.name@);
    }

    proof fn at_most_transitive(a: Self, b: Self, c: Self) {
        if text_lt(a.name@, b.name@) && text_lt(b.name@, c.name@) {
            text_lt_transitive(a.name@, b.name@, c.name@);
        }
    }

    fn is_at_most(&self, other: &Self) -> (r: bool) {
        same(self.name.as_str(), other.name.as_str()) || lt(
            self.name.as_str(),
            other.name.as_str(),
        )
    }
}

/// The order of names.
pub open spec fn name_order() -> spec_fn(Seq<char>, Seq<char>) -> bool {
    |a: Seq<char>, b: Seq<char>| text_le(a, b)
}

/// The targets that endpoints make: the local host and then the aliases by name.
pub open spec fn targets_of(endpoints: Seq<EndpointView>) -> Seq<Seq<char>> {
    seq!["local"@] + ranked_by(
        endpoints.map_values(|endpoint: EndpointView| endpoint.alias),
        name_order(),
    )
}

/// The targets that endpoints make: the local host and then the aliases by name.
pub fn endpoint_targets(endpoints: Vec<Endpoint>) -> (r: Vec<String>)
    ensures
        texts(r@) == targets_of(endpoint_views(endpoints@)),
{
    let ghost name = |named: NamedTarget| named.name@;
    let ghost aliases = endpoint_views(endpoints@).map_values(
        |endpoint: EndpointView| endpoint.alias,
    );
    let mut names: Vec<NamedTarget> = Vec::new();
    let mut i: usize = 0;
    while i < endpoints.len()
        invariant
            i <= endpoints@.len(),
            names@.len() == i,
            forall|j: int| 0 <= j < i ==> (#[trigger] names@[j]).name@ == endpoints@[j].alias@,
        decreases endpoints@.len() - i,
    {
        names.push(NamedTarget { name: endpoints[i].alias.clone() });
        i += 1;
    }
    assert(names@.map_values(name) =~= aliases);
    let ghost all = names@;
    let sorted: Vec<NamedTarget> = stable_sort(names);
    proof {
        lemma_ranked_view(all, name, name_order());
    }
    let ghost order = sorted@.map_values(name);
    let mut r: Vec<String> = owned(["local"]);
    let mut k: usize = 0;
    assert(texts(r@) =~= seq!["local"@] + order.take(0));
    while k < sorted.len()
        invariant
            k <= sorted@.len(),
            name == (|named: NamedTarget| named.name@),
            order == sorted@.map_values(name),
            texts(r@) == seq!["local"@] + order.take(k as int),
        decreases sorted@.len() - k,
    {
        let copy: String = sorted[k].name.clone();
        proof {
            lemma_texts_push(r@, copy);
            assert(order[k as int] == copy@);
            assert(seq!["local"@] + order.take(k + 1) =~= (seq!["local"@] + order.take(
                k as int,
            )).push(copy@));
        }
        r.push(copy);
        k += 1;
    }
    assert(order.take(k as int) =~= order);
    r
}

/// The targets that the hosts of the configuration make. Aliases of one endpoint make one
/// target, under the shortest of them; a host whose settings could not be resolved makes
/// none.
pub fn deduplicate_discovery_targets(hosts: Vec<SshHost>) -> (r: Vec<String>)
    ensures
        texts(r@) == targets_of(endpoints_of(hosts@)),
{
    let ghost all = hosts@;
    let mut endpoints: Vec<Endpoint> = Vec::new();
    assert(endpoint_views(endpoints@) =~= Seq::<EndpointView>::empty());
    for host in it: hosts
        invariant
            it.seq() == all,
            endpoint_views(endpoints@) == endpoints_of(all.take(it.index())),
    {
        proof {
            assert(all.take(it.index() + 1).drop_last() =~= all.take(it.index()));
            assert(all.take(it.index() + 1).last() == host);
        }
        if host.resolution_error.is_none() {
            let hostname: String = lowercase(host.hostname.as_str());
            merge_endpoint(
                &mut endpoints,
                Endpoint { hostname, user: host.user, port: host.port, alias: host.alias },
            );
        }
    }
    assert(all.take(all.len() as int) =~= all);
    endpoint_targets(endpoints)
}

// ---- the start ----

/// What the picker is started with.
pub struct PickerSetup {
    pub initial_host: String,
    pub limit: usize,
    pub discovery_targets: Vec<String>,
    pub store: Store,
    pub reconnect_jitter_seed: u64,
    pub local_hostname: String,
    pub home: Option<String>,
}

/// The state of a picker that has not read its store yet.
pub open spec fn blank(
    setup: PickerSetup,
    targets: Seq<Seq<char>>,
    watching: bool,
    now: u64,
) -> PickerView {
    PickerView {
        store: setup.store@,
        active: Seq::empty(),
        settled: Seq::empty(),
        rows: Seq::empty(),
        query: Seq::empty(),
        selected_row: 0,
        input_mode: InputMode::Browse,
        expanded_sections: SectionSet {
            current: true,
            last_day: true,
            last_week: true,
            archive: false,
        },
        collapsed_groups: Set::empty(),
        show_details: false,
        host_filter: normalized_filter(setup.initial_host@, setup.local_hostname@),
        host_choices: seq![ALL_HOSTS@],
        host_selected: 0,
        discovery_targets: targets,
        pending_hosts: Set::empty(),
        reachable_hosts: Set::empty(),
        enriching_hosts: Set::empty(),
        host_errors: Map::empty(),
        fresh_ids: Set::empty(),
        unread_ids: Set::empty(),
        watching,
        initial_targets_remaining: targets.to_set(),
        refresh_generation: 0,
        reconnect: Map::new(
            |target: Seq<char>| targets.contains(target),
            |target: Seq<char>| requested(now),
        ),
        reconnect_jitter_seed: setup.reconnect_jitter_seed,
        activity_pending: Set::empty(),
        last_activity_poll: Map::empty(),
        limit: setup.limit,
        status: None,
        notice: None,
        preview_request_id: 0,
        preview: None,
        effects: Seq::empty(),
        local_hostname: setup.local_hostname@,
        home: text_of(setup.home),
    }
}

/// The state of a picker that has started: the inventory of the store is shown, and the hosts
/// are asked.
pub open spec fn started(
    setup: PickerSetup,
    targets: Seq<Seq<char>>,
    watching: bool,
    clock: Clock,
) -> PickerView {
    blank(setup, targets, watching, clock.monotonic_millis).reloaded(
        clock,
    ).with_choices().rebuilt(None, clock.unix_seconds).with_refresh_started(
        clock.monotonic_millis,
    )
}

fn requested_targets(targets: &Vec<String>, now: u64) -> (r: StringMap<HostReconnectState>)
    ensures
        r@ == Map::new(
            |target: Seq<char>| texts(targets@).contains(target),
            |target: Seq<char>| requested(now),
        ),
{
    let ghost names = texts(targets@);
    let mut r: StringMap<HostReconnectState> = StringMap::new();
    let mut i: usize = 0;
    assert(r@ =~= Map::new(
        |target: Seq<char>| names.take(0).contains(target),
        |target: Seq<char>| requested(now),
    ));
    while i < targets.len()
        invariant
            i <= targets@.len(),
            names == texts(targets@),
            r@ == Map::new(
                |target: Seq<char>| names.take(i as int).contains(target),
                |target: Seq<char>| requested(now),
            ),
        decreases targets@.len() - i,
    {
        r.insert(targets[i].clone(), HostReconnectState::new(now));
        proof {
            let some = names.take(i as int);
            let more = names.take(i + 1);
            assert(names[i as int] == targets@[i as int]@);
            assert forall|x: Seq<char>| #[trigger] more.contains(x) == (some.contains(x) || x
                == names[i as int]) by {
                if some.contains(x) {
                    let k = choose|k: int| 0 <= k < some.len() && some[k] == x;
                    assert(more[k] == x);
                }
                if more.contains(x) {
                    let k = choose|k: int| 0 <= k < more.len() && more[k] == x;
                    if k < i {
                        assert(some[k] == x);
                    }
                }
                assert(more[i as int] == names[i as int]);
            }
            assert(r@ =~= Map::new(
                |target: Seq<char>| more.contains(target),
                |target: Seq<char>| requested(now),
            ));
        }
        i += 1;
    }
    assert(names.take(i as int) =~= names);
    r
}

impl PickerApp {
    /// A picker for the user: it asks every host, whichever it shows.
    pub fn new(setup: PickerSetup, clock: Clock) -> (r: Self)
        ensures
            r@ == started(setup, texts(setup.discovery_targets@), false, clock),
            r@.wf(),
    {
        let targets: Vec<String> = clone_strings(&setup.discovery_targets);
        Self::new_inner(setup, targets, false, clock)
    }

    /// A picker that only watches: it asks no host but the one it was started for.
    pub fn new_watch(setup: PickerSetup, clock: Clock) -> (r: Self)
        ensures
            r@ == started(
                setup,
                restricted(
                    texts(setup.discovery_targets@),
                    setup.initial_host@,
                    setup.local_hostname@,
                ),
                true,
                clock,
            ),
            r@.wf(),
    {
        let targets: Vec<String> = restrict_discovery_targets(
            clone_strings(&setup.discovery_targets),
            setup.initial_host.as_str(),
            setup.local_hostname.as_str(),
        );
        Self::new_inner(setup, targets, true, clock)
    }

    fn new_inner(setup: PickerSetup, targets: Vec<String>, watching: bool, clock: Clock) -> (r: Self)
        ensures
            r@ == started(setup, texts(targets@), watching, clock),
            r@.wf(),
    {
        let reconnect: StringMap<HostReconnectState> = requested_targets(
            &targets,
            clock.monotonic_millis,
        );
        let host_filter: String = normalize_host_filter(
            setup.initial_host.as_str(),
            setup.local_hostname.as_str(),
        );
        let host_choices: Vec<String> = owned([ALL_HOSTS]);
        let remaining: StringSet = super::refresh::string_set(&targets);
        let ghost names = texts(targets@);
        let ghost first = blank(setup, names, watching, clock.monotonic_millis);
        let mut app = PickerApp {
            store: setup.store,
            active: Vec::new(),
            settled: Vec::new(),
            rows: Vec::new(),
            query: String::new(),
            selected_row: 0,
            input_mode: InputMode::Browse,
            expanded_sections: SectionSet {
                current: true,
                last_day: true,
                last_week: true,
                archive: false,
            },
            collapsed_groups: GroupSet::new(),
            show_details: false,
            host_filter,
            host_choices,
            host_selected: 0,
            discovery_targets: targets,
            pending_hosts: StringSet::new(),
            reachable_hosts: StringSet::new(),
            enriching_hosts: StringSet::new(),
            host_errors: StringMap::new(),
            fresh_ids: StringSet::new(),
            unread_ids: StringSet::new(),
            watching,
            initial_targets_remaining: remaining,
            refresh_generation: 0,
            reconnect,
            reconnect_jitter_seed: setup.reconnect_jitter_seed,
            activity_pending: StringSet::new(),
            last_activity_poll: StringMap::new(),
            limit: setup.limit,
            status: None,
            notice: None,
            preview_request_id: 0,
            preview: None,
            effects: Vec::new(),
            local_hostname: setup.local_hostname,
            home: setup.home,
        };
        proof {
            assert(texts(app.host_choices@) =~= seq![ALL_HOSTS@]);
            assert(effect_views(app.effects@) =~= Seq::<EffectView>::empty());
            assert(app@ =~= first);
        }
        app.reload_snapshots(clock);
        app.rebuild_host_choices();
        app.rebuild_rows(clock.unix_seconds);
        app.start_refresh(clock);
        app
    }
}

// ---- laws ----

proof fn lemma_endpoint_step(
    endpoints: Seq<EndpointView>,
    endpoint: EndpointView,
    known: EndpointView,
)
    requires
        exists|i: int|
            0 <= i < endpoints.len() && same_endpoint(#[trigger] endpoints[i], known)
                && !better_alias(known.alias, endpoints[i].alias),
    ensures
        exists|i: int|
            0 <= i < with_endpoint(endpoints, endpoint).len() && same_endpoint(
                #[trigger] with_endpoint(endpoints, endpoint)[i],
                known,
            ) && !better_alias(known.alias, with_endpoint(endpoints, endpoint)[i].alias),
{
    let after = with_endpoint(endpoints, endpoint);
    let i = choose|i: int|
        0 <= i < endpoints.len() && same_endpoint(#[trigger] endpoints[i], known)
            && !better_alias(known.alias, endpoints[i].alias);
    if better_alias(endpoint.alias, endpoints[i].alias) && better_alias(
        known.alias,
        endpoint.alias,
    ) {
        if text_lt(known.alias, endpoint.alias) && text_lt(endpoint.alias, endpoints[i].alias) {
            text_lt_transitive(known.alias, endpoint.alias, endpoints[i].alias);
        }
    }
    assert(same_endpoint(after[i], known) && !better_alias(known.alias, after[i].alias));
}

/// Aliases of one endpoint are asked once, and under an alias that none of them beats.
pub proof fn an_endpoint_is_asked_under_its_shortest_alias(hosts: Seq<SshHost>, k: int)
    requires
        0 <= k < hosts.len(),
        hosts[k].resolution_error is None,
    ensures
        exists|i: int|
            0 <= i < endpoints_of(hosts).len() && same_endpoint(
                #[trigger] endpoints_of(hosts)[i],
                endpoint_of(hosts[k]),
            ) && !better_alias(hosts[k].alias@, endpoints_of(hosts)[i].alias),
    decreases hosts.len(),
{
    let rest = hosts.drop_last();
    let before = endpoints_of(rest);
    let last = endpoint_of(hosts.last());
    let after = endpoints_of(hosts);
    if k < hosts.len() - 1 {
        an_endpoint_is_asked_under_its_shortest_alias(rest, k);
        if hosts.last().resolution_error is None {
            lemma_endpoint_step(before, last, endpoint_of(hosts[k]));
        }
    } else {
        text_lt_irreflexive(last.alias);
        if exists|i: int| 0 <= i < before.len() && same_endpoint(#[trigger] before[i], last) {
            let i = choose|i: int|
                0 <= i < before.len() && same_endpoint(#[trigger] before[i], last);
            assert(same_endpoint(after[i], last) && !better_alias(last.alias, after[i].alias));
        } else {
            let i = before.len() as int;
            assert(same_endpoint(after[i], last) && !better_alias(last.alias, after[i].alias));
        }
    }
}

/// No endpoint is asked twice.
pub proof fn no_endpoint_is_asked_twice(hosts: Seq<SshHost>, i: int, j: int)
    requires
        0 <= i < j < endpoints_of(hosts).len(),
    ensures
        !same_endpoint(endpoints_of(hosts)[i], endpoints_of(hosts)[j]),
    decreases hosts.len(),
{
    let rest = hosts.drop_last();
    let before = endpoints_of(rest);
    let last = endpoint_of(hosts.last());
    if hosts.last().resolution_error is Some {
        no_endpoint_is_asked_twice(rest, i, j);
    } else if exists|k: int| 0 <= k < before.len() && same_endpoint(#[trigger] before[k], last) {
        no_endpoint_is_asked_twice(rest, i, j);
    } else if j < before.len() {
        no_endpoint_is_asked_twice(rest, i, j);
    } else {
        assert(!same_endpoint(before[i], last));
    }
}

/// Watching one host asks no other: every target is the host, or is observed under its name.
pub proof fn watching_a_host_asks_no_other(
    targets: Seq<Seq<char>>,
    host: Seq<char>,
    local_hostname: Seq<char>,
    k: int,
)
    requires
        host != ALL_HOSTS@,
        0 <= k < restricted(targets, host, local_hostname).len(),
    ensures
        is_target_of(restricted(targets, host, local_hostname)[k], host, local_hostname),
        restricted(targets, host, local_hostname).len() > 0,
{
    let keep = |target: Seq<char>| is_target_of(target, host, local_hostname);
    let r = restricted(targets, host, local_hostname);
    if r != seq![host] {
        assert(r == targets.filter(keep));
        assert(r.contains(r[k]));
        targets.lemma_filter_contains_rev(keep, r[k]);
        targets.lemma_filter_pred(keep, k);
    }
}

} // verus!
