//! Which hosts the configuration of ssh names, how they are reached, and which of them are asked.

use vstd::prelude::*;

use crate::hosts::{
    expand_include, is_literal_alias, parse_effective_config, read_words, resolve_host, AliasSource,
    ConfigLine, ConfigWalk, HostDiscoveryError, SshHost, WalkView, WorkView,
};
use crate::order::{ranked_by_contains, ranked_by_is_in_order, ranked_contains, ranked_is_in_order};
use crate::paths::in_path_order;
use crate::picker::targets::{
    deduplicate_discovery_targets, endpoint_of, endpoints_of, name_order, normalize_host_filter,
    restrict_discovery_targets, same_endpoint, targets_of, EndpointView,
};
use crate::quoting::shell_words;
use crate::tmux::CommandOutcome;
use crate::text::{
    ascii_lower, is_space, lemma_word_len_is, lines_of, lowercase_text, parsed_number, text_lt,
    text_lt_irreflexive, text_lt_total, text_lt_transitive, texts, trimmed, utf8_len,
};

verus! {

// ---- lines of the configuration ----

/// A name of a `Host` line is a host unless it is empty, is an option or a negation, or holds a
/// character of a pattern.
pub proof fn patterns_are_no_hosts(candidate: &str, r: bool, i: int)
    requires
        call_ensures(is_literal_alias, (candidate,), r),
    ensures
        0 <= i < candidate@.len() && (candidate@[i] == '*' || candidate@[i] == '?' || candidate@[i]
            == '[' || candidate@[i] == ']') ==> !r,
        candidate@.len() == 0 ==> !r,
        candidate@.len() > 0 && (candidate@[0] == '-' || candidate@[0] == '!') ==> !r,
        candidate@.len() > 0 && candidate@[0] != '-' && candidate@[0] != '!' && (forall|k: int|
            0 <= k < candidate@.len() ==> (#[trigger] candidate@[k]) != '*' && candidate@[k] != '?'
                && candidate@[k] != '[' && candidate@[k] != ']') ==> r,
{
}

/// A `Host` line names its literal words as hosts, in their order; an `Include` line names files
/// by all of its words; the case of the keyword does not matter; and no other line says anything.
pub proof fn a_line_says_what_its_keyword_says(words: &Vec<String>, r: ConfigLine, host: Seq<char>)
    requires
        call_ensures(read_words, (words,), r),
    ensures
        ({
            let keyword = ascii_lower(words@[0]@);
            let empty = words@.len() == 0;
            &&& r is Hosts <==> !empty && keyword == "host"@
            &&& r is Files <==> !empty && keyword == "include"@
            &&& r matches ConfigLine::Files(files) ==> files@.len() == words@.len() - 1 && (
            forall|i: int| 0 <= i < files@.len() ==> (#[trigger] files@[i])@ == words@[i + 1]@)
            &&& r matches ConfigLine::Hosts(hosts) ==> (texts(hosts@).contains(host) <==> exists|
                i: int,
            | 1 <= i < words@.len() && (#[trigger] words@[i])@ == host && stands_for_a_host(host))
        }),
{
    reveal_strlit("host");
    reveal_strlit("include");
    assert("host"@.len() != "include"@.len());
    let all = texts(words@);
    if words@.len() > 0 {
        assert(all[0] == words@[0]@);
    }
    if let ConfigLine::Hosts(hosts) = r {
        let keep = |word: Seq<char>| crate::hosts::is_literal(word);
        let rest = all.skip(1);
        let out = rest.filter(keep);
        if out.contains(host) {
            let k = choose|k: int| 0 <= k < out.len() && out[k] == host;
            rest.lemma_filter_pred(keep, k);
            rest.lemma_filter_contains_rev(keep, host);
            let i = choose|i: int| 0 <= i < rest.len() && rest[i] == host;
            assert(words@[i + 1]@ == host);
        }
        if exists|i: int|
            1 <= i < words@.len() && (#[trigger] words@[i])@ == host && stands_for_a_host(host) {
            let i = choose|i: int|
                1 <= i < words@.len() && (#[trigger] words@[i])@ == host && stands_for_a_host(host);
            assert(rest[i - 1] == host);
            rest.lemma_filter_contains(keep, i - 1);
        }
    }
    if let ConfigLine::Files(files) = r {
        assert(texts(files@) == all.skip(1));
        assert(texts(files@).len() == files@.len());
        assert forall|i: int| 0 <= i < files@.len() implies (#[trigger] files@[i])@ == words@[i
            + 1]@ by {
            assert(texts(files@)[i] == files@[i]@);
            assert(all.skip(1)[i] == all[i + 1]);
        }
    }
}

/// A word that names a host.
pub open spec fn stands_for_a_host(word: Seq<char>) -> bool {
    &&& word.len() > 0
    &&& word[0] != '-' && word[0] != '!'
    &&& forall|k: int|
        0 <= k < word.len() ==> (#[trigger] word[k]) != '*' && word[k] != '?' && word[k] != '['
            && word[k] != ']'
}

/// A file that is included is looked for below the home directory where it begins there, where
/// it stands where it is absolute, and else below the directory of the configuration.
pub proof fn an_include_is_looked_for(
    word: &str,
    base: &str,
    home: &str,
    rest: Seq<char>,
    r: Result<String, HostDiscoveryError>,
)
    requires
        call_ensures(expand_include, (word, base, home), r),
        home@.len() > 0,
        home@.last() != '/',
        base@.len() > 0,
        base@.last() != '/',
    ensures
        r matches Ok(pattern) ==> {
            &&& word@ == "~"@ ==> pattern@ == home@
            &&& word@ == "~/"@ + rest && (rest.len() > 0 ==> rest[0] != '/') ==> pattern@ == home@
                + "/"@ + rest
            &&& word@.len() > 0 && word@[0] == '/' ==> pattern@ == word@
            &&& word@.len() > 0 && word@[0] != '/' && word@[0] != '~' ==> pattern@ == base@ + "/"@
                + word@
        },
{
    reveal_strlit("~");
    reveal_strlit("~/");
    reveal_strlit("/");
    assert("/"@ =~= seq!['/']);
    if word@ == "~/"@ + rest {
        assert(word@.skip(2) =~= rest);
        assert(crate::text::occurs_at(word@, "~/"@, 0)) by {
            assert(word@.subrange(0, 2) =~= "~/"@);
        }
        assert(word@.len() != "~"@.len());
    }
    if word@.len() > 0 && word@[0] != '~' {
        assert(word@ != "~"@);
        assert(!crate::text::starts_text(word@, "~/"@)) by {
            if crate::text::occurs_at(word@, "~/"@, 0) {
                assert(word@.subrange(0, 2)[0] == "~/"@[0]);
            }
        }
    }
}

// ---- the walk through the files ----

/// The lines of a file are read next, from the first on, before anything that waited; a file
/// that was read before is not read again.
pub proof fn a_file_is_read_from_its_first_line(
    v: WalkView,
    identity: Seq<char>,
    path: Seq<char>,
    contents: Seq<char>,
    i: int,
)
    ensures
        ({
            let after = v.told_of(identity, path, Some(contents));
            let lines = lines_of(contents);
            let n = after.work.len();
            &&& after.visited.contains(identity)
            &&& after.aliases == v.aliases
            &&& v.visited.contains(identity) ==> after.work == v.work
            &&& !v.visited.contains(identity) ==> {
                &&& n == v.work.len() + lines.len()
                &&& 0 <= i < lines.len() ==> after.work[n - 1 - i] == WorkView::Line(
                    path,
                    lines[i],
                )
                &&& 0 <= i < v.work.len() ==> after.work[i] == v.work[i]
            }
        }),
{
}

/// The files that a pattern matches are opened next, in the order of their paths, before
/// anything that waited.
pub proof fn matched_files_are_opened_in_order(v: WalkView, paths: Seq<Seq<char>>, i: int)
    ensures
        ({
            let after = v.directed(paths);
            let sorted = in_path_order(paths);
            let n = after.work.len();
            &&& n == v.work.len() + sorted.len()
            &&& after.visited == v.visited && after.aliases == v.aliases
            &&& 0 <= i < sorted.len() ==> after.work[n - 1 - i] == WorkView::Visit(sorted[i])
            &&& 0 <= i < v.work.len() ==> after.work[i] == v.work[i]
        }),
{
}

/// The hosts that were found are listed by the order of their names, none is lost, and none is
/// added.
pub proof fn found_hosts_are_listed_by_name(
    walk: &ConfigWalk,
    r: Vec<AliasSource>,
    host: AliasSource,
)
    requires
        call_ensures(ConfigWalk::discovered, (walk,), r),
    ensures
        r@.contains(host) <==> walk.aliases@.contains(host),
        forall|i: int, j: int|
            0 <= i < j < r@.len() ==> !text_lt(
                (#[trigger] r@[j]).alias@,
                (#[trigger] r@[i]).alias@,
            ),
{
    ranked_contains(walk.aliases@, host);
    ranked_is_in_order(walk.aliases@);
    assert forall|i: int, j: int| 0 <= i < j < r@.len() implies !text_lt(
        (#[trigger] r@[j]).alias@,
        (#[trigger] r@[i]).alias@,
    ) by {
        assert(crate::order::Ranked::at_most(r@[i], r@[j]));
        text_lt_irreflexive(r@[i].alias@);
        if text_lt(r@[j].alias@, r@[i].alias@) && text_lt(r@[i].alias@, r@[j].alias@) {
            text_lt_transitive(r@[i].alias@, r@[j].alias@, r@[i].alias@);
        }
    }
}

// ---- settings ----

/// A line gives a keyword, in any case, a value: the text behind the first blank without the
/// blanks around it.
pub open spec fn gives(line: Seq<char>, keyword: Seq<char>, value: Seq<char>) -> bool {
    exists|n: int| #[trigger]
        has_keyword_end(line, n) && ascii_lower(line.take(n)) == keyword && value == trimmed(
            line.skip(n + 1),
        )
}

/// The first blank of a line.
pub open spec fn has_keyword_end(line: Seq<char>, n: int) -> bool {
    &&& 0 <= n < line.len()
    &&& is_space(line[n])
    &&& forall|j: int| 0 <= j < n ==> !is_space(#[trigger] line[j])
}

/// The last line that gives a keyword is line `k`.
pub open spec fn last_gives(
    lines: Seq<Seq<char>>,
    keyword: Seq<char>,
    value: Seq<char>,
    k: int,
) -> bool {
    &&& 0 <= k < lines.len()
    &&& gives(lines[k], keyword, value)
    &&& forall|j: int, other: Seq<char>|
        k < j < lines.len() ==> !#[trigger] gives(lines[j], keyword, other)
}

/// No line gives a keyword.
pub open spec fn none_gives(lines: Seq<Seq<char>>, keyword: Seq<char>) -> bool {
    forall|j: int, other: Seq<char>|
        0 <= j < lines.len() ==> !#[trigger] gives(lines[j], keyword, other)
}

proof fn lemma_gives(line: Seq<char>, keyword: Seq<char>, value: Seq<char>)
    ensures
        gives(line, keyword, value) <==> {
            let n = crate::text::word_len(line) as int;
            n < line.len() && ascii_lower(line.take(n)) == keyword && value == trimmed(
                line.skip(n + 1),
            )
        },
{
    crate::text::lemma_word_len(line);
    let n = crate::text::word_len(line) as int;
    if gives(line, keyword, value) {
        let m = choose|m: int| #[trigger]
            has_keyword_end(line, m) && ascii_lower(line.take(m)) == keyword && value == trimmed(
                line.skip(m + 1),
            );
        lemma_word_len_is(line, m);
    }
    if n < line.len() {
        assert(has_keyword_end(line, n));
    }
}

proof fn lemma_keywords_differ()
    ensures
        "hostname"@ != "user"@,
        "hostname"@ != "port"@,
        "hostname"@ != "identityfile"@,
        "user"@ != "port"@,
        "user"@ != "identityfile"@,
        "port"@ != "identityfile"@,
{
    reveal_strlit("hostname");
    reveal_strlit("user");
    reveal_strlit("port");
    reveal_strlit("identityfile");
    assert("user"@[0] == 'u' && "port"@[0] == 'p');
    assert("hostname"@.len() == 8 && "identityfile"@.len() == 12 && "user"@.len() == 4
        && "port"@.len() == 4);
}

/// A host is reached as the last lines say that give its name, its user and its port. Without
/// one it is reached under its alias, with no user, at the port of ssh; and so it is where the
/// port is no number.
pub proof fn the_last_setting_counts(
    alias: &str,
    source: &str,
    config: &str,
    r: SshHost,
    value: Seq<char>,
    k: int,
)
    requires
        call_ensures(parse_effective_config, (alias, source, config), r),
    ensures
        ({
            let lines = lines_of(config@);
            &&& r.alias@ == alias@ && r.source@ == source@ && r.resolution_error is None
            &&& last_gives(lines, "hostname"@, value, k) ==> r.hostname@ == value
            &&& none_gives(lines, "hostname"@) ==> r.hostname@ == alias@
            &&& last_gives(lines, "user"@, value, k) ==> (r.user matches Some(user) && user@ == value)
            &&& none_gives(lines, "user"@) ==> r.user is None
            &&& last_gives(lines, "port"@, value, k) ==> r.port == (match parsed_number(
                value,
                65_535,
            ) {
                Some(port) => port,
                None => 22,
            })
            &&& none_gives(lines, "port"@) ==> r.port == 22
        }),
{
    lemma_settings(alias@, lines_of(config@), value, k);
}

proof fn lemma_settings(alias: Seq<char>, lines: Seq<Seq<char>>, value: Seq<char>, k: int)
    ensures
        ({
            let r = crate::hosts::effective(alias, lines);
            &&& last_gives(lines, "hostname"@, value, k) ==> r.hostname == value
            &&& none_gives(lines, "hostname"@) ==> r.hostname == alias
            &&& last_gives(lines, "user"@, value, k) ==> r.user == Some(value)
            &&& none_gives(lines, "user"@) ==> r.user is None
            &&& last_gives(lines, "port"@, value, k) ==> r.port == (match parsed_number(
                value,
                65_535,
            ) {
                Some(port) => port,
                None => 22,
            })
            &&& none_gives(lines, "port"@) ==> r.port == 22
        }),
    decreases lines.len(),
{
    lemma_keywords_differ();
    if lines.len() > 0 {
        let front = lines.drop_last();
        let last = lines.len() - 1;
        let line = lines[last];
        let n = crate::text::word_len(line) as int;
        let given = trimmed(line.skip(n + 1));
        lemma_settings(alias, front, value, k);
        lemma_front_setting(lines, "hostname"@, value, k);
        lemma_front_setting(lines, "user"@, value, k);
        lemma_front_setting(lines, "port"@, value, k);
        lemma_gives(line, "hostname"@, value);
        lemma_gives(line, "user"@, value);
        lemma_gives(line, "port"@, value);
        lemma_gives(line, "hostname"@, given);
        lemma_gives(line, "user"@, given);
        lemma_gives(line, "port"@, given);
    }
}

proof fn lemma_front_setting(lines: Seq<Seq<char>>, keyword: Seq<char>, value: Seq<char>, k: int)
    requires
        lines.len() > 0,
    ensures
        last_gives(lines, keyword, value, k) && k < lines.len() - 1 ==> last_gives(
            lines.drop_last(),
            keyword,
            value,
            k,
        ) && forall|other: Seq<char>| !#[trigger] gives(lines[lines.len() - 1], keyword, other),
        none_gives(lines, keyword) ==> none_gives(lines.drop_last(), keyword) && forall|
            other: Seq<char>,
        | !#[trigger] gives(lines[lines.len() - 1], keyword, other),
{
    let front = lines.drop_last();
    if last_gives(lines, keyword, value, k) && k < lines.len() - 1 {
        assert(front[k] == lines[k]);
        assert forall|j: int, other: Seq<char>| k < j < front.len() implies !#[trigger] gives(
            front[j],
            keyword,
            other,
        ) by {
            assert(front[j] == lines[j]);
            assert(!gives(lines[j], keyword, other));
        }
    }
    if none_gives(lines, keyword) {
        assert forall|j: int, other: Seq<char>| 0 <= j < front.len() implies !#[trigger] gives(
            front[j],
            keyword,
            other,
        ) by {
            assert(front[j] == lines[j]);
            assert(!gives(lines[j], keyword, other));
        }
    }
}

/// Every line that gives an identity file adds it behind those before, and no other line does.
pub proof fn identity_files_stand_in_their_order(
    alias: Seq<char>,
    lines: Seq<Seq<char>>,
    line: Seq<char>,
    value: Seq<char>,
)
    ensures
        ({
            let before = crate::hosts::effective(alias, lines).identity_files;
            let after = crate::hosts::effective(alias, lines.push(line)).identity_files;
            &&& lines.len() == 0 ==> before.len() == 0
            &&& gives(line, "identityfile"@, value) ==> after == before.push(value)
            &&& (forall|other: Seq<char>| !#[trigger] gives(line, "identityfile"@, other)) ==> after
                == before
        }),
{
    lemma_keywords_differ();
    assert(lines.push(line).drop_last() =~= lines);
    lemma_gives(line, "identityfile"@, value);
    let n = crate::text::word_len(line) as int;
    lemma_gives(line, "identityfile"@, trimmed(line.skip(n + 1)));
}

/// Where ssh resolved a host, the settings that it printed count; where it did not, the host
/// keeps its alias and has an error: what ssh said, or how it ended.
pub proof fn an_unresolved_host_has_an_error(
    alias: &str,
    source: &str,
    outcome: &CommandOutcome,
    r: SshHost,
)
    requires
        call_ensures(resolve_host, (alias, source, outcome), r),
    ensures
        r.alias@ == alias@,
        r.source@ == source@,
        r.resolution_error is None <==> outcome.success,
        !outcome.success ==> r.hostname@ == alias@ && r.user is None && r.port == 22
            && r.identity_files@.len() == 0,
        !outcome.success && trimmed(outcome.stderr@).len() > 0 ==> r.resolution_error->0@ == trimmed(
            outcome.stderr@,
        ),
        !outcome.success && trimmed(outcome.stderr@).len() == 0 ==> r.resolution_error->0@
            == "ssh -G exited with "@ + outcome.status@,
{
    if !outcome.success {
        assert(texts(r.identity_files@).len() == r.identity_files@.len());
    }
}

// ---- targets ----

/// Two hosts are one machine: reached under one name, whatever its case, by one user, at one
/// port.
pub open spec fn is_one_machine(a: SshHost, b: SshHost) -> bool {
    &&& lowercase_text(a.hostname@) == lowercase_text(b.hostname@)
    &&& a.port == b.port
    &&& match (a.user, b.user) {
        (Some(x), Some(y)) => x@ == y@,
        (None, None) => true,
        _ => false,
    }
}

/// A shorter alias, or of two of one length the one that comes first.
pub open spec fn reads_better(a: Seq<char>, b: Seq<char>) -> bool {
    utf8_len(a) < utf8_len(b) || (utf8_len(a) == utf8_len(b) && text_lt(a, b))
}

/// This host is asked first, and then others in the order of their aliases.
pub proof fn targets_stand_in_order(hosts: Vec<SshHost>, r: Vec<String>, i: int, j: int)
    requires
        call_ensures(deduplicate_discovery_targets, (hosts,), r),
    ensures
        r@.len() > 0 && r@[0]@ == "local"@,
        1 <= i < j < r@.len() ==> !text_lt(r@[j]@, r@[i]@),
{
    let all = targets_of(endpoints_of(hosts@));
    let names = endpoints_of(hosts@).map_values(|endpoint: EndpointView| endpoint.alias);
    let sorted = crate::order::ranked_by(names, name_order());
    assert(texts(r@) == all);
    assert(all[0] == "local"@);
    assert(texts(r@)[0] == r@[0]@);
    if 1 <= i < j < r@.len() {
        assert(texts(r@)[i] == r@[i]@ && texts(r@)[j] == r@[j]@);
        assert(all[i] == sorted[i - 1] && all[j] == sorted[j - 1]);
        lemma_name_order();
        ranked_by_is_in_order(names, name_order(), i - 1, j - 1);
        text_lt_irreflexive(sorted[i - 1]);
        if text_lt(sorted[i - 1], sorted[j - 1]) && text_lt(sorted[j - 1], sorted[i - 1]) {
            text_lt_transitive(sorted[i - 1], sorted[j - 1], sorted[i - 1]);
        }
    }
}

proof fn lemma_name_order()
    ensures
        forall|a: Seq<char>, b: Seq<char>| #[trigger] name_order()(a, b) || name_order()(b, a),
        forall|a: Seq<char>, b: Seq<char>, c: Seq<char>|
            #[trigger] name_order()(a, b) && #[trigger] name_order()(b, c) ==> name_order()(a, c),
{
    assert forall|a: Seq<char>, b: Seq<char>| #[trigger] name_order()(a, b) || name_order()(b, a) by {
        text_lt_total(a, b);
    }
    assert forall|a: Seq<char>, b: Seq<char>, c: Seq<char>|
        #[trigger] name_order()(a, b) && #[trigger] name_order()(b, c) implies name_order()(
        a,
        c,
    ) by {
        if text_lt(a, b) && text_lt(b, c) {
            text_lt_transitive(a, b, c);
        }
    }
}

/// Each machine that could be resolved is asked, under the alias that reads best.
pub proof fn every_machine_is_asked(hosts: Vec<SshHost>, r: Vec<String>, k: int)
    requires
        call_ensures(deduplicate_discovery_targets, (hosts,), r),
        0 <= k < hosts@.len(),
        hosts@[k].resolution_error is None,
    ensures
        exists|i: int, m: int|
            1 <= i < r@.len() && 0 <= m < hosts@.len() && (#[trigger] r@[i])@ == (
            #[trigger] hosts@[m]).alias@ && hosts@[m].resolution_error is None && is_one_machine(
                hosts@[m],
                hosts@[k],
            ) && !reads_better(hosts@[k].alias@, hosts@[m].alias@),
{
    crate::picker::targets::an_endpoint_is_asked_under_its_shortest_alias(hosts@, k);
    let all = endpoints_of(hosts@);
    let e = choose|e: int|
        0 <= e < all.len() && same_endpoint(#[trigger] all[e], endpoint_of(hosts@[k]))
            && !crate::picker::targets::better_alias(hosts@[k].alias@, all[e].alias);
    lemma_endpoint_origin(hosts@, e);
    let m = choose|m: int|
        0 <= m < hosts@.len() && (#[trigger] hosts@[m]).resolution_error is None && endpoint_of(
            hosts@[m],
        ) == all[e];
    let names = all.map_values(|endpoint: EndpointView| endpoint.alias);
    let sorted = crate::order::ranked_by(names, name_order());
    assert(names[e] == all[e].alias);
    assert(names.contains(all[e].alias));
    ranked_by_contains(names, name_order(), all[e].alias);
    let s = choose|s: int| 0 <= s < sorted.len() && sorted[s] == all[e].alias;
    let targets = targets_of(all);
    assert(texts(r@) == targets);
    assert(texts(r@).len() == r@.len());
    assert(targets[s + 1] == sorted[s]);
    assert(texts(r@)[s + 1] == r@[s + 1]@);
    assert(r@[s + 1]@ == hosts@[m].alias@);
}

/// What is asked beside this host is a resolved host of the configuration, and no alias of the
/// same machine reads better.
pub proof fn only_configured_machines_are_asked(hosts: Vec<SshHost>, r: Vec<String>, i: int)
    requires
        call_ensures(deduplicate_discovery_targets, (hosts,), r),
        1 <= i < r@.len(),
    ensures
        exists|m: int|
            0 <= m < hosts@.len() && (#[trigger] hosts@[m]).alias@ == r@[i]@
                && hosts@[m].resolution_error is None && (forall|k: int|
                0 <= k < hosts@.len() && (#[trigger] hosts@[k]).resolution_error is None
                    && is_one_machine(hosts@[k], hosts@[m]) ==> !reads_better(
                    hosts@[k].alias@,
                    r@[i]@,
                )),
{
    let all = endpoints_of(hosts@);
    let names = all.map_values(|endpoint: EndpointView| endpoint.alias);
    let sorted = crate::order::ranked_by(names, name_order());
    let targets = targets_of(all);
    assert(texts(r@) == targets);
    assert(texts(r@).len() == r@.len());
    assert(texts(r@)[i] == r@[i]@);
    assert(targets[i] == sorted[i - 1]);
    ranked_by_contains(names, name_order(), sorted[i - 1]);
    assert(sorted.contains(sorted[i - 1]));
    let e = choose|e: int| 0 <= e < names.len() && names[e] == sorted[i - 1];
    assert(all[e].alias == r@[i]@);
    lemma_endpoint_origin(hosts@, e);
    let m = choose|m: int|
        0 <= m < hosts@.len() && (#[trigger] hosts@[m]).resolution_error is None && endpoint_of(
            hosts@[m],
        ) == all[e];
    assert forall|k: int|
        0 <= k < hosts@.len() && (#[trigger] hosts@[k]).resolution_error is None && is_one_machine(
            hosts@[k],
            hosts@[m],
        ) implies !reads_better(hosts@[k].alias@, r@[i]@) by {
        crate::picker::targets::an_endpoint_is_asked_under_its_shortest_alias(hosts@, k);
        let f = choose|f: int|
            0 <= f < all.len() && same_endpoint(#[trigger] all[f], endpoint_of(hosts@[k]))
                && !crate::picker::targets::better_alias(hosts@[k].alias@, all[f].alias);
        if e < f {
            crate::picker::targets::no_endpoint_is_asked_twice(hosts@, e, f);
        }
        if f < e {
            crate::picker::targets::no_endpoint_is_asked_twice(hosts@, f, e);
        }
    }
    assert(hosts@[m].alias@ == r@[i]@);
}

proof fn lemma_endpoint_origin(hosts: Seq<SshHost>, e: int)
    requires
        0 <= e < endpoints_of(hosts).len(),
    ensures
        exists|m: int|
            0 <= m < hosts.len() && (#[trigger] hosts[m]).resolution_error is None && endpoint_of(
                hosts[m],
            ) == endpoints_of(hosts)[e],
    decreases hosts.len(),
{
    if hosts.len() > 0 {
        let front = hosts.drop_last();
        let before = endpoints_of(front);
        let last = hosts.len() - 1;
        let added = endpoint_of(hosts[last]);
        if e < before.len() && (hosts[last].resolution_error is Some || before[e] == endpoints_of(
            hosts,
        )[e]) {
            lemma_endpoint_origin(front, e);
            let m = choose|m: int|
                0 <= m < front.len() && (#[trigger] front[m]).resolution_error is None
                    && endpoint_of(front[m]) == before[e];
            assert(hosts[m] == front[m]);
        } else {
            assert(endpoint_of(hosts[last]) == endpoints_of(hosts)[e]);
        }
    }
}

/// A watch of one host asks the target of that name where there is one; else those under which
/// the host is listed; else it asks for the name as it was given. A watch of all asks every
/// target.
pub proof fn a_watch_asks_its_host(
    targets: Vec<String>,
    host: &str,
    local_hostname: &str,
    r: Vec<String>,
)
    requires
        call_ensures(restrict_discovery_targets, (targets, host, local_hostname), r),
    ensures
        host@ == "all"@ ==> texts(r@) == texts(targets@),
        host@ != "all"@ && (host@ == "local"@ || texts(targets@).contains(host@)) ==> texts(r@)
            == seq![host@],
        host@ != "all"@ && host@ == local_hostname@ && !texts(targets@).contains(host@) && texts(
            targets@,
        ).contains("local"@) ==> texts(r@).contains("local"@),
        host@ != "all"@ && !texts(targets@).contains(host@) && host@ != local_hostname@ ==> texts(
            r@,
        ) == seq![host@],
{
    let all = texts(targets@);
    let keep = |target: Seq<char>|
        crate::picker::targets::is_target_of(target, host@, local_hostname@);
    let kept = all.filter(keep);
    if host@ != "all"@ && !all.contains(host@) && host@ != local_hostname@ && host@ != "local"@ {
        if kept.len() > 0 {
            all.lemma_filter_pred(keep, 0);
            assert(kept.contains(kept[0]));
            all.lemma_filter_contains_rev(keep, kept[0]);
            assert(false);
        }
    }
    if host@ != "all"@ && host@ == local_hostname@ && !all.contains(host@) && all.contains(
        "local"@,
    ) {
        let i = choose|i: int| 0 <= i < all.len() && all[i] == "local"@;
        all.lemma_filter_contains(keep, i);
    }
}

/// The filter for this host is its own name, whichever of its two names was given; any other is
/// kept as it was given.
pub proof fn the_filter_names_a_listed_host(host: &str, local_hostname: &str, r: String)
    requires
        call_ensures(normalize_host_filter, (host, local_hostname), r),
    ensures
        host@ == "all"@ ==> r@ == "all"@,
        host@ == "local"@ ==> r@ == local_hostname@,
        host@ != "local"@ ==> r@ == host@,
{
    reveal_strlit("all");
    reveal_strlit("local");
    assert("all"@.len() != "local"@.len());
}

// ---- lines of the walk ----

/// Behind a line that names files, its patterns are looked for next, from the first on, before
/// anything that waited; no host is named by it.
pub proof fn included_files_come_next(v: WalkView, path: Seq<char>, line: Seq<char>, i: int)
    requires
        v.work.len() > 0,
        v.work.last() == WorkView::Line(path, line),
        shell_words(line) is Some,
        shell_words(line)->0.len() > 0,
        ascii_lower(shell_words(line)->0[0]) == "include"@,
    ensures
        ({
            let words = shell_words(line)->0;
            let after = v.advanced();
            let n = after.work.len();
            &&& n == v.work.len() - 1 + words.len() - 1
            &&& 1 <= i < words.len() ==> after.work[n - i] == WorkView::Expand(words[i])
            &&& 0 <= i < v.work.len() - 1 ==> after.work[i] == v.work[i]
            &&& after.aliases == v.aliases
            &&& after.visited == v.visited
        }),
{
    reveal_strlit("host");
    reveal_strlit("include");
    assert("host"@.len() != "include"@.len());
    assert(crate::hosts::named_hosts(shell_words(line)->0) =~= Seq::<Seq<char>>::empty());
}

/// A line that names hosts notes each of them that is no pattern, under its file, and opens
/// nothing; a host that was noted before keeps the file that named it first.
pub proof fn named_hosts_are_noted(
    v: WalkView,
    path: Seq<char>,
    line: Seq<char>,
    host: Seq<char>,
    k: int,
)
    requires
        v.work.len() > 0,
        v.work.last() == WorkView::Line(path, line),
        shell_words(line) is Some,
        shell_words(line)->0.len() > 0,
        ascii_lower(shell_words(line)->0[0]) == "host"@,
        1 <= k < shell_words(line)->0.len(),
        shell_words(line)->0[k] == host,
        stands_for_a_host(host),
    ensures
        ({
            let after = v.advanced();
            let known = exists|i: int| 0 <= i < v.aliases.len() && (#[trigger] v.aliases[i]).0 == host;
            &&& after.work == v.work.drop_last()
            &&& forall|i: int| 0 <= i < v.aliases.len() ==> #[trigger] after.aliases[i] == v.aliases[i]
            &&& after.aliases.len() >= v.aliases.len()
            &&& !known ==> after.aliases.contains((host, path))
        }),
{
    reveal_strlit("host");
    reveal_strlit("include");
    assert("host"@.len() != "include"@.len());
    let words = shell_words(line)->0;
    let rest = words.skip(1);
    let keep = |word: Seq<char>| crate::hosts::is_literal(word);
    assert(rest[k - 1] == host);
    rest.lemma_filter_contains(keep, k - 1);
    assert(crate::hosts::named_hosts(words).contains(host));
    lemma_noted_all(v.aliases, crate::hosts::named_hosts(words), path, host);
}

proof fn lemma_noted_all(
    aliases: Seq<(Seq<char>, Seq<char>)>,
    hosts: Seq<Seq<char>>,
    path: Seq<char>,
    host: Seq<char>,
)
    ensures
        ({
            let after = crate::hosts::noted_all(aliases, hosts, path);
            let known = exists|i: int| 0 <= i < aliases.len() && (#[trigger] aliases[i]).0 == host;
            &&& after.len() >= aliases.len()
            &&& forall|i: int| 0 <= i < aliases.len() ==> #[trigger] after[i] == aliases[i]
            &&& forall|i: int|
                aliases.len() <= i < after.len() ==> (#[trigger] after[i]).1 == path
            &&& hosts.contains(host) && !known ==> after.contains((host, path))
        }),
    decreases hosts.len(),
{
    if hosts.len() > 0 {
        let front = hosts.drop_last();
        let last = hosts.last();
        lemma_noted_all(aliases, front, path, host);
        let before = crate::hosts::noted_all(aliases, front, path);
        let after = crate::hosts::noted_all(aliases, hosts, path);
        let known = exists|i: int| 0 <= i < aliases.len() && (#[trigger] aliases[i]).0 == host;
        if hosts.contains(host) && !known {
            if front.contains(host) {
                let i = choose|i: int| 0 <= i < before.len() && before[i] == (host, path);
                assert(after[i] == (host, path));
            } else {
                let i = choose|i: int| 0 <= i < hosts.len() && hosts[i] == host;
                assert(i == hosts.len() - 1) by {
                    if i < hosts.len() - 1 {
                        assert(front[i] == host);
                    }
                }
                assert(last == host);
                if crate::hosts::alias_known(before, host) {
                    let j = choose|j: int| 0 <= j < before.len() && (#[trigger] before[j]).0 == host;
                    assert(j >= aliases.len()) by {
                        if j < aliases.len() {
                            assert(aliases[j].0 == host);
                        }
                    }
                    assert(before[j] == (host, path));
                    assert(after[j] == (host, path));
                } else {
                    assert(after.last() == (host, path));
                    assert(after[before.len() as int] == (host, path));
                }
            }
        }
    }
}

} // verus!
