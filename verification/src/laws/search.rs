//! What a search finds, in the picker and in the history.

use vstd::prelude::*;

use crate::cli::{self, corpus_text, history_matches, select_history};
use crate::domain::{Activity, Session};
use crate::picker::dashboard::session_matches;
use crate::store::HistoryEntry;
use crate::text::{contains_text, joined, lowercase_text, occurs_at, trimmed, words_of};

verus! {

/// The word for an activity occurs in the query's place.
pub open spec fn activity_says(activity: Activity, word: Seq<char>) -> bool {
    match activity {
        Activity::Working => word == "working"@,
        Activity::WaitingApproval => word == "approval"@,
        Activity::WaitingInput => word == "input"@,
        Activity::Completed => word == "completed"@,
        Activity::Failed => word == "failed"@,
        Activity::Unknown => word == "unknown"@,
    }
}

/// A query that is not empty finds a session by each of its fields on its own: the title, the
/// last message, the directory, the host, the source, the agent's name, the word for its
/// activity, the native identifier and the multiplexer's session; whatever their case. An empty
/// query finds every session.
pub proof fn a_query_finds_a_session_by_each_field(session: &Session, query: &str, r: bool)
    requires
        call_ensures(session_matches, (session, query), r),
    ensures
        query@.len() == 0 ==> r,
        contains_text(lowercase_text(session.title@), query@) ==> r,
        contains_text(lowercase_text(session.last_message@), query@) ==> r,
        contains_text(lowercase_text(session.cwd@), query@) ==> r,
        contains_text(lowercase_text(session.host@), query@) ==> r,
        contains_text(lowercase_text(session.source@), query@) ==> r,
        contains_text(lowercase_text(session.agent.name()), query@) ==> r,
        forall|word: Seq<char>|
            activity_says(session.activity, word) && #[trigger] contains_text(
                lowercase_text(word),
                query@,
            ) ==> r,
        contains_text(lowercase_text(session.native_session_id@), query@) ==> r,
        session.tmux is Some && contains_text(lowercase_text(session.tmux->0.session@), query@)
            ==> r,
{
    let fields = crate::picker::dashboard::search_fields(*session);
    let lower = crate::text::lowered(fields);
    assert(lower[0] == lowercase_text(session.title@));
    assert(lower[1] == lowercase_text(session.last_message@));
    assert(lower[2] == lowercase_text(session.cwd@));
    assert(lower[3] == lowercase_text(session.host@));
    assert(lower[4] == lowercase_text(session.source@));
    assert(lower[5] == lowercase_text(session.agent.name()));
    assert(activity_says(session.activity, fields[6]));
    assert(lower[6] == lowercase_text(fields[6]));
    assert(lower[7] == lowercase_text(session.native_session_id@));
    if session.tmux is Some {
        assert(lower[8] == lowercase_text(session.tmux->0.session@));
    }
}

/// A query finds a session by nothing but those fields.
pub proof fn a_query_finds_nothing_else(session: &Session, query: &str, r: bool)
    requires
        call_ensures(session_matches, (session, query), r),
        query@.len() > 0,
        !contains_text(lowercase_text(session.title@), query@),
        !contains_text(lowercase_text(session.last_message@), query@),
        !contains_text(lowercase_text(session.cwd@), query@),
        !contains_text(lowercase_text(session.host@), query@),
        !contains_text(lowercase_text(session.source@), query@),
        !contains_text(lowercase_text(session.agent.name()), query@),
        forall|word: Seq<char>|
            activity_says(session.activity, word) ==> !#[trigger] contains_text(
                lowercase_text(word),
                query@,
            ),
        !contains_text(lowercase_text(session.native_session_id@), query@),
        session.tmux is Some ==> !contains_text(
            lowercase_text(session.tmux->0.session@),
            query@,
        ),
        session.tmux is None ==> !contains_text(lowercase_text(Seq::<char>::empty()), query@),
    ensures
        !r,
{
    let fields = crate::picker::dashboard::search_fields(*session);
    let lower = crate::text::lowered(fields);
    assert(lower.len() == 9);
    assert(activity_says(session.activity, fields[6]));
    assert forall|i: int| 0 <= i < lower.len() implies !contains_text(
        #[trigger] lower[i],
        query@,
    ) by {
        assert(lower[i] == lowercase_text(fields[i]));
        if i == 8 {
            assert(lower[8] == lowercase_text(fields[8]));
        }
    }
}

pub proof fn lemma_joined_contains(pieces: Seq<Seq<char>>, separator: Seq<char>, k: int)
    requires
        0 <= k < pieces.len(),
    ensures
        contains_text(joined(pieces, separator), pieces[k]),
    decreases pieces.len(),
{
    let whole = joined(pieces, separator);
    if pieces.len() == 1 {
        assert(whole.subrange(0, whole.len() as int) =~= pieces[k]);
        assert(occurs_at(whole, pieces[k], 0));
    } else if k == pieces.len() - 1 {
        let from = whole.len() - pieces[k].len();
        assert(whole.subrange(from, whole.len() as int) =~= pieces[k]);
        assert(occurs_at(whole, pieces[k], from));
    } else {
        let rest = pieces.drop_last();
        lemma_joined_contains(rest, separator, k);
        let before = joined(rest, separator);
        let i = choose|i: int| #[trigger] occurs_at(before, rest[k], i);
        assert(whole.subrange(i, i + pieces[k].len()) =~= before.subrange(
            i,
            i + pieces[k].len(),
        ));
        assert(occurs_at(whole, pieces[k], i));
    }
}

/// What the history searches of an entry holds its title, last message, directory, host,
/// identifiers, the words for its activity and owner, whether it is settled and why, and
/// whether it is unread.
pub proof fn the_history_searches_every_field(entry: HistoryEntry)
    ensures
        ({
            let corpus = corpus_text(entry);
            &&& contains_text(corpus, entry.session.title@)
            &&& contains_text(corpus, entry.session.last_message@)
            &&& contains_text(corpus, entry.session.cwd@)
            &&& contains_text(corpus, entry.session.host@)
            &&& contains_text(corpus, entry.session.id@)
            &&& contains_text(corpus, entry.session.native_session_id@)
            &&& forall|word: Seq<char>| #[trigger]
                activity_says(entry.session.activity, word) ==> contains_text(corpus, word)
            &&& entry.session.runtime is Resumable ==> contains_text(corpus, "resumable"@)
            &&& entry.session.runtime is SharedBackend ==> contains_text(corpus, "backend"@)
            &&& entry.session.runtime is ExternalFrontend ==> contains_text(corpus, "external"@)
            &&& entry.session.runtime is TmuxFrontend ==> contains_text(corpus, "tmux"@)
            &&& entry.settled ==> contains_text(corpus, "settled"@)
            &&& !entry.settled ==> contains_text(corpus, "active"@)
            &&& entry.unread ==> contains_text(corpus, "unread"@)
            &&& !entry.unread ==> contains_text(corpus, "read"@)
            &&& entry.settle_reason is Some ==> contains_text(corpus, entry.settle_reason->0@)
        }),
{
    let pieces = seq![
        entry.session.title@,
        entry.session.last_message@,
        entry.session.cwd@,
        entry.session.host@,
        entry.session.id@,
        entry.session.native_session_id@,
        cli::activity_word(entry.session.activity),
        cli::runtime_word(entry.session.runtime),
        cli::view_word(entry.settled),
        if entry.unread {
            "unread"@
        } else {
            "read"@
        },
        match entry.settle_reason {
            Some(reason) => reason@,
            None => Seq::empty(),
        },
    ];
    assert(corpus_text(entry) == joined(pieces, "\n"@));
    lemma_joined_contains(pieces, "\n"@, 0);
    lemma_joined_contains(pieces, "\n"@, 1);
    lemma_joined_contains(pieces, "\n"@, 2);
    lemma_joined_contains(pieces, "\n"@, 3);
    lemma_joined_contains(pieces, "\n"@, 4);
    lemma_joined_contains(pieces, "\n"@, 5);
    lemma_joined_contains(pieces, "\n"@, 6);
    lemma_joined_contains(pieces, "\n"@, 7);
    lemma_joined_contains(pieces, "\n"@, 8);
    lemma_joined_contains(pieces, "\n"@, 9);
    lemma_joined_contains(pieces, "\n"@, 10);
}

/// An entry is found where its host is the one asked for, where one is, and every word of the
/// search, where there is one, occurs in what is searched of it, whatever the case.
pub proof fn the_history_finds_entries_with_every_word(
    entry: &HistoryEntry,
    host: Option<&str>,
    search: Option<&str>,
    r: bool,
)
    requires
        call_ensures(history_matches, (entry, host, search), r),
    ensures
        host is Some && entry.session.host@ != host->0@ ==> !r,
        (host is None || entry.session.host@ == host->0@) && (search is None || trimmed(
            search->0@,
        ).len() == 0) ==> r,
        (host is None || entry.session.host@ == host->0@) && search is Some && (forall|i: int|
            0 <= i < words_of(search->0@).len() ==> contains_text(
                lowercase_text(corpus_text(*entry)),
                lowercase_text(#[trigger] words_of(search->0@)[i]),
            )) ==> r,
        search is Some && trimmed(search->0@).len() > 0 && (exists|i: int|
            0 <= i < words_of(search->0@).len() && !contains_text(
                lowercase_text(corpus_text(*entry)),
                lowercase_text(#[trigger] words_of(search->0@)[i]),
            )) ==> !r,
{
    if let Some(search) = search {
        let words = words_of(search@);
        let terms = crate::text::lowered(words);
        assert forall|i: int| 0 <= i < words.len() implies #[trigger] terms[i] == lowercase_text(
            words[i],
        ) by {}
        if exists|i: int|
            0 <= i < words.len() && !contains_text(
                lowercase_text(corpus_text(*entry)),
                lowercase_text(#[trigger] words[i]),
            ) {
            let i = choose|i: int|
                0 <= i < words.len() && !contains_text(
                    lowercase_text(corpus_text(*entry)),
                    lowercase_text(#[trigger] words[i]),
                );
            assert(!contains_text(lowercase_text(corpus_text(*entry)), terms[i]));
        }
    }
}

/// The history lists exactly the entries that are found, in their order, and with a limit the
/// first of them.
pub proof fn the_history_lists_what_is_found(
    history: Vec<HistoryEntry>,
    host: Option<&str>,
    search: Option<&str>,
    limit: Option<usize>,
    r: Vec<HistoryEntry>,
)
    requires
        call_ensures(select_history, (history, host, search, limit), r),
    ensures
        limit is Some ==> r@.len() <= limit->0,
        forall|k: int|
            0 <= k < r@.len() ==> history@.contains(#[trigger] r@[k]) && (host is Some
                ==> r@[k].session.host@ == host->0@),
        limit is None && host is None && search is None ==> r@ == history@,
        forall|i: int|
            0 <= i < history@.len() && limit is None && search is None && (host is None || (
            #[trigger] history@[i]).session.host@ == host->0@) ==> r@.contains(history@[i]),
{
    let h = cli::optional_text(host);
    let q = cli::optional_text(search);
    let keep = |entry: HistoryEntry| cli::is_listed(entry, h, q);
    let all = history@.filter(keep);
    assert forall|k: int| 0 <= k < all.len() implies history@.contains(#[trigger] all[k]) && keep(
        all[k],
    ) by {
        history@.lemma_filter_pred(keep, k);
        history@.lemma_filter_contains_rev(keep, all[k]);
    }
    assert forall|k: int| 0 <= k < r@.len() implies history@.contains(#[trigger] r@[k]) && (host
        is Some ==> r@[k].session.host@ == host->0@) by {
        assert(r@[k] == all[k]);
    }
    assert forall|i: int|
        0 <= i < history@.len() && limit is None && search is None && (host is None || (
        #[trigger] history@[i]).session.host@ == host->0@) implies r@.contains(history@[i]) by {
        assert(keep(history@[i]));
        history@.lemma_filter_contains(keep, i);
    }
    if limit is None && host is None && search is None {
        lemma_filter_all(history@, keep);
    }
}

proof fn lemma_filter_all(s: Seq<HistoryEntry>, keep: spec_fn(HistoryEntry) -> bool)
    requires
        forall|entry: HistoryEntry| #[trigger] keep(entry),
    ensures
        s.filter(keep) == s,
    decreases s.len(),
{
    reveal(Seq::filter);
    if s.len() > 0 {
        lemma_filter_all(s.drop_last(), keep);
        assert(s =~= s.drop_last().push(s.last()));
    }
}

} // verus!
