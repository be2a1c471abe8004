//! The names that sessions have in tmux, the files that tell of them, and the pieces of texts.

use vstd::prelude::*;

use crate::codex::{
    self, byte_suffix, cuts_at, desired_tmux_name, is_alphanumeric, normalized_managed_tmux_name,
    slugged,
};
use crate::domain::{Session, SessionView};
use crate::omp::{self, file_session, file_view, listing, session_script};
use crate::text::{
    decimal, file_name, first_index, is_space, joined, lemma_split_first, lines_of, parsed_number,
    split_text, starts_text, trimmed, trimmed_end, trimmed_start, utf8_len, words_of,
};

verus! {

// ---- pieces of texts ----

/// What is split is put together again by what split it, and no piece holds that.
pub proof fn splitting_loses_nothing(s: Seq<char>, c: char, i: int)
    ensures
        split_text(s, c).len() > 0,
        joined(split_text(s, c), seq![c]) == s,
        0 <= i < split_text(s, c).len() ==> !split_text(s, c)[i].contains(c),
    decreases s.len(),
{
    crate::text::lemma_first_index(s, c);
    let at = first_index(s, c) as int;
    let all = split_text(s, c);
    if at >= s.len() {
        assert(all == seq![s]);
        if 0 <= i < all.len() && all[i].contains(c) {
            let k = choose|k: int| 0 <= k < s.len() && s[k] == c;
            assert(s[k] != c);
        }
    } else {
        let head = s.take(at);
        let tail = s.skip(at + 1);
        splitting_loses_nothing(tail, c, i - 1);
        let rest = split_text(tail, c);
        lemma_joined_first(head, rest, seq![c]);
        assert(head + seq![c] + tail =~= s);
        if i == 0 && head.contains(c) {
            let k = choose|k: int| 0 <= k < head.len() && head[k] == c;
            assert(s[k] != c);
        }
    }
}

proof fn lemma_joined_first(head: Seq<char>, rest: Seq<Seq<char>>, separator: Seq<char>)
    requires
        rest.len() > 0,
    ensures
        joined(seq![head] + rest, separator) == head + separator + joined(rest, separator),
    decreases rest.len(),
{
    let all = seq![head] + rest;
    if rest.len() == 1 {
        assert(all.drop_last() =~= seq![head]);
        assert(joined(seq![head], separator) == head);
    } else {
        assert(all.drop_last() =~= seq![head] + rest.drop_last());
        lemma_joined_first(head, rest.drop_last(), separator);
        assert(head + separator + joined(rest.drop_last(), separator) + separator + rest.last()
            =~= head + separator + (joined(rest.drop_last(), separator) + separator
            + rest.last()));
    }
}

/// A text is trimmed of the blanks around it, of all of them and of nothing else.
pub proof fn trimming_takes_the_blanks_around(s: Seq<char>)
    ensures
        trimmed(s).len() > 0 ==> !is_space(trimmed(s)[0]) && !is_space(trimmed(s).last()),
        exists|a: int, b: int|
            0 <= a <= b <= s.len() && trimmed(s) == #[trigger] s.subrange(a, b) && (forall|k: int|
                0 <= k < a || b <= k < s.len() ==> is_space(#[trigger] s[k])),
{
    crate::text::lemma_leading_spaces(s);
    let from = crate::text::leading_spaces(s) as int;
    let start = trimmed_start(s);
    lemma_trimmed_end(start);
    let n = trimmed_end(start).len() as int;
    assert(start == s.skip(from));
    assert(trimmed(s) =~= s.subrange(from, from + n));
    assert forall|k: int| 0 <= k < from || from + n <= k < s.len() implies is_space(
        #[trigger] s[k],
    ) by {
        if k >= from {
            assert(start[k - from] == s[k]);
        }
    }
    if trimmed(s).len() > 0 {
        assert(start[0] == s[from]);
        if is_space(s[from]) {
            lemma_leading(s);
        }
    }
}

proof fn lemma_leading(s: Seq<char>)
    ensures
        crate::text::leading_spaces(s) < s.len() ==> !is_space(
            s[crate::text::leading_spaces(s) as int],
        ),
    decreases s.len(),
{
    if s.len() > 0 && is_space(s[0]) {
        lemma_leading(s.drop_first());
        let n = crate::text::leading_spaces(s.drop_first()) as int;
        if n < s.drop_first().len() {
            assert(s.drop_first()[n] == s[n + 1]);
        }
    }
}

proof fn lemma_trimmed_end(s: Seq<char>)
    ensures
        trimmed_end(s).len() <= s.len(),
        trimmed_end(s) == s.take(trimmed_end(s).len() as int),
        trimmed_end(s).len() > 0 ==> !is_space(trimmed_end(s).last()),
        forall|k: int| trimmed_end(s).len() <= k < s.len() ==> is_space(#[trigger] s[k]),
    decreases s.len(),
{
    if s.len() > 0 && is_space(s.last()) {
        let front = s.drop_last();
        lemma_trimmed_end(front);
        assert(trimmed_end(s) =~= s.take(trimmed_end(s).len() as int));
        assert forall|k: int| trimmed_end(s).len() <= k < s.len() implies is_space(
            #[trigger] s[k],
        ) by {
            if k < front.len() {
                assert(front[k] == s[k]);
            }
        }
    } else {
        assert(s =~= s.take(s.len() as int));
    }
}

/// A line ends at its line feed, with a carriage return before it dropped; what has no line
/// feed is one line; and nothing has none.
pub proof fn a_line_ends_at_its_line_feed(line: Seq<char>, rest: Seq<char>)
    requires
        !line.contains('\n'),
        line.len() > 0 ==> line.last() != '\r',
    ensures
        lines_of(line + seq!['\n'] + rest) == seq![line] + lines_of(rest),
        lines_of(line + seq!['\r', '\n'] + rest) == seq![line] + lines_of(rest),
        line.len() > 0 ==> lines_of(line) == seq![line],
        lines_of(Seq::empty()).len() == 0,
{
    let s = line + seq!['\n'] + rest;
    lemma_split_first(line, '\n', rest);
    assert(s.take(line.len() as int) =~= line);
    assert(s.skip(line.len() as int + 1) =~= rest);
    let with = line + seq!['\r'];
    let t = line + seq!['\r', '\n'] + rest;
    assert(!with.contains('\n')) by {
        if with.contains('\n') {
            let k = choose|k: int| 0 <= k < with.len() && with[k] == '\n';
            assert(line[k] == '\n');
        }
    }
    assert(t =~= with + seq!['\n'] + rest);
    lemma_split_first(with, '\n', rest);
    assert(t.take(with.len() as int) =~= with);
    assert(t.skip(with.len() as int + 1) =~= rest);
    assert(with.drop_last() =~= line);
    crate::text::lemma_first_index(line, '\n');
    let at = first_index(line, '\n') as int;
    if line.len() > 0 && at < line.len() {
        assert(line[at] == '\n');
    }
}

/// No word is empty or holds a blank.
pub proof fn words_hold_no_blanks(s: Seq<char>, i: int)
    requires
        0 <= i < words_of(s).len(),
    ensures
        words_of(s)[i].len() > 0,
        forall|k: int| 0 <= k < words_of(s)[i].len() ==> !is_space(#[trigger] words_of(s)[i][k]),
    decreases s.len(),
{
    crate::text::lemma_words_defined(s);
    let t = trimmed_start(s);
    let n = crate::text::word_len(t) as int;
    crate::text::lemma_word_len(t);
    if i == 0 {
        assert(words_of(s)[0] == t.take(n));
    } else {
        assert(words_of(s)[i] == words_of(t.skip(n))[i - 1]);
        words_hold_no_blanks(t.skip(n), i - 1);
    }
}

/// A number is read back from its decimal form.
pub proof fn decimals_are_read_back(n: nat, most: nat)
    ensures
        n <= most ==> parsed_number(decimal(n), most) == Some(n),
        n > most ==> parsed_number(decimal(n), most) is None,
{
    lemma_decimal(n);
    assert(decimal(n)[0] != '+');
}

proof fn lemma_decimal(n: nat)
    ensures
        decimal(n).len() > 0,
        crate::text::all_digits(decimal(n)),
        crate::text::digits_value(decimal(n)) == n,
    decreases n,
{
    if n < 10 {
        let one = decimal(n);
        assert(one.drop_last() =~= Seq::<char>::empty());
        assert(crate::text::digits_value(one.drop_last()) == 0);
        assert(one.last() == crate::text::digit_char(n));
    } else {
        lemma_decimal(n / 10);
        let all = decimal(n);
        assert(all.drop_last() =~= decimal(n / 10));
        assert(all.last() == crate::text::digit_char(n % 10));
        assert forall|i: int| 0 <= i < all.len() implies '0' <= #[trigger] all[i] && all[i]
            <= '9' by {
            if i < all.len() - 1 {
                assert(all[i] == decimal(n / 10)[i]);
            }
        }
    }
}

proof fn lemma_split_last(front: Seq<char>, c: char, last: Seq<char>)
    requires
        !last.contains(c),
    ensures
        split_text(front + seq![c] + last, c).len() > 0,
        split_text(front + seq![c] + last, c).last() == last,
    decreases front.len(),
{
    let s = front + seq![c] + last;
    crate::text::lemma_first_index(front, c);
    if front.contains(c) {
        let at = first_index(front, c) as int;
        assert(at < front.len()) by {
            if at >= front.len() {
                let k = choose|k: int| 0 <= k < front.len() && front[k] == c;
                assert(front[k] != c);
            }
        }
        let head = front.take(at);
        let tail = front.skip(at + 1);
        assert(!head.contains(c)) by {
            if head.contains(c) {
                let k = choose|k: int| 0 <= k < head.len() && head[k] == c;
                assert(front[k] != c);
            }
        }
        assert(front[at] == c);
        assert(s =~= head + seq![c] + (tail + seq![c] + last));
        lemma_split_first(head, c, tail + seq![c] + last);
        lemma_split_last(tail, c, last);
        assert((seq![head] + split_text(tail + seq![c] + last, c)).last() == split_text(
            tail + seq![c] + last,
            c,
        ).last());
    } else {
        lemma_split_first(front, c, last);
        crate::text::lemma_first_index(last, c);
        let at = first_index(last, c) as int;
        if at < last.len() {
            assert(last[at] == c);
            assert(last.contains(c));
        }
        assert(split_text(last, c) == seq![last]);
    }
}

/// The name of a file is what follows the last slash, where that is a name.
pub proof fn a_file_is_named_by_its_last_part(
    path: &str,
    r: Option<String>,
    front: Seq<char>,
    name: Seq<char>,
)
    requires
        call_ensures(file_name, (path,), r),
        path@ == front + seq!['/'] + name,
        !name.contains('/'),
        name.len() > 0,
        name != "."@,
        name != ".."@,
    ensures
        r matches Some(found) && found@ == name,
{
    lemma_file_name(front, name);
}

pub proof fn lemma_file_name(front: Seq<char>, name: Seq<char>)
    requires
        !name.contains('/'),
        name.len() > 0,
        name != "."@,
        name != ".."@,
    ensures
        crate::text::file_name_text(front + seq!['/'] + name) == Some(name),
{
    let parts = split_text(front + seq!['/'] + name, '/');
    let keep = |part: Seq<char>| part.len() > 0 && part != "."@;
    lemma_split_last(front, '/', name);
    assert(parts.drop_last().push(parts.last()) =~= parts);
    reveal(Seq::filter);
    assert(keep(parts.last()));
    assert(parts.filter(keep) == parts.drop_last().filter(keep).push(name));
    assert(parts.filter(keep).last() == name);
}

// ---- names in tmux ----

/// A text of lower-case letters and digits.
pub open spec fn is_plain(s: Seq<char>) -> bool {
    forall|i: int|
        0 <= i < s.len() ==> ('a' <= #[trigger] s[i] && s[i] <= 'z') || ('0' <= s[i] && s[i] <= '9')
}

proof fn lemma_plain_slug(s: Seq<char>)
    requires
        is_plain(s),
        s.len() <= 24,
    ensures
        slugged(s) == (s, false),
    decreases s.len(),
{
    if s.len() > 0 {
        let front = s.drop_last();
        assert forall|i: int| 0 <= i < front.len() implies ('a' <= #[trigger] front[i] && front[i]
            <= 'z') || ('0' <= front[i] && front[i] <= '9') by {
            assert(front[i] == s[i]);
        }
        lemma_plain_slug(front);
        let c = s[s.len() - 1];
        assert(c == s.last());
        assert(is_alphanumeric(c));
        assert(crate::text::ascii_lower_char(c) == c);
        assert(front.push(c) =~= s);
    } else {
        assert(s =~= Seq::empty());
    }
}

proof fn lemma_plain_bytes(s: Seq<char>)
    requires
        is_plain(s),
    ensures
        utf8_len(s) == s.len(),
    decreases s.len(),
{
    if s.len() > 0 {
        let front = s.drop_last();
        assert forall|i: int| 0 <= i < front.len() implies ('a' <= #[trigger] front[i] && front[i]
            <= 'z') || ('0' <= front[i] && front[i] <= '9') by {
            assert(front[i] == s[i]);
        }
        lemma_plain_bytes(front);
        assert(s[s.len() - 1] == s.last());
    }
}

proof fn lemma_plain_suffix(s: Seq<char>)
    requires
        is_plain(s),
        s.len() >= 8,
    ensures
        byte_suffix(s, 8) == s.skip(s.len() - 8),
{
    let at = s.len() - 8;
    assert forall|k: int| 0 <= k <= s.len() implies utf8_len(#[trigger] s.skip(k)) == s.len() - k by {
        let rest = s.skip(k);
        assert forall|i: int| 0 <= i < rest.len() implies ('a' <= #[trigger] rest[i] && rest[i]
            <= 'z') || ('0' <= rest[i] && rest[i] <= '9') by {
            assert(rest[i] == s[k + i]);
        }
        lemma_plain_bytes(rest);
    }
    assert(cuts_at(s, at, 8)) by {
        assert(utf8_len(s.skip(at)) == 8);
    }
    let k = choose|k: int| #[trigger] cuts_at(s, k, 8);
    assert(utf8_len(s.skip(k)) == s.len() - k);
}

/// A thread has the name of its project and the last eight characters of its identifier in the
/// name of its session in tmux.
pub proof fn a_thread_is_named_by_its_project(
    cwd: &str,
    id: &str,
    r: String,
    front: Seq<char>,
    project: Seq<char>,
)
    requires
        call_ensures(codex::deterministic_tmux_name, (cwd, id), r),
        cwd@ == front + seq!['/'] + project,
        is_plain(project),
        0 < project.len() <= 24,
        is_plain(id@),
        id@.len() >= 8,
    ensures
        r@ == "rc-"@ + project + "-"@ + id@.skip(id@.len() - 8),
{
    reveal_strlit(".");
    reveal_strlit("..");
    assert(!project.contains('/')) by {
        if project.contains('/') {
            let k = choose|k: int| 0 <= k < project.len() && project[k] == '/';
            assert(('a' <= project[k] && project[k] <= 'z') || ('0' <= project[k] && project[k]
                <= '9'));
        }
    }
    assert(project != "."@ && project != ".."@) by {
        assert(('a' <= project[0] && project[0] <= 'z') || ('0' <= project[0] && project[0]
            <= '9'));
        assert("."@[0] == '.' && ".."@[0] == '.');
    }
    lemma_file_name(front, project);
    lemma_plain_slug(project);
    lemma_plain_suffix(id@);
    lemma_no_hyphens(id@);
}

proof fn lemma_no_hyphens(s: Seq<char>)
    requires
        is_plain(s),
    ensures
        codex::without_hyphens(s) == s,
    decreases s.len(),
{
    let keep = |c: char| c != '-';
    reveal(Seq::filter);
    if s.len() > 0 {
        let front = s.drop_last();
        assert forall|i: int| 0 <= i < front.len() implies ('a' <= #[trigger] front[i] && front[i]
            <= 'z') || ('0' <= front[i] && front[i] <= '9') by {
            assert(front[i] == s[i]);
        }
        lemma_no_hyphens(front);
        assert(s[s.len() - 1] == s.last());
        assert(s.last() != '-');
        assert(front.push(s.last()) =~= s);
        assert(codex::without_hyphens(s) == codex::without_hyphens(front).push(s.last()));
    } else {
        assert(codex::without_hyphens(s) =~= s);
    }
}

/// Only a session that still has a name for the time being is renamed, and to the name that its
/// thread has.
pub proof fn only_pending_names_are_replaced(
    current: &str,
    cwd: &str,
    id: &str,
    named: String,
    r: Option<String>,
)
    requires
        call_ensures(codex::deterministic_tmux_name, (cwd, id), named),
        call_ensures(normalized_managed_tmux_name, (current, cwd, id), r),
    ensures
        !starts_text(current@, "rc-pending-"@) ==> r is None,
        starts_text(current@, "rc-pending-"@) && named@ != current@ ==> (r matches Some(name)
            && name@ == named@),
        named@ == current@ ==> r is None,
{
}

/// A session is renamed only where it runs in tmux.
pub proof fn only_running_threads_are_renamed(session: &Session, r: Option<String>)
    requires
        call_ensures(desired_tmux_name, (session,), r),
    ensures
        session.tmux is None ==> r is None,
        !(session.runtime is TmuxFrontend) ==> r is None,
        session.tmux is Some && !starts_text(session.tmux->0.session@, "rc-pending-"@) ==> r
            is None,
{
}

/// A session of Oh My Pi has the name of its directory and the last eight characters of its
/// identifier in the name of its session in tmux.
pub proof fn an_omp_session_is_named_by_its_directory(
    cwd: &str,
    id: &str,
    r: String,
    front: Seq<char>,
    directory: Seq<char>,
)
    requires
        call_ensures(omp::deterministic_tmux_name, (cwd, id), r),
        cwd@ == front + seq!['/'] + directory,
        directory.len() > 0,
        forall|i: int| 0 <= i < directory.len() ==> is_alphanumeric(#[trigger] directory[i]),
    ensures
        id@.len() >= 8 ==> r@ == "rc-omp-"@ + directory + "-"@ + id@.skip(id@.len() - 8),
        id@.len() < 8 ==> r@ == "rc-omp-"@ + directory + "-"@ + id@,
{
    assert(!directory.contains('/')) by {
        if directory.contains('/') {
            let k = choose|k: int| 0 <= k < directory.len() && directory[k] == '/';
            assert(is_alphanumeric(directory[k]));
        }
    }
    lemma_split_last(front, '/', directory);
    assert(omp::hyphenated(directory) =~= directory);
    if id@.len() == 8 {
        assert(id@.skip(0) =~= id@);
    }
}

// ---- session files ----

/// A line of a file, which neither begins nor ends one.
pub open spec fn is_content(line: Seq<char>) -> bool {
    line.len() > 0 && line != "END"@ && !starts_text(line, "FILE\t"@)
}

/// Each file of the listing adds the session that its lines tell of, if they tell of one, with
/// the time that its head gives; what was listed before stays.
pub proof fn a_file_adds_its_session(
    before: Seq<Seq<char>>,
    time: Seq<char>,
    path: Seq<char>,
    content: Seq<Seq<char>>,
    now: u64,
)
    requires
        !time.contains('\t'),
        forall|i: int| 0 <= i < content.len() ==> is_content(#[trigger] content[i]),
    ensures
        ({
            let head = "FILE\t"@ + time + seq!['\t'] + path;
            let mtime = match parsed_number(time, u64::MAX as nat) {
                Some(n) => n as u64,
                None => 0u64,
            };
            listing(before + seq![head] + content + seq!["END"@], now).sessions == listing(
                before,
                now,
            ).sessions + (match file_session(file_view(content), mtime, now) {
                Some(session) => seq![session],
                None => Seq::<SessionView>::empty(),
            })
        }),
{
    let head = "FILE\t"@ + time + seq!['\t'] + path;
    let mtime = match parsed_number(time, u64::MAX as nat) {
        Some(n) => n as u64,
        None => 0u64,
    };
    lemma_content(before, time, path, content, now);
    let all = before + seq![head] + content;
    assert((all + seq!["END"@]).drop_last() =~= all);
    reveal_strlit("END");
    reveal_strlit("FILE\t");
    assert(!starts_text("END"@, "FILE\t"@));
}

proof fn lemma_content(
    before: Seq<Seq<char>>,
    time: Seq<char>,
    path: Seq<char>,
    content: Seq<Seq<char>>,
    now: u64,
)
    requires
        !time.contains('\t'),
        forall|i: int| 0 <= i < content.len() ==> is_content(#[trigger] content[i]),
    ensures
        ({
            let head = "FILE\t"@ + time + seq!['\t'] + path;
            let after = listing(before + seq![head] + content, now);
            &&& after.sessions == listing(before, now).sessions
            &&& after.lines == content
            &&& after.mtime == (match parsed_number(time, u64::MAX as nat) {
                Some(n) => n as u64,
                None => 0u64,
            })
        }),
    decreases content.len(),
{
    reveal_strlit("FILE\t");
    let head = "FILE\t"@ + time + seq!['\t'] + path;
    let all = before + seq![head] + content;
    if content.len() == 0 {
        assert(all.drop_last() =~= before);
        assert(all.last() == head);
        assert(head.subrange(0, 5) =~= "FILE\t"@);
        assert(head.skip(5) =~= time + seq!['\t'] + path);
        lemma_split_first(time, '\t', path);
        assert(split_text(head.skip(5), '\t')[0] == time);
    } else {
        let front = content.drop_last();
        assert forall|i: int| 0 <= i < front.len() implies is_content(#[trigger] front[i]) by {
            assert(front[i] == content[i]);
        }
        lemma_content(before, time, path, front, now);
        assert(all.drop_last() =~= before + seq![head] + front);
        assert(all.last() == content[content.len() - 1]);
        assert(front.push(content.last()) =~= content);
    }
}

/// A limit is told to the script that lists the files; without one, it lists all.
pub proof fn the_script_is_told_its_limit(limit: Option<usize>, r: String, all: String)
    requires
        call_ensures(session_script, (limit,), r),
        call_ensures(session_script, (None::<usize>,), all),
    ensures
        limit is None ==> r@ == all@,
        limit matches Some(n) ==> r@ == "ROLLCALL_SESSION_LIMIT="@ + decimal(n as nat) + " "@
            + all@,
{
}

} // verus!
