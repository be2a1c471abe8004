//! Characters and strings: the vocabulary in which every other contract speaks of text.

use vstd::prelude::*;

verus! {

broadcast use vstd::string::group_string_axioms;

/// `String::push` appends exactly the given character.
pub assume_specification[ String::push ](string: &mut String, ch: char)
    ensures
        final(string)@ == old(string)@.push(ch),
;

/// The characters of a string, in order.
pub fn chars_of(s: &str) -> (r: Vec<char>)
    ensures
        r@ == s@,
{
    let mut r: Vec<char> = Vec::new();
    for c in it: s.chars()
        invariant
            it.seq() == s@,
            r@ == s@.take(it.index()),
    {
        r.push(c);
    }
    assert(s@.take(s@.len() as int) =~= s@);
    r
}

/// The string made of the characters `chars[from..to]`.
pub fn string_of(chars: &Vec<char>, from: usize, to: usize) -> (r: String)
    requires
        from <= to <= chars@.len(),
    ensures
        r@ == chars@.subrange(from as int, to as int),
{
    let mut r: String = String::new();
    let mut i: usize = from;
    while i < to
        invariant
            from <= i <= to <= chars@.len(),
            r@ == chars@.subrange(from as int, i as int),
        decreases to - i,
    {
        r.push(chars[i]);
        i += 1;
    }
    r
}

/// Whether two strings hold the same characters.
pub fn same(a: &str, b: &str) -> (r: bool)
    ensures
        r == (a@ == b@),
{
    a.to_owned() == b.to_owned()
}

/// The views of a sequence of strings.
pub open spec fn texts(strings: Seq<String>) -> Seq<Seq<char>> {
    strings.map_values(|s: String| s@)
}

/// Appending a string appends its characters to the views.
pub proof fn lemma_texts_push(strings: Seq<String>, s: String)
    ensures
        texts(strings.push(s)) == texts(strings).push(s@),
{
    assert(texts(strings.push(s)) =~= texts(strings).push(s@));
}

/// A copy of a list of strings.
pub fn clone_strings(strings: &Vec<String>) -> (r: Vec<String>)
    ensures
        r@ == strings@,
{
    let mut r: Vec<String> = Vec::new();
    let mut i: usize = 0;
    while i < strings.len()
        invariant
            i <= strings@.len(),
            r@ == strings@.take(i as int),
        decreases strings@.len() - i,
    {
        r.push(strings[i].clone());
        i += 1;
    }
    assert(strings@.take(strings@.len() as int) =~= strings@);
    r
}

/// The views of a list of string slices.
pub open spec fn slices(parts: Seq<&str>) -> Seq<Seq<char>> {
    parts.map_values(|s: &str| s@)
}

/// The strings of a list of string slices.
pub fn owned<const N: usize>(parts: [&str; N]) -> (r: Vec<String>)
    ensures
        texts(r@) == slices(parts@),
{
    let mut r: Vec<String> = Vec::new();
    let mut i: usize = 0;
    assert(texts(r@) =~= slices(parts@.take(0)));
    while i < N
        invariant
            i <= N == parts@.len(),
            texts(r@) == slices(parts@.take(i as int)),
        decreases N - i,
    {
        let s: String = parts[i].to_owned();
        proof {
            lemma_texts_push(r@, s);
            assert(slices(parts@.take(i + 1)) =~= slices(parts@.take(i as int)).push(
                parts@[i as int]@,
            ));
        }
        r.push(s);
        i += 1;
    }
    assert(parts@.take(i as int) =~= parts@);
    r
}

// ---- order ----

/// The lexicographic order of code points, which is the order of `str`.
pub open spec fn text_lt(a: Seq<char>, b: Seq<char>) -> bool
    decreases a.len(),
{
    if b.len() == 0 {
        false
    } else if a.len() == 0 {
        true
    } else if a[0] != b[0] {
        (a[0] as int) < (b[0] as int)
    } else {
        text_lt(a.drop_first(), b.drop_first())
    }
}

/// `a` stands before `b` or equals it.
pub open spec fn text_le(a: Seq<char>, b: Seq<char>) -> bool {
    a == b || text_lt(a, b)
}

/// No text stands before itself.
pub proof fn text_lt_irreflexive(a: Seq<char>)
    ensures
        !text_lt(a, a),
    decreases a.len(),
{
    if a.len() > 0 {
        text_lt_irreflexive(a.drop_first());
    }
}

/// The order is transitive.
pub proof fn text_lt_transitive(a: Seq<char>, b: Seq<char>, c: Seq<char>)
    requires
        text_lt(a, b),
        text_lt(b, c),
    ensures
        text_lt(a, c),
    decreases a.len(),
{
    if a.len() > 0 && a[0] == b[0] && b[0] == c[0] {
        text_lt_transitive(a.drop_first(), b.drop_first(), c.drop_first());
    }
}

/// Two texts that differ are ordered one way or the other.
pub proof fn text_lt_total(a: Seq<char>, b: Seq<char>)
    ensures
        text_lt(a, b) || a == b || text_lt(b, a),
    decreases a.len(),
{
    if a.len() == 0 || b.len() == 0 {
        if a.len() == 0 && b.len() == 0 {
            assert(a =~= b);
        }
    } else if a[0] == b[0] {
        text_lt_total(a.drop_first(), b.drop_first());
        if a.drop_first() == b.drop_first() {
            assert(a =~= seq![a[0]] + a.drop_first());
            assert(b =~= seq![b[0]] + b.drop_first());
        }
    }
}

/// The code point of a character.
fn code_of(c: char) -> (r: u32)
    ensures
        r as int == c as int,
{
    c as u32
}

/// Whether `a` stands before `b`.
pub fn lt(a: &str, b: &str) -> (r: bool)
    ensures
        r == text_lt(a@, b@),
{
    let x: Vec<char> = chars_of(a);
    let y: Vec<char> = chars_of(b);
    let mut i: usize = 0;
    assert(x@.skip(0) =~= x@);
    assert(y@.skip(0) =~= y@);
    while i < x.len() && i < y.len()
        invariant
            x@ == a@,
            y@ == b@,
            i <= x@.len(),
            i <= y@.len(),
            text_lt(x@, y@) == text_lt(x@.skip(i as int), y@.skip(i as int)),
        decreases x@.len() - i,
    {
        assert(x@.skip(i as int).drop_first() =~= x@.skip(i + 1));
        assert(y@.skip(i as int).drop_first() =~= y@.skip(i + 1));
        let c: char = x[i];
        let d: char = y[i];
        assert(x@.skip(i as int)[0] == c);
        assert(y@.skip(i as int)[0] == d);
        if c != d {
            return code_of(c) < code_of(d);
        }
        i += 1;
    }
    i < y.len()
}

// ---- searching ----

/// `needle` stands in `hay` at `i`.
pub open spec fn occurs_at(hay: Seq<char>, needle: Seq<char>, i: int) -> bool {
    0 <= i && i + needle.len() <= hay.len() && hay.subrange(i, i + needle.len()) == needle
}

/// `needle` stands somewhere in `hay`.
pub open spec fn contains_text(hay: Seq<char>, needle: Seq<char>) -> bool {
    exists|i: int| #[trigger] occurs_at(hay, needle, i)
}

/// Whether `needle` stands in `hay` at `from`.
fn stands_at(hay: &Vec<char>, needle: &Vec<char>, from: usize) -> (r: bool)
    requires
        from + needle@.len() <= hay@.len(),
    ensures
        r == occurs_at(hay@, needle@, from as int),
{
    let total: usize = hay.len();
    let mut j: usize = 0;
    while j < needle.len()
        invariant
            total == hay@.len(),
            from + needle@.len() <= hay@.len(),
            j <= needle@.len(),
            forall|k: int| 0 <= k < j ==> hay@[from + k] == needle@[k],
        decreases needle@.len() - j,
    {
        if hay[from + j] != needle[j] {
            assert(hay@.subrange(from as int, from + needle@.len())[j as int] != needle@[j as int]);
            return false;
        }
        j += 1;
    }
    assert(hay@.subrange(from as int, from + needle@.len()) =~= needle@);
    true
}

/// Whether `needle` stands somewhere in `hay`.
pub fn contains(hay: &str, needle: &str) -> (r: bool)
    ensures
        r == contains_text(hay@, needle@),
{
    let h: Vec<char> = chars_of(hay);
    let n: Vec<char> = chars_of(needle);
    if n.len() > h.len() {
        return false;
    }
    let mut i: usize = 0;
    while i <= h.len() - n.len()
        invariant
            h@ == hay@,
            n@ == needle@,
            n@.len() <= h@.len(),
            i <= h@.len() - n@.len() + 1,
            forall|k: int| 0 <= k < i ==> !occurs_at(h@, n@, k),
        decreases h@.len() + 1 - i,
    {
        if stands_at(&h, &n, i) {
            return true;
        }
        if i == h.len() - n.len() {
            assert forall|k: int| !occurs_at(h@, n@, k) by {}
            return false;
        }
        i += 1;
    }
    false
}

/// `s` begins with `prefix`.
pub open spec fn starts_text(s: Seq<char>, prefix: Seq<char>) -> bool {
    occurs_at(s, prefix, 0)
}

/// Whether `s` begins with `prefix`.
pub fn starts_with(s: &str, prefix: &str) -> (r: bool)
    ensures
        r == starts_text(s@, prefix@),
{
    let h: Vec<char> = chars_of(s);
    let n: Vec<char> = chars_of(prefix);
    n.len() <= h.len() && stands_at(&h, &n, 0)
}

/// What follows `prefix`, where `s` begins with it.
pub fn strip_prefix(s: &str, prefix: &str) -> (r: Option<String>)
    ensures
        r is Some <==> starts_text(s@, prefix@),
        r matches Some(rest) ==> rest@ == s@.skip(prefix@.len() as int),
{
    let h: Vec<char> = chars_of(s);
    let n: Vec<char> = chars_of(prefix);
    if n.len() <= h.len() && stands_at(&h, &n, 0) {
        assert(h@.subrange(n@.len() as int, h@.len() as int) =~= s@.skip(prefix@.len() as int));
        Some(string_of(&h, n.len(), h.len()))
    } else {
        None
    }
}

/// How many characters stand before the first `c`, or the length where there is none.
pub open spec fn first_index(s: Seq<char>, c: char) -> nat
    decreases s.len(),
{
    if s.len() == 0 || s[0] == c {
        0
    } else {
        1 + first_index(s.drop_first(), c)
    }
}

/// What `first_index` finds.
pub proof fn lemma_first_index(s: Seq<char>, c: char)
    ensures
        first_index(s, c) <= s.len(),
        first_index(s, c) < s.len() ==> s[first_index(s, c) as int] == c,
        forall|j: int| 0 <= j < first_index(s, c) ==> s[j] != c,
        (first_index(s, c) < s.len()) == s.contains(c),
    decreases s.len(),
{
    if s.len() > 0 && s[0] != c {
        lemma_first_index(s.drop_first(), c);
        assert forall|j: int| 0 <= j < first_index(s, c) implies s[j] != c by {
            if j > 0 {
                assert(s.drop_first()[j - 1] == s[j]);
            }
        }
        if s.contains(c) {
            let k = choose|k: int| 0 <= k < s.len() && s[k] == c;
            assert(s.drop_first()[k - 1] == c);
        }
    }
}

/// The number that `lemma_first_index` describes is unique.
pub proof fn lemma_first_index_is(s: Seq<char>, c: char, n: int)
    requires
        0 <= n <= s.len(),
        n < s.len() ==> s[n] == c,
        forall|j: int| 0 <= j < n ==> s[j] != c,
    ensures
        first_index(s, c) == n,
{
    lemma_first_index(s, c);
}

/// Finds the first `c` in `chars[from..]`.
pub fn find(chars: &Vec<char>, from: usize, c: char) -> (r: usize)
    requires
        from <= chars@.len(),
    ensures
        from <= r <= chars@.len(),
        r - from == first_index(chars@.skip(from as int), c),
{
    let mut i: usize = from;
    while i < chars.len() && chars[i] != c
        invariant
            from <= i <= chars@.len(),
            forall|j: int| from <= j < i ==> chars@[j] != c,
        decreases chars@.len() - i,
    {
        i += 1;
    }
    proof {
        lemma_first_index_is(chars@.skip(from as int), c, i - from);
    }
    i
}

/// Whether the string holds `c`.
pub fn contains_char(s: &str, c: char) -> (r: bool)
    ensures
        r == s@.contains(c),
{
    let chars: Vec<char> = chars_of(s);
    let i: usize = find(&chars, 0, c);
    proof {
        assert(chars@.skip(0) =~= chars@);
        lemma_first_index(chars@, c);
    }
    i < chars.len()
}

// ---- splitting ----

/// The pieces of `s` between the occurrences of `c`.
pub open spec fn split_text(s: Seq<char>, c: char) -> Seq<Seq<char>>
    decreases s.len(),
{
    let i = first_index(s, c) as int;
    if i >= s.len() {
        seq![s]
    } else {
        seq![s.take(i)] + split_text(s.skip(i + 1), c)
    }
}

/// The pieces of `s` between the occurrences of `c`.
pub fn split(s: &str, c: char) -> (r: Vec<String>)
    ensures
        texts(r@) == split_text(s@, c),
{
    let chars: Vec<char> = chars_of(s);
    let mut r: Vec<String> = Vec::new();
    let mut from: usize = 0;
    assert(chars@.skip(0) =~= chars@);
    assert(texts(r@) + split_text(chars@, c) =~= split_text(chars@, c));
    loop
        invariant
            chars@ == s@,
            from <= chars@.len(),
            texts(r@) + split_text(chars@.skip(from as int), c) == split_text(s@, c),
        decreases chars@.len() - from,
    {
        let i: usize = find(&chars, from, c);
        let ghost rest = chars@.skip(from as int);
        let ghost before = texts(r@);
        let piece: String = string_of(&chars, from, i);
        proof {
            lemma_first_index(rest, c);
            assert(piece@ =~= rest.take(i - from));
            lemma_texts_push(r@, piece);
        }
        r.push(piece);
        if i == chars.len() {
            proof {
                assert(rest.take(i - from) =~= rest);
                assert(texts(r@) =~= before + seq![rest]);
            }
            return r;
        }
        proof {
            assert(rest.skip(i - from + 1) =~= chars@.skip(i + 1));
            assert(texts(r@) + split_text(chars@.skip(i + 1), c) =~= before + (seq![
                rest.take(i - from),
            ] + split_text(chars@.skip(i + 1), c)));
        }
        from = i + 1;
    }
}

/// Splitting at `c` a text that begins with a piece without `c` and then `c`.
pub proof fn lemma_split_first(head: Seq<char>, c: char, tail: Seq<char>)
    requires
        !head.contains(c),
    ensures
        first_index(head + seq![c] + tail, c) == head.len(),
        split_text(head + seq![c] + tail, c) == seq![head] + split_text(tail, c),
{
    let s = head + seq![c] + tail;
    assert forall|j: int| 0 <= j < head.len() implies s[j] != c by {
        assert(head[j] == s[j]);
    }
    lemma_first_index_is(s, c, head.len() as int);
    assert(s.take(head.len() as int) =~= head);
    assert(s.skip(head.len() as int + 1) =~= tail);
}

/// A line without the carriage return that ends it.
pub open spec fn without_cr(s: Seq<char>) -> Seq<char> {
    if s.len() > 0 && s.last() == '\r' {
        s.drop_last()
    } else {
        s
    }
}

/// The lines of a text: each ends at a line feed, which is dropped together with a
/// carriage return before it. A last line without a line feed is kept as it is.
pub open spec fn lines_of(s: Seq<char>) -> Seq<Seq<char>>
    decreases s.len(),
{
    if s.len() == 0 {
        Seq::empty()
    } else {
        let i = first_index(s, '\n') as int;
        if i >= s.len() {
            seq![s]
        } else {
            seq![without_cr(s.take(i))] + lines_of(s.skip(i + 1))
        }
    }
}

/// The lines of a text.
pub fn lines(s: &str) -> (r: Vec<String>)
    ensures
        texts(r@) == lines_of(s@),
{
    let chars: Vec<char> = chars_of(s);
    let mut r: Vec<String> = Vec::new();
    let mut from: usize = 0;
    assert(chars@.skip(0) =~= chars@);
    assert(texts(r@) + lines_of(chars@) =~= lines_of(chars@));
    while from < chars.len()
        invariant
            chars@ == s@,
            from <= chars@.len(),
            texts(r@) + lines_of(chars@.skip(from as int)) == lines_of(s@),
        decreases chars@.len() - from,
    {
        let i: usize = find(&chars, from, '\n');
        let ghost rest = chars@.skip(from as int);
        let ghost before = texts(r@);
        proof {
            lemma_first_index(rest, '\n');
        }
        if i == chars.len() {
            let piece: String = string_of(&chars, from, i);
            proof {
                assert(piece@ =~= rest);
                lemma_texts_push(r@, piece);
            }
            r.push(piece);
            assert(texts(r@) =~= before + seq![rest]);
            return r;
        }
        let end: usize = if i > from && chars[i - 1] == '\r' { i - 1 } else { i };
        let piece: String = string_of(&chars, from, end);
        proof {
            assert(piece@ =~= without_cr(rest.take(i - from)));
            lemma_texts_push(r@, piece);
            assert(rest.skip(i - from + 1) =~= chars@.skip(i + 1));
        }
        r.push(piece);
        proof {
            assert(texts(r@) + lines_of(chars@.skip(i + 1)) =~= before + (seq![
                without_cr(rest.take(i - from)),
            ] + lines_of(chars@.skip(i + 1))));
        }
        from = i + 1;
    }
    assert(chars@.skip(from as int) =~= Seq::<char>::empty());
    assert(texts(r@) + Seq::<Seq<char>>::empty() =~= texts(r@));
    r
}

// ---- white space and control characters ----

/// The characters with the Unicode property `White_Space`.
pub open spec fn is_space(c: char) -> bool {
    let n = c as int;
    ||| 9 <= n <= 13
    ||| n == 0x20
    ||| n == 0x85
    ||| n == 0xA0
    ||| n == 0x1680
    ||| 0x2000 <= n <= 0x200A
    ||| n == 0x2028
    ||| n == 0x2029
    ||| n == 0x202F
    ||| n == 0x205F
    ||| n == 0x3000
}

/// Whether the character is white space.
pub fn is_whitespace(c: char) -> (r: bool)
    ensures
        r == is_space(c),
{
    let n: u32 = c as u32;
    (9 <= n && n <= 13) || n == 0x20 || n == 0x85 || n == 0xA0 || n == 0x1680 || (0x2000 <= n && n
        <= 0x200A) || n == 0x2028 || n == 0x2029 || n == 0x202F || n == 0x205F || n == 0x3000
}

/// The characters of the Unicode category `Cc`.
pub open spec fn is_control_char(c: char) -> bool {
    (c as int) < 0x20 || 0x7F <= (c as int) <= 0x9F
}

/// Whether the character is a control character.
pub fn is_control(c: char) -> (r: bool)
    ensures
        r == is_control_char(c),
{
    let n: u32 = c as u32;
    n < 0x20 || (0x7F <= n && n <= 0x9F)
}

/// How many characters at the start of `s` are white space.
pub open spec fn leading_spaces(s: Seq<char>) -> nat
    decreases s.len(),
{
    if s.len() > 0 && is_space(s[0]) {
        1 + leading_spaces(s.drop_first())
    } else {
        0
    }
}

/// How many characters at the start of `s` are not white space.
pub open spec fn word_len(s: Seq<char>) -> nat
    decreases s.len(),
{
    if s.len() > 0 && !is_space(s[0]) {
        1 + word_len(s.drop_first())
    } else {
        0
    }
}

/// The number of leading spaces is bounded by the length.
pub proof fn lemma_leading_spaces(s: Seq<char>)
    ensures
        leading_spaces(s) <= s.len(),
        forall|j: int| 0 <= j < leading_spaces(s) ==> is_space(#[trigger] s[j]),
        leading_spaces(s) < s.len() ==> !is_space(s[leading_spaces(s) as int]),
    decreases s.len(),
{
    if s.len() > 0 && is_space(s[0]) {
        lemma_leading_spaces(s.drop_first());
        assert forall|j: int| 0 <= j < leading_spaces(s) implies is_space(#[trigger] s[j]) by {
            if j > 0 {
                assert(s.drop_first()[j - 1] == s[j]);
            }
        }
    }
}

/// The number that `lemma_leading_spaces` describes is unique.
pub proof fn lemma_leading_spaces_is(s: Seq<char>, n: int)
    requires
        0 <= n <= s.len(),
        forall|j: int| 0 <= j < n ==> is_space(#[trigger] s[j]),
        n < s.len() ==> !is_space(s[n]),
    ensures
        leading_spaces(s) == n,
{
    lemma_leading_spaces(s);
    if leading_spaces(s) < n {
        assert(is_space(s[leading_spaces(s) as int]));
    } else if n < leading_spaces(s) {
        assert(is_space(s[n]));
    }
}

/// The first word is bounded by the length.
pub proof fn lemma_word_len(s: Seq<char>)
    ensures
        word_len(s) <= s.len(),
        forall|j: int| 0 <= j < word_len(s) ==> !is_space(#[trigger] s[j]),
        word_len(s) < s.len() ==> is_space(s[word_len(s) as int]),
        s.len() > 0 && !is_space(s[0]) ==> word_len(s) > 0,
    decreases s.len(),
{
    if s.len() > 0 && !is_space(s[0]) {
        lemma_word_len(s.drop_first());
        assert forall|j: int| 0 <= j < word_len(s) implies !is_space(#[trigger] s[j]) by {
            if j > 0 {
                assert(s.drop_first()[j - 1] == s[j]);
            }
        }
    }
}

/// The number that `lemma_word_len` describes is unique.
pub proof fn lemma_word_len_is(s: Seq<char>, n: int)
    requires
        0 <= n <= s.len(),
        forall|j: int| 0 <= j < n ==> !is_space(#[trigger] s[j]),
        n < s.len() ==> is_space(s[n]),
    ensures
        word_len(s) == n,
{
    lemma_word_len(s);
    if word_len(s) < n {
        assert(!is_space(s[word_len(s) as int]));
    } else if n < word_len(s) {
        assert(!is_space(s[n]));
    }
}

/// `s` without the white space at its start.
pub open spec fn trimmed_start(s: Seq<char>) -> Seq<char> {
    s.skip(leading_spaces(s) as int)
}

/// `s` without the white space at its end.
pub open spec fn trimmed_end(s: Seq<char>) -> Seq<char>
    decreases s.len(),
{
    if s.len() > 0 && is_space(s.last()) {
        trimmed_end(s.drop_last())
    } else {
        s
    }
}

/// `s` without the white space at its two ends.
pub open spec fn trimmed(s: Seq<char>) -> Seq<char> {
    trimmed_end(trimmed_start(s))
}

/// The index of the first character of `chars[from..]` that is not white space.
fn skip_spaces(chars: &Vec<char>, from: usize) -> (r: usize)
    requires
        from <= chars@.len(),
    ensures
        from <= r <= chars@.len(),
        r - from == leading_spaces(chars@.skip(from as int)),
        r < chars@.len() ==> !is_space(chars@[r as int]),
{
    let mut i: usize = from;
    while i < chars.len() && is_whitespace(chars[i])
        invariant
            from <= i <= chars@.len(),
            forall|j: int| from <= j < i ==> is_space(#[trigger] chars@[j]),
        decreases chars@.len() - i,
    {
        i += 1;
    }
    proof {
        lemma_leading_spaces_is(chars@.skip(from as int), i - from);
    }
    i
}

/// The string without the white space at its two ends.
pub fn trim(s: &str) -> (r: String)
    ensures
        r@ == trimmed(s@),
{
    let chars: Vec<char> = chars_of(s);
    let from: usize = skip_spaces(&chars, 0);
    let mut to: usize = chars.len();
    assert(chars@.skip(0) =~= chars@);
    assert(chars@.subrange(from as int, to as int) =~= trimmed_start(s@));
    while to > from && is_whitespace(chars[to - 1])
        invariant
            from <= to <= chars@.len(),
            trimmed_end(chars@.subrange(from as int, to as int)) == trimmed(s@),
        decreases to,
    {
        assert(chars@.subrange(from as int, to as int).drop_last() =~= chars@.subrange(
            from as int,
            to - 1,
        ));
        to -= 1;
    }
    string_of(&chars, from, to)
}

/// The words of a text: its maximal pieces without white space.
pub open spec fn words_of(s: Seq<char>) -> Seq<Seq<char>>
    decreases s.len(),
{
    proof {
        lemma_words_defined(s);
    }
    let t = trimmed_start(s);
    if t.len() == 0 {
        Seq::empty()
    } else {
        seq![t.take(word_len(t) as int)] + words_of(t.skip(word_len(t) as int))
    }
}

/// The bounds within which `words_of` cuts.
pub proof fn lemma_words_defined(s: Seq<char>)
    ensures
        leading_spaces(s) <= s.len(),
        word_len(trimmed_start(s)) <= trimmed_start(s).len(),
        trimmed_start(s).len() > 0 ==> word_len(trimmed_start(s)) > 0,
{
    lemma_leading_spaces(s);
    lemma_word_len(trimmed_start(s));
}

/// The words of a text.
pub fn words(s: &str) -> (r: Vec<String>)
    ensures
        texts(r@) == words_of(s@),
{
    let chars: Vec<char> = chars_of(s);
    let mut r: Vec<String> = Vec::new();
    let mut from: usize = 0;
    assert(chars@.skip(0) =~= chars@);
    assert(texts(r@) + words_of(chars@) =~= words_of(chars@));
    loop
        invariant
            chars@ == s@,
            from <= chars@.len(),
            texts(r@) + words_of(chars@.skip(from as int)) == words_of(s@),
        decreases chars@.len() - from,
    {
        let start: usize = skip_spaces(&chars, from);
        let ghost rest = chars@.skip(from as int);
        let ghost t = trimmed_start(rest);
        let ghost before = texts(r@);
        proof {
            lemma_words_defined(rest);
            assert(t =~= chars@.skip(start as int));
        }
        if start == chars.len() {
            assert(words_of(rest) =~= Seq::<Seq<char>>::empty());
            assert(texts(r@) + Seq::<Seq<char>>::empty() =~= texts(r@));
            return r;
        }
        let mut end: usize = start;
        while end < chars.len() && !is_whitespace(chars[end])
            invariant
                start <= end <= chars@.len(),
                forall|j: int| start <= j < end ==> !is_space(#[trigger] chars@[j]),
            decreases chars@.len() - end,
        {
            end += 1;
        }
        let piece: String = string_of(&chars, start, end);
        proof {
            lemma_word_len_is(t, end - start);
            assert(piece@ =~= t.take(end - start));
            lemma_texts_push(r@, piece);
            assert(t.skip(end - start) =~= chars@.skip(end as int));
        }
        r.push(piece);
        proof {
            assert(texts(r@) + words_of(chars@.skip(end as int)) =~= before + (seq![
                t.take(end - start),
            ] + words_of(chars@.skip(end as int))));
        }
        from = end;
    }
}

// ---- joining and clipping ----

/// The pieces with `separator` between each two.
pub open spec fn joined(pieces: Seq<Seq<char>>, separator: Seq<char>) -> Seq<char>
    decreases pieces.len(),
{
    if pieces.len() == 0 {
        Seq::empty()
    } else if pieces.len() == 1 {
        pieces[0]
    } else {
        joined(pieces.drop_last(), separator) + separator + pieces.last()
    }
}

/// The pieces with `separator` between each two.
pub fn join_with(pieces: &Vec<String>, separator: &str) -> (r: String)
    ensures
        r@ == joined(texts(pieces@), separator@),
{
    let ghost views = texts(pieces@);
    let mut r: String = String::new();
    let mut i: usize = 0;
    assert(views.take(0) =~= Seq::<Seq<char>>::empty());
    while i < pieces.len()
        invariant
            i <= pieces@.len(),
            views == texts(pieces@),
            r@ == joined(views.take(i as int), separator@),
        decreases pieces@.len() - i,
    {
        proof {
            assert(views.take(i + 1).drop_last() =~= views.take(i as int));
            assert(views.take(i + 1).last() == pieces@[i as int]@);
        }
        if i > 0 {
            r.append(separator);
        }
        r.append(pieces[i].as_str());
        assert(r@ =~= joined(views.take(i + 1), separator@));
        i += 1;
    }
    assert(views.take(i as int) =~= views);
    r
}

/// At most `n` characters of a text, and an ellipsis where there were more.
pub open spec fn clipped(s: Seq<char>, n: nat) -> Seq<char> {
    if s.len() <= n {
        s
    } else {
        s.take(n as int).push('\u{2026}')
    }
}

/// At most `n` characters of a text, and an ellipsis where there were more.
pub fn clip(s: &str, n: usize) -> (r: String)
    ensures
        r@ == clipped(s@, n as nat),
{
    let chars: Vec<char> = chars_of(s);
    if chars.len() <= n {
        return s.to_owned();
    }
    let mut r: String = string_of(&chars, 0, n);
    assert(r@ =~= s@.take(n as int));
    r.push('\u{2026}');
    r
}

/// The bytes of a character in UTF-8.
pub open spec fn utf8_width(c: char) -> nat {
    if (c as int) < 0x80 {
        1
    } else if (c as int) < 0x800 {
        2
    } else if (c as int) < 0x10000 {
        3
    } else {
        4
    }
}

/// The bytes of a text in UTF-8.
pub open spec fn utf8_len(s: Seq<char>) -> nat
    decreases s.len(),
{
    if s.len() == 0 {
        0
    } else {
        utf8_len(s.drop_last()) + utf8_width(s.last())
    }
}

/// The bytes of a character in UTF-8.
pub fn width_of(c: char) -> (r: usize)
    ensures
        r == utf8_width(c),
        1 <= r <= 4,
{
    let n: u32 = c as u32;
    if n < 0x80 {
        1
    } else if n < 0x800 {
        2
    } else if n < 0x10000 {
        3
    } else {
        4
    }
}

/// The bytes of two texts, one behind the other.
pub proof fn lemma_utf8_len_add(a: Seq<char>, b: Seq<char>)
    ensures
        utf8_len(a + b) == utf8_len(a) + utf8_len(b),
    decreases b.len(),
{
    if b.len() == 0 {
        assert(a + b =~= a);
    } else {
        lemma_utf8_len_add(a, b.drop_last());
        assert((a + b).drop_last() =~= a + b.drop_last());
        assert((a + b).last() == b.last());
    }
}

/// A text has at least as many bytes as characters.
pub proof fn lemma_utf8_len_bound(s: Seq<char>)
    ensures
        s.len() <= utf8_len(s) <= 4 * s.len(),
    decreases s.len(),
{
    if s.len() > 0 {
        lemma_utf8_len_bound(s.drop_last());
    }
}

/// Whether a text has fewer bytes in UTF-8 than another.
pub fn shorter(a: &str, b: &str) -> (r: bool)
    ensures
        r == (utf8_len(a@) < utf8_len(b@)),
{
    byte_count(a) < byte_count(b)
}

/// The bytes of a text in UTF-8.
pub fn byte_count(s: &str) -> (r: u128)
    ensures
        r == utf8_len(s@),
{
    let chars: Vec<char> = chars_of(s);
    let mut n: u128 = 0;
    let mut i: usize = 0;
    while i < chars.len()
        invariant
            i <= chars@.len(),
            n == utf8_len(chars@.take(i as int)),
            n <= 4 * i,
        decreases chars@.len() - i,
    {
        assert(chars@.take(i + 1).drop_last() =~= chars@.take(i as int));
        n = n + width_of(chars[i]) as u128;
        i += 1;
    }
    assert(chars@.take(i as int) =~= s@);
    n
}

// ---- paths ----

/// The last component of a path where it is a name: empty components and single dots do not
/// count, and two dots are no name.
pub open spec fn file_name_text(path: Seq<char>) -> Option<Seq<char>> {
    let parts = split_text(path, '/').filter(|part: Seq<char>| part.len() > 0 && part != "."@);
    if parts.len() == 0 || parts.last() == ".."@ {
        None
    } else {
        Some(parts.last())
    }
}

/// The last component of a path where it is a name.
pub fn file_name(path: &str) -> (r: Option<String>)
    ensures
        r is Some <==> file_name_text(path@) is Some,
        r matches Some(name) ==> file_name_text(path@) == Some(name@),
{
    let pieces: Vec<String> = split(path, '/');
    let ghost views = texts(pieces@);
    let ghost keep = |part: Seq<char>| part.len() > 0 && part != "."@;
    let ghost empty = Seq::<Seq<char>>::empty();
    let mut last: Option<String> = None;
    let mut i: usize = 0;
    assert(views.take(0).filter(keep) =~= empty) by {
        reveal(Seq::filter);
    }
    while i < pieces.len()
        invariant
            i <= pieces@.len(),
            views == texts(pieces@),
            keep == (|part: Seq<char>| part.len() > 0 && part != "."@),
            last is None <==> views.take(i as int).filter(keep).len() == 0,
            last matches Some(part) ==> views.take(i as int).filter(keep).last() == part@,
        decreases pieces@.len() - i,
    {
        let piece: &String = &pieces[i];
        proof {
            assert(views[i as int] == piece@);
            assert(views.take(i + 1) =~= views.take(i as int).push(piece@));
            views.take(i as int).lemma_filter_push(piece@, keep);
        }
        if !piece.as_str().is_empty() && !same(piece.as_str(), ".") {
            last = Some(piece.clone());
        }
        i += 1;
    }
    assert(views.take(i as int) =~= views);
    match last {
        Some(part) => if same(part.as_str(), "..") {
            None
        } else {
            Some(part)
        },
        None => None,
    }
}

/// A relative path below a directory; an absolute one replaces it.
pub open spec fn join_path_text(base: Seq<char>, path: Seq<char>) -> Seq<char> {
    if path.len() > 0 && path[0] == '/' {
        path
    } else if base.len() == 0 || base.last() == '/' {
        base + path
    } else {
        base + seq!['/'] + path
    }
}

/// A relative path below a directory; an absolute one replaces it.
pub fn join_path(base: &str, path: &str) -> (r: String)
    ensures
        r@ == join_path_text(base@, path@),
{
    let head: Vec<char> = chars_of(base);
    let tail: Vec<char> = chars_of(path);
    if tail.len() > 0 && tail[0] == '/' {
        return path.to_owned();
    }
    let mut r: String = base.to_owned();
    if head.len() > 0 && head[head.len() - 1] != '/' {
        r.push('/');
    }
    r.append(path);
    assert(r@ =~= join_path_text(base@, path@));
    r
}

// ---- mapping characters ----

/// An upper-case ASCII letter becomes lower case; anything else stays.
pub open spec fn ascii_lower_char(c: char) -> char {
    if 'A' <= c && c <= 'Z' {
        ((c as int) + 32) as char
    } else {
        c
    }
}

/// The text with its ASCII letters in lower case.
pub open spec fn ascii_lower(s: Seq<char>) -> Seq<char> {
    s.map_values(|c: char| ascii_lower_char(c))
}

/// The string with its ASCII letters in lower case.
pub fn to_ascii_lower(s: &str) -> (r: String)
    ensures
        r@ == ascii_lower(s@),
{
    let chars: Vec<char> = chars_of(s);
    let mut r: String = String::new();
    let mut i: usize = 0;
    while i < chars.len()
        invariant
            i <= chars@.len(),
            r@ == ascii_lower(chars@.take(i as int)),
        decreases chars@.len() - i,
    {
        let c: char = chars[i];
        let lower: char = ascii_lower_of(c);
        assert(chars@.take(i + 1) =~= chars@.take(i as int).push(c));
        r.push(lower);
        i += 1;
        assert(r@ =~= ascii_lower(chars@.take(i as int)));
    }
    assert(chars@.take(i as int) =~= s@);
    r
}

/// The character in lower case where it is an ASCII letter.
pub fn ascii_lower_of(c: char) -> (r: char)
    ensures
        r == ascii_lower_char(c),
{
    if 'A' <= c && c <= 'Z' {
        ((c as u8) + 32) as char
    } else {
        c
    }
}

/// The lower-case form of a text, as `str::to_lowercase` gives it.
pub uninterp spec fn lowercase_text(s: Seq<char>) -> Seq<char>;

/// `str::to_lowercase` maps a text to the lower case that Unicode defines for it. The result
/// depends on the text alone and is named, not spelled out.
#[verifier::external_body]
pub(crate) fn lowercase(s: &str) -> (r: String)
    ensures
        r@ == lowercase_text(s@),
{
    s.to_lowercase()
}

/// Texts in lower case.
pub open spec fn lowered(values: Seq<Seq<char>>) -> Seq<Seq<char>> {
    values.map_values(|value: Seq<char>| lowercase_text(value))
}

/// Texts in lower case.
pub fn lowercase_all(values: &Vec<String>) -> (r: Vec<String>)
    ensures
        texts(r@) == lowered(texts(values@)),
{
    let mut r: Vec<String> = Vec::new();
    let mut i: usize = 0;
    while i < values.len()
        invariant
            i <= values@.len(),
            r@.len() == i,
            forall|j: int| 0 <= j < i ==> (#[trigger] r@[j])@ == lowercase_text(values@[j]@),
        decreases values@.len() - i,
    {
        r.push(lowercase(values[i].as_str()));
        i += 1;
    }
    assert(texts(r@) =~= lowered(texts(values@)));
    r
}

/// The quoted and escaped form of a text, as `<str as Debug>` writes it.
pub uninterp spec fn debug_text(s: Seq<char>) -> Seq<char>;

/// `<str as Debug>::fmt` writes a text in double quotes with escapes. The result depends on
/// the text alone and is named, not spelled out.
#[verifier::external_body]
pub(crate) fn debug(s: &str) -> (r: String)
    ensures
        r@ == debug_text(s@),
{
    format!("{s:?}")
}

// ---- numbers ----

/// The character of a digit.
pub open spec fn digit_char(d: nat) -> char {
    (('0' as nat) + d) as char
}

/// The decimal form of a number.
pub open spec fn decimal(n: nat) -> Seq<char>
    decreases n,
{
    if n < 10 {
        seq![digit_char(n)]
    } else {
        decimal(n / 10).push(digit_char(n % 10))
    }
}

/// The decimal form of a number.
pub fn decimal_of(n: u64) -> (r: String)
    ensures
        r@ == decimal(n as nat),
    decreases n,
{
    let digit: char = (48 + (n % 10) as u8) as char;
    if n < 10 {
        let mut r: String = String::new();
        r.push(digit);
        assert(r@ =~= decimal(n as nat));
        r
    } else {
        let mut r: String = decimal_of(n / 10);
        r.push(digit);
        r
    }
}

/// The value of a digit character.
pub open spec fn digit_value(c: char) -> nat {
    ((c as int) - ('0' as int)) as nat
}

/// Every character is a decimal digit.
pub open spec fn all_digits(s: Seq<char>) -> bool {
    forall|i: int| 0 <= i < s.len() ==> '0' <= #[trigger] s[i] && s[i] <= '9'
}

/// The number that a sequence of digits stands for.
pub open spec fn digits_value(s: Seq<char>) -> nat
    decreases s.len(),
{
    if s.len() == 0 {
        0
    } else {
        digits_value(s.drop_last()) * 10 + digit_value(s.last())
    }
}

/// The digits of a number's text: what follows a leading plus sign, or all of it.
pub open spec fn number_digits(s: Seq<char>) -> Seq<char> {
    if s.len() > 1 && s[0] == '+' {
        s.skip(1)
    } else {
        s
    }
}

/// The number that a text stands for where it is at most `max`: a plus sign may stand
/// before one or more digits.
pub open spec fn parsed_number(s: Seq<char>, max: nat) -> Option<nat> {
    let d = number_digits(s);
    if d.len() > 0 && all_digits(d) && digits_value(d) <= max {
        Some(digits_value(d))
    } else {
        None
    }
}

/// A longer sequence of digits does not stand for less.
pub proof fn lemma_digits_monotone(s: Seq<char>, n: int)
    requires
        0 <= n <= s.len(),
    ensures
        digits_value(s.take(n)) <= digits_value(s),
    decreases s.len() - n,
{
    if n < s.len() {
        lemma_digits_monotone(s, n + 1);
        assert(s.take(n + 1).drop_last() =~= s.take(n));
    } else {
        assert(s.take(n) =~= s);
    }
}

/// Reads a number of at most `max`.
pub fn parse_number(s: &str, max: u64) -> (r: Option<u64>)
    ensures
        r is Some <==> parsed_number(s@, max as nat) is Some,
        r matches Some(n) ==> parsed_number(s@, max as nat) == Some(n as nat),
{
    let chars: Vec<char> = chars_of(s);
    let from: usize = if chars.len() > 1 && chars[0] == '+' { 1 } else { 0 };
    let ghost d = number_digits(s@);
    assert(d =~= chars@.skip(from as int));
    if from == chars.len() {
        return None;
    }
    let mut value: u64 = 0;
    let mut i: usize = from;
    while i < chars.len()
        invariant
            from <= i <= chars@.len(),
            d == chars@.skip(from as int),
            d == number_digits(s@),
            value <= max,
            forall|j: int| 0 <= j < i - from ==> '0' <= #[trigger] d[j] && d[j] <= '9',
            value == digits_value(d.take(i - from)),
        decreases chars@.len() - i,
    {
        let c: char = chars[i];
        assert(d[i - from] == c);
        if !('0' <= c && c <= '9') {
            return None;
        }
        let digit: u64 = (c as u32 - '0' as u32) as u64;
        proof {
            assert(d.take(i - from + 1).drop_last() =~= d.take(i - from));
            assert(digits_value(d.take(i - from + 1)) == value * 10 + digit);
            lemma_digits_monotone(d, i - from + 1);
        }
        if value > max / 10 || digit > max - value * 10 {
            return None;
        }
        value = value * 10 + digit;
        i += 1;
    }
    assert(d.take(i - from) =~= d);
    Some(value)
}

} // verus!
