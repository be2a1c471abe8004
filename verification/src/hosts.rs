//! The hosts of the user's OpenSSH configuration.

use vstd::prelude::*;

use crate::order::{ranked, stable_sort, Ranked};
use crate::paths::{in_path_order, sort_paths};
use crate::quoting::{shell_words, split};
use crate::text::{
    ascii_lower, chars_of, contains_char, debug, debug_text, is_space, is_whitespace, join_path,
    join_path_text, lemma_texts_push, lemma_word_len_is, lines, lines_of, lt, owned, parse_number,
    parsed_number, same, starts_text, string_of, strip_prefix, text_le, text_lt, text_lt_total,
    text_lt_transitive, texts, to_ascii_lower, trim, trimmed, word_len,
};
use crate::tmux::CommandOutcome;

verus! {

/// Whether a host can be reached, as far as the configuration tells.
#[derive(Clone, Copy, Debug, Eq, PartialEq, Structural)]
pub enum ConnectivityState {
    Unknown,
}

/// A host of the configuration with the settings that OpenSSH resolved for it.
#[derive(Debug, Eq, PartialEq)]
pub struct SshHost {
    pub alias: String,
    pub hostname: String,
    pub user: Option<String>,
    pub port: u16,
    pub source: String,
    pub identity_files: Vec<String>,
    pub connectivity: ConnectivityState,
    pub resolution_error: Option<String>,
}

/// Why the hosts could not be read.
#[derive(Debug, Eq, PartialEq)]
pub enum HostDiscoveryError {
    MissingHome,
    ReadConfig { path: String, source: String },
    InvalidInclude { pattern: String, message: String },
    StartSsh(String),
}

impl HostDiscoveryError {
    /// What the user is told.
    pub open spec fn text(self) -> Seq<char> {
        match self {
            HostDiscoveryError::MissingHome => "HOME is not set"@,
            HostDiscoveryError::ReadConfig { path, source } => "could not read SSH config "@ + path@
                + ": "@ + source@,
            HostDiscoveryError::InvalidInclude { pattern, message } =>
                "invalid SSH Include pattern "@ + debug_text(pattern@) + ": "@ + message@,
            HostDiscoveryError::StartSsh(source) => "could not start ssh -G: "@ + source@,
        }
    }

    /// What the user is told.
    pub fn message(&self) -> (r: String)
        ensures
            r@ == self.text(),
    {
        match self {
            HostDiscoveryError::MissingHome => "HOME is not set".to_owned(),
            HostDiscoveryError::ReadConfig { path, source } => {
                let mut r: String = "could not read SSH config ".to_owned();
                r.append(path.as_str());
                r.append(": ");
                r.append(source.as_str());
                r
            },
            HostDiscoveryError::InvalidInclude { pattern, message } => {
                let mut r: String = "invalid SSH Include pattern ".to_owned();
                r.append(debug(pattern.as_str()).as_str());
                r.append(": ");
                r.append(message.as_str());
                r
            },
            HostDiscoveryError::StartSsh(source) => {
                let mut r: String = "could not start ssh -G: ".to_owned();
                r.append(source.as_str());
                r
            },
        }
    }
}

// ---- lines of the configuration ----

/// A name that can be connected to: not empty, no option, no negation and no pattern.
pub open spec fn is_literal(candidate: Seq<char>) -> bool {
    &&& candidate.len() > 0
    &&& candidate[0] != '-'
    &&& candidate[0] != '!'
    &&& !candidate.contains('*')
    &&& !candidate.contains('?')
    &&& !candidate.contains('[')
    &&& !candidate.contains(']')
}

/// Whether a name can be connected to.
pub fn is_literal_alias(candidate: &str) -> (r: bool)
    ensures
        r == is_literal(candidate@),
{
    let chars: Vec<char> = chars_of(candidate);
    chars.len() > 0 && chars[0] != '-' && chars[0] != '!' && !contains_char(candidate, '*')
        && !contains_char(candidate, '?') && !contains_char(candidate, '[') && !contains_char(
        candidate,
        ']',
    )
}

/// What a line of the configuration is about.
#[derive(Debug, Eq, PartialEq)]
pub enum ConfigLine {
    /// It names hosts.
    Hosts(Vec<String>),
    /// It reads other files.
    Files(Vec<String>),
    /// Anything else.
    Other,
}

/// The hosts that the words of a line name: those behind the keyword `Host` that can be
/// connected to.
pub open spec fn named_hosts(words: Seq<Seq<char>>) -> Seq<Seq<char>> {
    if words.len() > 0 && ascii_lower(words[0]) == "host"@ {
        words.skip(1).filter(|word: Seq<char>| is_literal(word))
    } else {
        Seq::empty()
    }
}

/// The words of a line name hosts.
pub open spec fn names_hosts(words: Seq<Seq<char>>) -> bool {
    words.len() > 0 && ascii_lower(words[0]) == "host"@
}

/// The words of a line read other files.
pub open spec fn reads_files(words: Seq<Seq<char>>) -> bool {
    words.len() > 0 && ascii_lower(words[0]) != "host"@ && ascii_lower(words[0]) == "include"@
}

/// Decides what the words of a line are about.
pub fn read_words(words: &Vec<String>) -> (r: ConfigLine)
    ensures
        match r {
            ConfigLine::Hosts(hosts) => names_hosts(texts(words@)) && texts(hosts@) == named_hosts(
                texts(words@),
            ),
            ConfigLine::Files(files) => reads_files(texts(words@)) && texts(files@) == texts(
                words@,
            ).skip(1),
            ConfigLine::Other => !names_hosts(texts(words@)) && !reads_files(texts(words@)),
        },
{
    let ghost views = texts(words@);
    if words.len() == 0 {
        return ConfigLine::Other;
    }
    assert(views[0] == words@[0]@);
    let keyword: String = to_ascii_lower(words[0].as_str());
    if same(keyword.as_str(), "host") {
        let ghost keep = |word: Seq<char>| is_literal(word);
        let ghost rest = views.skip(1);
        let mut hosts: Vec<String> = Vec::new();
        let mut i: usize = 1;
        assert(rest.take(0).filter(keep) =~= Seq::<Seq<char>>::empty()) by {
            reveal(Seq::filter);
        }
        assert(texts(hosts@) =~= Seq::<Seq<char>>::empty());
        while i < words.len()
            invariant
                1 <= i <= words@.len(),
                views == texts(words@),
                rest == views.skip(1),
                keep == (|word: Seq<char>| is_literal(word)),
                texts(hosts@) == rest.take(i - 1).filter(keep),
            decreases words@.len() - i,
        {
            let word: &String = &words[i];
            proof {
                assert(rest[i - 1] == word@);
                assert(rest.take(i as int) =~= rest.take(i - 1).push(word@));
                rest.take(i - 1).lemma_filter_push(word@, keep);
            }
            if is_literal_alias(word.as_str()) {
                let host: String = word.clone();
                proof {
                    lemma_texts_push(hosts@, host);
                }
                hosts.push(host);
            }
            i += 1;
        }
        assert(rest.take(i - 1) =~= rest);
        return ConfigLine::Hosts(hosts);
    }
    if same(keyword.as_str(), "include") {
        let mut files: Vec<String> = Vec::new();
        let mut i: usize = 1;
        assert(texts(files@) =~= views.subrange(1, 1));
        while i < words.len()
            invariant
                1 <= i <= words@.len(),
                views == texts(words@),
                texts(files@) == views.subrange(1, i as int),
            decreases words@.len() - i,
        {
            let file: String = words[i].clone();
            proof {
                lemma_texts_push(files@, file);
                assert(views.subrange(1, i + 1) =~= views.subrange(1, i as int).push(file@));
            }
            files.push(file);
            i += 1;
        }
        assert(views.subrange(1, i as int) =~= views.skip(1));
        return ConfigLine::Files(files);
    }
    ConfigLine::Other
}

/// Decides what a line is about. A line whose quotes stay open is about nothing.
pub fn read_line(line: &str) -> (r: ConfigLine)
    ensures
        match shell_words(line@) {
            None => r is Other,
            Some(words) => match r {
                ConfigLine::Hosts(hosts) => names_hosts(words) && texts(hosts@) == named_hosts(
                    words,
                ),
                ConfigLine::Files(files) => reads_files(words) && texts(files@) == words.skip(1),
                ConfigLine::Other => !names_hosts(words) && !reads_files(words),
            },
        },
{
    match split(line) {
        None => ConfigLine::Other,
        Some(words) => read_words(&words),
    }
}

// ---- included files ----

/// The pattern of a file that a line reads: a tilde stands for the home directory, and a
/// relative path is one below the directory of the configuration.
pub open spec fn included_pattern(
    word: Seq<char>,
    base: Seq<char>,
    home: Seq<char>,
) -> Seq<char> {
    if word == "~"@ {
        home
    } else if starts_text(word, "~/"@) {
        join_path_text(home, word.skip("~/"@.len() as int))
    } else {
        join_path_text(base, word)
    }
}

/// What `glob::Pattern::new` finds wrong with a pattern, where it finds anything.
pub uninterp spec fn pattern_fault(pattern: Seq<char>) -> Option<Seq<char>>;

/// `glob::Pattern::new` compiles a pattern, or tells what is wrong with it. Only whether it
/// does, and the text of its error, are used; both are named by `pattern_fault`.
#[verifier::external_body]
fn compile_pattern(pattern: &str) -> (r: Result<(), String>)
    ensures
        r is Ok <==> pattern_fault(pattern@) is None,
        r matches Err(message) ==> pattern_fault(pattern@) == Some(message@),
{
    match glob::Pattern::new(pattern) {
        Ok(_) => Ok(()),
        Err(error) => Err(error.to_string()),
    }
}

/// The pattern of a file that a line reads, where it is one.
pub fn expand_include(word: &str, base: &str, home: &str) -> (r: Result<String, HostDiscoveryError>)
    ensures
        r is Ok <==> pattern_fault(included_pattern(word@, base@, home@)) is None,
        r matches Ok(pattern) ==> pattern@ == included_pattern(word@, base@, home@),
        r matches Err(error) ==> error is InvalidInclude && error->pattern@ == included_pattern(
            word@,
            base@,
            home@,
        ) && pattern_fault(included_pattern(word@, base@, home@)) == Some(
            error->InvalidInclude_message@,
        ),
{
    let pattern: String = if same(word, "~") {
        home.to_owned()
    } else {
        match strip_prefix(word, "~/") {
            Some(relative) => join_path(home, relative.as_str()),
            None => join_path(base, word),
        }
    };
    match compile_pattern(pattern.as_str()) {
        Ok(()) => Ok(pattern),
        Err(message) => Err(HostDiscoveryError::InvalidInclude { pattern, message }),
    }
}

// ---- the walk through the files ----

/// An alias and the file that names it first.
#[derive(Debug, Eq, PartialEq)]
pub struct AliasSource {
    pub alias: String,
    pub source: String,
}

impl Clone for AliasSource {
    fn clone(&self) -> (r: Self)
        ensures
            r == *self,
    {
        AliasSource { alias: self.alias.clone(), source: self.source.clone() }
    }
}

impl Ranked for AliasSource {
    open spec fn at_most(self, other: Self) -> bool {
        text_le(self.alias@, other.alias@)
    }

    proof fn at_most_total(a: Self, b: Self) {
        text_lt_total(a.alias@, b.alias@);
    }

    proof fn at_most_transitive(a: Self, b: Self, c: Self) {
        if text_lt(a.alias@, b.alias@) && text_lt(b.alias@, c.alias@) {
            text_lt_transitive(a.alias@, b.alias@, c.alias@);
        }
    }

    fn is_at_most(&self, other: &Self) -> (r: bool) {
        same(self.alias.as_str(), other.alias.as_str()) || lt(
            self.alias.as_str(),
            other.alias.as_str(),
        )
    }
}

/// What remains to be done in a walk.
#[derive(Debug, Eq, PartialEq)]
pub enum Work {
    /// Read a file.
    Visit(String),
    /// Read a line of a file.
    Line { path: String, line: String },
    /// Find the files that a word stands for.
    Expand(String),
}

/// What remains to be done, as text.
pub enum WorkView {
    Visit(Seq<char>),
    Line(Seq<char>, Seq<char>),
    Expand(Seq<char>),
}

impl Work {
    /// The work as text.
    pub open spec fn view(self) -> WorkView {
        match self {
            Work::Visit(path) => WorkView::Visit(path@),
            Work::Line { path, line } => WorkView::Line(path@, line@),
            Work::Expand(word) => WorkView::Expand(word@),
        }
    }
}

/// The work as text.
pub open spec fn works(work: Seq<Work>) -> Seq<WorkView> {
    work.map_values(|w: Work| w.view())
}

/// The next thing that the walk asks for.
#[derive(Debug, Eq, PartialEq)]
pub enum WalkStep {
    /// Nothing: call again.
    Continue,
    /// Read this file and report it.
    Open(String),
    /// Find the files of this pattern and report them.
    Match(String),
    /// The walk is over.
    Done,
}

/// A walk through the configuration and the files it reads, depth first. The last entry of
/// `work` is done next.
pub struct ConfigWalk {
    pub work: Vec<Work>,
    pub visited: crate::keyed::StringSet,
    pub aliases: Vec<AliasSource>,
}

/// The aliases as text.
pub open spec fn alias_views(aliases: Seq<AliasSource>) -> Seq<(Seq<char>, Seq<char>)> {
    aliases.map_values(|a: AliasSource| (a.alias@, a.source@))
}

/// Some file named the alias.
pub open spec fn alias_known(aliases: Seq<(Seq<char>, Seq<char>)>, alias: Seq<char>) -> bool {
    exists|i: int| 0 <= i < aliases.len() && (#[trigger] aliases[i]).0 == alias
}

/// The aliases after a file named one: the first file that names it counts.
pub open spec fn noted(
    aliases: Seq<(Seq<char>, Seq<char>)>,
    alias: Seq<char>,
    source: Seq<char>,
) -> Seq<(Seq<char>, Seq<char>)> {
    if alias_known(aliases, alias) {
        aliases
    } else {
        aliases.push((alias, source))
    }
}

/// The aliases after a file named several.
pub open spec fn noted_all(
    aliases: Seq<(Seq<char>, Seq<char>)>,
    hosts: Seq<Seq<char>>,
    source: Seq<char>,
) -> Seq<(Seq<char>, Seq<char>)>
    decreases hosts.len(),
{
    if hosts.len() == 0 {
        aliases
    } else {
        noted(noted_all(aliases, hosts.drop_last(), source), hosts.last(), source)
    }
}

/// Notes the aliases that a file names.
fn note_aliases(aliases: &mut Vec<AliasSource>, hosts: &Vec<String>, source: &str)
    ensures
        alias_views(final(aliases)@) == noted_all(
            alias_views(old(aliases)@),
            texts(hosts@),
            source@,
        ),
{
    let ghost before = alias_views(aliases@);
    let ghost views = texts(hosts@);
    let mut i: usize = 0;
    assert(views.take(0) =~= Seq::<Seq<char>>::empty());
    while i < hosts.len()
        invariant
            i <= hosts@.len(),
            views == texts(hosts@),
            alias_views(aliases@) == noted_all(before, views.take(i as int), source@),
        decreases hosts@.len() - i,
    {
        let host: &String = &hosts[i];
        proof {
            assert(views.take(i + 1).drop_last() =~= views.take(i as int));
            assert(views.take(i + 1).last() == host@);
        }
        let ghost now = alias_views(aliases@);
        let mut known: bool = false;
        let mut j: usize = 0;
        while j < aliases.len() && !known
            invariant
                j <= aliases@.len(),
                now == alias_views(aliases@),
                known ==> alias_known(now, host@),
                !known ==> forall|k: int| 0 <= k < j ==> (#[trigger] now[k]).0 != host@,
            decreases aliases@.len() - j + (if known { 0int } else { 1int }),
        {
            assert(now[j as int].0 == aliases@[j as int].alias@);
            if same(aliases[j].alias.as_str(), host.as_str()) {
                known = true;
            } else {
                j += 1;
            }
        }
        if !known {
            let entry = AliasSource { alias: host.clone(), source: source.to_owned() };
            aliases.push(entry);
            assert(alias_views(aliases@) =~= now.push((host@, source@)));
        }
        i += 1;
    }
    assert(views.take(i as int) =~= views);
}

/// The words of a line to be expanded, the first on top.
pub open spec fn expansions(words: Seq<Seq<char>>) -> Seq<WorkView> {
    Seq::new(words.len(), |i: int| WorkView::Expand(words[words.len() - 1 - i]))
}

/// The lines of a file to be read, the first on top.
pub open spec fn pending_lines(path: Seq<char>, lines: Seq<Seq<char>>) -> Seq<WorkView> {
    Seq::new(lines.len(), |i: int| WorkView::Line(path, lines[lines.len() - 1 - i]))
}

/// Files to be read, the first on top.
pub open spec fn visits(paths: Seq<Seq<char>>) -> Seq<WorkView> {
    Seq::new(paths.len(), |i: int| WorkView::Visit(paths[paths.len() - 1 - i]))
}

/// A walk as text.
pub struct WalkView {
    pub work: Seq<WorkView>,
    pub visited: Set<Seq<char>>,
    pub aliases: Seq<(Seq<char>, Seq<char>)>,
}

impl View for ConfigWalk {
    type V = WalkView;

    open spec fn view(&self) -> WalkView {
        WalkView {
            work: works(self.work@),
            visited: self.visited@,
            aliases: alias_views(self.aliases@),
        }
    }
}

/// A walk that begins with a file.
pub open spec fn begun(path: Seq<char>) -> WalkView {
    WalkView {
        work: seq![WorkView::Visit(path)],
        visited: Set::empty(),
        aliases: Seq::empty(),
    }
}

impl WalkView {
    /// The walk after it did what came next.
    pub open spec fn advanced(self) -> WalkView {
        if self.work.len() == 0 {
            self
        } else {
            let rest = self.work.drop_last();
            match self.work.last() {
                WorkView::Line(path, line) => match shell_words(line) {
                    Some(words) => WalkView {
                        work: if reads_files(words) {
                            rest + expansions(words.skip(1))
                        } else {
                            rest
                        },
                        aliases: noted_all(self.aliases, named_hosts(words), path),
                        ..self
                    },
                    None => WalkView { work: rest, ..self },
                },
                _ => WalkView { work: rest, ..self },
            }
        }
    }

    /// The walk after it was told of a file that it asked for. A file that was read adds no
    /// more work.
    pub open spec fn told_of(
        self,
        identity: Seq<char>,
        path: Seq<char>,
        contents: Option<Seq<char>>,
    ) -> WalkView {
        WalkView {
            work: match contents {
                Some(contents) if !self.visited.contains(identity) => self.work + pending_lines(
                    path,
                    lines_of(contents),
                ),
                _ => self.work,
            },
            visited: self.visited.insert(identity),
            ..self
        }
    }

    /// The walk after it was told of the files of a pattern that it asked for: they are read
    /// in the order of their paths.
    pub open spec fn directed(self, paths: Seq<Seq<char>>) -> WalkView {
        WalkView { work: self.work + visits(in_path_order(paths)), ..self }
    }

    /// The aliases that the next thing to do names, each with its file.
    pub open spec fn names_next(self) -> Seq<(Seq<char>, Seq<char>)> {
        if self.work.len() == 0 {
            Seq::empty()
        } else {
            match self.work.last() {
                WorkView::Line(path, line) => match shell_words(line) {
                    Some(words) => with_source(named_hosts(words), path),
                    None => Seq::empty(),
                },
                _ => Seq::empty(),
            }
        }
    }

    /// The walk after an event.
    pub open spec fn after(self, event: WalkEvent) -> WalkView {
        match event {
            WalkEvent::Next => self.advanced(),
            WalkEvent::Opened(identity, path, contents) => self.told_of(identity, path, contents),
            WalkEvent::Matched(paths) => self.directed(paths),
        }
    }
}

/// What happens to a walk: it does what comes next, or is told of a file under an identity
/// and a path, or of the files of a pattern.
pub enum WalkEvent {
    Next,
    Opened(Seq<char>, Seq<char>, Option<Seq<char>>),
    Matched(Seq<Seq<char>>),
}

/// Aliases with the file that names them.
pub open spec fn with_source(hosts: Seq<Seq<char>>, source: Seq<char>) -> Seq<
    (Seq<char>, Seq<char>),
> {
    hosts.map_values(|host: Seq<char>| (host, source))
}

/// A walk that began with a file, after some events.
pub open spec fn walked(path: Seq<char>, events: Seq<WalkEvent>) -> WalkView
    decreases events.len(),
{
    if events.len() == 0 {
        begun(path)
    } else {
        walked(path, events.drop_last()).after(events.last())
    }
}

/// Every alias that the lines read so far name, each with its file, in the order in which
/// they were read.
pub open spec fn namings(path: Seq<char>, events: Seq<WalkEvent>) -> Seq<(Seq<char>, Seq<char>)>
    decreases events.len(),
{
    if events.len() == 0 {
        Seq::empty()
    } else {
        let before = namings(path, events.drop_last());
        if events.last() is Next {
            before + walked(path, events.drop_last()).names_next()
        } else {
            before
        }
    }
}

/// The naming is the first one of its alias.
pub open spec fn is_first_naming(named: Seq<(Seq<char>, Seq<char>)>, k: int) -> bool {
    0 <= k < named.len() && forall|j: int| 0 <= j < k ==> (#[trigger] named[j]).0 != named[k].0
}

/// The aliases hold each alias that was named exactly once, under the first file that named
/// it.
pub open spec fn account_for(
    aliases: Seq<(Seq<char>, Seq<char>)>,
    named: Seq<(Seq<char>, Seq<char>)>,
) -> bool {
    &&& forall|i: int, j: int|
        0 <= i < j < aliases.len() ==> (#[trigger] aliases[i]).0 != (#[trigger] aliases[j]).0
    &&& forall|i: int|
        0 <= i < aliases.len() ==> exists|k: int|
            #[trigger] is_first_naming(named, k) && named[k] == #[trigger] aliases[i]
    &&& forall|k: int|
        0 <= k < named.len() ==> alias_known(aliases, (#[trigger] named[k]).0)
}

/// Noting one alias more.
proof fn lemma_noted(
    aliases: Seq<(Seq<char>, Seq<char>)>,
    named: Seq<(Seq<char>, Seq<char>)>,
    alias: Seq<char>,
    source: Seq<char>,
)
    requires
        account_for(aliases, named),
    ensures
        account_for(noted(aliases, alias, source), named.push((alias, source))),
{
    let after = noted(aliases, alias, source);
    let all = named.push((alias, source));
    assert forall|i: int| 0 <= i < after.len() implies exists|k: int|
        #[trigger] is_first_naming(all, k) && all[k] == #[trigger] after[i] by {
        if i < aliases.len() {
            let k = choose|k: int|
                #[trigger] is_first_naming(named, k) && named[k] == aliases[i];
            assert(is_first_naming(all, k));
        } else {
            let k = named.len() as int;
            assert forall|j: int| 0 <= j < k implies (#[trigger] all[j]).0 != alias by {
                assert(alias_known(aliases, named[j].0));
            }
            assert(is_first_naming(all, k));
        }
    }
    assert forall|k: int| 0 <= k < all.len() implies alias_known(
        after,
        (#[trigger] all[k]).0,
    ) by {
        if k < named.len() {
            assert(alias_known(aliases, named[k].0));
            let i = choose|i: int|
                0 <= i < aliases.len() && (#[trigger] aliases[i]).0 == named[k].0;
            assert(after[i].0 == all[k].0);
        } else if !alias_known(aliases, alias) {
            assert(after[aliases.len() as int].0 == alias);
        }
    }
}

/// Noting the aliases of a line.
proof fn lemma_noted_all(
    aliases: Seq<(Seq<char>, Seq<char>)>,
    named: Seq<(Seq<char>, Seq<char>)>,
    hosts: Seq<Seq<char>>,
    source: Seq<char>,
)
    requires
        account_for(aliases, named),
    ensures
        account_for(noted_all(aliases, hosts, source), named + with_source(hosts, source)),
    decreases hosts.len(),
{
    if hosts.len() == 0 {
        assert(named + with_source(hosts, source) =~= named);
    } else {
        let fewer = hosts.drop_last();
        lemma_noted_all(aliases, named, fewer, source);
        lemma_noted(
            noted_all(aliases, fewer, source),
            named + with_source(fewer, source),
            hosts.last(),
            source,
        );
        assert(named + with_source(hosts, source) =~= (named + with_source(fewer, source)).push(
            (hosts.last(), source),
        ));
    }
}

/// Wherever a walk stands, each alias that was named stands in it once, under the first file
/// that named it, and nothing else does.
pub proof fn each_alias_counts_for_its_first_file(path: Seq<char>, events: Seq<WalkEvent>)
    ensures
        account_for(walked(path, events).aliases, namings(path, events)),
    decreases events.len(),
{
    if events.len() > 0 {
        let fewer = events.drop_last();
        each_alias_counts_for_its_first_file(path, fewer);
        let before = walked(path, fewer);
        let named = namings(path, fewer);
        if events.last() is Next {
            assert(named + Seq::<(Seq<char>, Seq<char>)>::empty() =~= named);
            if before.work.len() > 0 {
                if let WorkView::Line(source, line) = before.work.last() {
                    if let Some(words) = shell_words(line) {
                        lemma_noted_all(before.aliases, named, named_hosts(words), source);
                    }
                }
            }
        }
    }
}

/// A file that was told of stays known.
proof fn lemma_visited_stays(path: Seq<char>, events: Seq<WalkEvent>, n: int, identity: Seq<char>)
    requires
        0 <= n <= events.len(),
        walked(path, events.take(n)).visited.contains(identity),
    ensures
        walked(path, events).visited.contains(identity),
    decreases events.len() - n,
{
    if n < events.len() {
        assert(events.take(n + 1).drop_last() =~= events.take(n));
        lemma_visited_stays(path, events, n + 1, identity);
    } else {
        assert(events.take(n) =~= events);
    }
}

/// However often and under whatever path a file is told of, it is read once: each time after
/// the first leaves the walk as it is.
pub proof fn a_file_is_read_once(
    path: Seq<char>,
    events: Seq<WalkEvent>,
    earlier: int,
    later: int,
)
    requires
        0 <= earlier < later < events.len(),
        events[earlier] is Opened,
        events[later] is Opened,
        events[earlier]->Opened_0 == events[later]->Opened_0,
    ensures
        walked(path, events.take(later + 1)) == walked(path, events.take(later)),
{
    let identity = events[later]->Opened_0;
    let before = walked(path, events.take(later));
    assert(events.take(earlier + 1).drop_last() =~= events.take(earlier));
    assert(events.take(earlier + 1).last() == events[earlier]);
    assert(walked(path, events.take(earlier + 1)).visited.contains(identity));
    assert(events.take(later).take(earlier + 1) =~= events.take(earlier + 1));
    lemma_visited_stays(path, events.take(later), earlier + 1, identity);
    assert(events.take(later + 1).drop_last() =~= events.take(later));
    assert(events.take(later + 1).last() == events[later]);
    assert(before.visited.insert(identity) =~= before.visited);
}

/// The walk after it did what came next and was told what it asked for: `files` gives the
/// identity and the contents of the file at a path, and `matches` the files that a word stands
/// for.
pub open spec fn turned(
    v: WalkView,
    files: spec_fn(Seq<char>) -> (Seq<char>, Option<Seq<char>>),
    matches: spec_fn(Seq<char>) -> Seq<Seq<char>>,
) -> WalkView {
    if v.work.len() == 0 {
        v
    } else {
        match v.work.last() {
            WorkView::Visit(path) => v.advanced().told_of(files(path).0, path, files(path).1),
            WorkView::Expand(word) => v.advanced().directed(matches(word)),
            WorkView::Line(_, _) => v.advanced(),
        }
    }
}

/// The walk after so many turns.
pub open spec fn turned_times(
    v: WalkView,
    files: spec_fn(Seq<char>) -> (Seq<char>, Option<Seq<char>>),
    matches: spec_fn(Seq<char>) -> Seq<Seq<char>>,
    n: nat,
) -> WalkView
    decreases n,
{
    if n == 0 {
        v
    } else {
        turned_times(turned(v, files, matches), files, matches, (n - 1) as nat)
    }
}

/// How many lines remain to be read.
pub open spec fn lines_left(work: Seq<WorkView>) -> nat {
    work.filter(|w: WorkView| w is Line).len()
}

/// How many words remain to be expanded.
pub open spec fn words_left(work: Seq<WorkView>) -> nat {
    work.filter(|w: WorkView| w is Expand).len()
}

/// What is added to the work is counted with it.
proof fn lemma_left_add(a: Seq<WorkView>, b: Seq<WorkView>)
    ensures
        lines_left(a + b) == lines_left(a) + lines_left(b),
        words_left(a + b) == words_left(a) + words_left(b),
{
    Seq::<WorkView>::filter_distributes_over_add(a, b, |w: WorkView| w is Line);
    Seq::<WorkView>::filter_distributes_over_add(a, b, |w: WorkView| w is Expand);
}

/// Work without lines has no lines left, and work without words no words.
proof fn lemma_left_none(work: Seq<WorkView>)
    ensures
        (forall|i: int| 0 <= i < work.len() ==> !((#[trigger] work[i]) is Line)) ==> lines_left(
            work,
        ) == 0,
        (forall|i: int| 0 <= i < work.len() ==> !((#[trigger] work[i]) is Expand)) ==> words_left(
            work,
        ) == 0,
    decreases work.len(),
{
    reveal(Seq::filter);
    if work.len() > 0 {
        let rest = work.drop_last();
        lemma_left_none(rest);
        assert(forall|i: int| 0 <= i < rest.len() ==> #[trigger] rest[i] == work[i]);
        assert(work[work.len() - 1] == work.last());
    }
}

/// Each turn of a walk brings it nearer to its end. Only a file that was not told of before
/// adds lines, and it is known then; a line leaves the work and adds only words; a word leaves
/// it and adds only files; and a file leaves it.
pub proof fn every_turn_brings_the_end_nearer(
    v: WalkView,
    files: spec_fn(Seq<char>) -> (Seq<char>, Option<Seq<char>>),
    matches: spec_fn(Seq<char>) -> Seq<Seq<char>>,
)
    requires
        v.work.len() > 0,
    ensures
        ({
            let after = turned(v, files, matches);
            match v.work.last() {
                WorkView::Visit(path) => if v.visited.contains(files(path).0) {
                    &&& after.visited == v.visited
                    &&& after.work == v.work.drop_last()
                    &&& lines_left(after.work) == lines_left(v.work)
                    &&& words_left(after.work) == words_left(v.work)
                } else {
                    after.visited == v.visited.insert(files(path).0)
                },
                WorkView::Line(_, _) => {
                    &&& after.visited == v.visited
                    &&& lines_left(after.work) + 1 == lines_left(v.work)
                },
                WorkView::Expand(_) => {
                    &&& after.visited == v.visited
                    &&& lines_left(after.work) == lines_left(v.work)
                    &&& words_left(after.work) + 1 == words_left(v.work)
                },
            }
        }),
{
    let rest = v.work.drop_last();
    let last = seq![v.work.last()];
    assert(v.work =~= rest + last);
    lemma_left_add(rest, last);
    lemma_left_none(last);
    let after = turned(v, files, matches);
    match v.work.last() {
        WorkView::Visit(path) => {
            if v.visited.contains(files(path).0) {
                assert(v.visited.insert(files(path).0) =~= v.visited);
            }
        },
        WorkView::Line(_, line) => {
            lemma_one_left(v.work.last());
            if let Some(words) = shell_words(line) {
                lemma_left_add(rest, expansions(words.skip(1)));
                lemma_left_none(expansions(words.skip(1)));
            }
        },
        WorkView::Expand(word) => {
            lemma_one_left(v.work.last());
            lemma_left_add(rest, visits(in_path_order(matches(word))));
            lemma_left_none(visits(in_path_order(matches(word))));
        },
    }
}

proof fn lemma_one_left(w: WorkView)
    ensures
        w is Line ==> lines_left(seq![w]) == 1,
        w is Expand ==> words_left(seq![w]) == 1,
{
    let none = Seq::<WorkView>::empty();
    let is_line = |w: WorkView| w is Line;
    let is_word = |w: WorkView| w is Expand;
    lemma_left_none(none);
    none.lemma_filter_push(w, is_line);
    none.lemma_filter_push(w, is_word);
    assert(none.push(w) =~= seq![w]);
}

/// Whatever the files hold and however they read each other, a walk ends where they are
/// finitely many.
pub proof fn every_walk_ends(
    v: WalkView,
    files: spec_fn(Seq<char>) -> (Seq<char>, Option<Seq<char>>),
    matches: spec_fn(Seq<char>) -> Seq<Seq<char>>,
    known: Set<Seq<char>>,
)
    requires
        known.finite(),
        forall|path: Seq<char>| known.contains((#[trigger] files(path)).0),
    ensures
        exists|n: nat| (#[trigger] turned_times(v, files, matches, n)).work.len() == 0,
    decreases
        known.difference(v.visited).len(),
        lines_left(v.work),
        words_left(v.work),
        v.work.len(),
{
    if v.work.len() == 0 {
        assert(turned_times(v, files, matches, 0).work.len() == 0);
    } else {
        let after = turned(v, files, matches);
        every_turn_brings_the_end_nearer(v, files, matches);
        if let WorkView::Visit(path) = v.work.last() {
            let identity = files(path).0;
            if !v.visited.contains(identity) {
                let left = known.difference(v.visited);
                assert(known.difference(after.visited) =~= left.remove(identity));
                assert(left.contains(identity));
                vstd::set_lib::lemma_len_difference(known, v.visited);
            }
        }
        every_walk_ends(after, files, matches, known);
        let n = choose|n: nat| (#[trigger] turned_times(after, files, matches, n)).work.len() == 0;
        assert(turned_times(v, files, matches, n + 1) == turned_times(after, files, matches, n));
    }
}

impl ConfigWalk {
    /// A walk that begins with a file.
    pub fn new(path: &str) -> (r: Self)
        ensures
            r@ == begun(path@),
    {
        let mut work: Vec<Work> = Vec::new();
        work.push(Work::Visit(path.to_owned()));
        assert(works(work@) =~= seq![WorkView::Visit(path@)]);
        let r = ConfigWalk { work, visited: crate::keyed::StringSet::new(), aliases: Vec::new() };
        assert(r@.aliases =~= Seq::<(Seq<char>, Seq<char>)>::empty());
        r
    }

    /// Does what comes next, as far as it needs no file: a file and a pattern are asked for,
    /// and a line is read. An alias counts for the first file that names it.
    pub fn next(&mut self, include_base: &str, home: &str) -> (r: Result<
        WalkStep,
        HostDiscoveryError,
    >)
        ensures
            final(self)@ == old(self)@.advanced(),
            final(self).visited == old(self).visited,
            old(self).work@.len() == 0 ==> (r matches Ok(step) && step is Done)
                && final(self).work@.len() == 0 && final(self).aliases == old(self).aliases,
            old(self).work@.len() > 0 ==> ({
                let rest = works(old(self).work@.drop_last());
                let aliases = alias_views(old(self).aliases@);
                match old(self).work@.last().view() {
                    WorkView::Visit(path) => {
                        &&& r matches Ok(WalkStep::Open(file)) && file@ == path
                        &&& works(final(self).work@) == rest
                        &&& alias_views(final(self).aliases@) == aliases
                    },
                    WorkView::Expand(word) => {
                        &&& r is Ok <==> pattern_fault(
                            included_pattern(word, include_base@, home@),
                        ) is None
                        &&& r matches Ok(step) ==> (step matches WalkStep::Match(pattern)
                            && pattern@ == included_pattern(word, include_base@, home@))
                        &&& r matches Err(error) ==> error is InvalidInclude && error->pattern@
                            == included_pattern(word, include_base@, home@) && pattern_fault(
                            included_pattern(word, include_base@, home@),
                        ) == Some(error->InvalidInclude_message@)
                        &&& works(final(self).work@) == rest
                        &&& alias_views(final(self).aliases@) == aliases
                    },
                    WorkView::Line(path, line) => {
                        &&& r matches Ok(step) && step is Continue
                        &&& match shell_words(line) {
                            None => works(final(self).work@) == rest && alias_views(
                                final(self).aliases@,
                            ) == aliases,
                            Some(words) => {
                                &&& works(final(self).work@) == (if reads_files(words) {
                                    rest + expansions(words.skip(1))
                                } else {
                                    rest
                                })
                                &&& alias_views(final(self).aliases@) == noted_all(
                                    aliases,
                                    named_hosts(words),
                                    path,
                                )
                            },
                        }
                    },
                }
            }),
    {
        let ghost before = self@;
        let item: Option<Work> = self.work.pop();
        let item: Work = match item {
            None => {
                return Ok(WalkStep::Done);
            },
            Some(item) => item,
        };
        proof {
            assert(before.work.last() == item.view());
            assert(before.work.drop_last() =~= works(self.work@));
        }
        match item {
            Work::Visit(path) => Ok(WalkStep::Open(path)),
            Work::Expand(word) => match expand_include(word.as_str(), include_base, home) {
                Ok(pattern) => Ok(WalkStep::Match(pattern)),
                Err(error) => Err(error),
            },
            Work::Line { path, line } => {
                match read_line(line.as_str()) {
                    ConfigLine::Other => {
                        proof {
                            if let Some(words) = shell_words(line@) {
                                assert(named_hosts(words) =~= Seq::<Seq<char>>::empty());
                            }
                        }
                    },
                    ConfigLine::Hosts(hosts) => {
                        note_aliases(&mut self.aliases, &hosts, path.as_str());
                    },
                    ConfigLine::Files(files) => {
                        let ghost words = shell_words(line@)->0;
                        let ghost rest = works(self.work@);
                        proof {
                            assert(named_hosts(words) =~= Seq::<Seq<char>>::empty());
                        }
                        let ghost views = texts(files@);
                        let mut i: usize = files.len();
                        assert(works(self.work@) =~= rest + expansions(views).take(0));
                        while i > 0
                            invariant
                                i <= files@.len(),
                                views == texts(files@),
                                works(self.work@) == rest + expansions(views).take(
                                    views.len() - i,
                                ),
                                self.visited == old(self).visited,
                                self.aliases == old(self).aliases,
                            decreases i,
                        {
                            i -= 1;
                            let word: String = files[i].clone();
                            let ghost now = works(self.work@);
                            self.work.push(Work::Expand(word));
                            proof {
                                assert(word@ == views[i as int]);
                                assert(works(self.work@) =~= now.push(WorkView::Expand(word@)));
                                assert(expansions(views).take(views.len() - i) =~= expansions(
                                    views,
                                ).take(views.len() - i - 1).push(WorkView::Expand(word@)));
                                assert(works(self.work@) =~= rest + expansions(views).take(
                                    views.len() - i,
                                ));
                            }
                        }
                        assert(expansions(views).take(views.len() as int) =~= expansions(views));
                    },
                }
                Ok(WalkStep::Continue)
            },
        }
    }

    /// Reports a file that was asked for: under what identity it is known, and its contents
    /// where it exists. A file is read once, however often it is asked for.
    pub fn opened(&mut self, identity: String, path: &str, contents: Option<String>)
        ensures
            final(self)@ == old(self)@.told_of(
                identity@,
                path@,
                match contents {
                    Some(contents) => Some(contents@),
                    None => None,
                },
            ),
            final(self).visited@ == old(self).visited@.insert(identity@),
            final(self).aliases == old(self).aliases,
            works(final(self).work@) == (if old(self).visited@.contains(identity@) {
                works(old(self).work@)
            } else {
                match contents {
                    Some(contents) => works(old(self).work@) + pending_lines(
                        path@,
                        lines_of(contents@),
                    ),
                    None => works(old(self).work@),
                }
            }),
    {
        if self.visited.contains(identity.as_str()) {
            assert(self.visited@.insert(identity@) =~= self.visited@);
            return;
        }
        self.visited.insert(identity);
        let contents: String = match contents {
            Some(contents) => contents,
            None => {
                return;
            },
        };
        let all: Vec<String> = lines(contents.as_str());
        let ghost rest = works(self.work@);
        let ghost views = texts(all@);
        let ghost visited = self.visited;
        let mut i: usize = all.len();
        assert(works(self.work@) =~= rest + pending_lines(path@, views).take(0));
        while i > 0
            invariant
                i <= all@.len(),
                views == texts(all@),
                works(self.work@) == rest + pending_lines(path@, views).take(views.len() - i),
                self.visited == visited,
                self.aliases == old(self).aliases,
            decreases i,
        {
            i -= 1;
            let line: String = all[i].clone();
            let ghost now = works(self.work@);
            self.work.push(Work::Line { path: path.to_owned(), line });
            proof {
                assert(line@ == views[i as int]);
                assert(works(self.work@) =~= now.push(WorkView::Line(path@, line@)));
                assert(pending_lines(path@, views).take(views.len() - i) =~= pending_lines(
                    path@,
                    views,
                ).take(views.len() - i - 1).push(WorkView::Line(path@, line@)));
                assert(works(self.work@) =~= rest + pending_lines(path@, views).take(
                    views.len() - i,
                ));
            }
        }
        assert(pending_lines(path@, views).take(views.len() as int) =~= pending_lines(
            path@,
            views,
        ));
    }

    /// Reports the files of a pattern that was asked for, in any order; they are read in the
    /// order of their paths.
    pub fn matched(&mut self, paths: &Vec<String>)
        ensures
            final(self)@ == old(self)@.directed(texts(paths@)),
            final(self).visited == old(self).visited,
            final(self).aliases == old(self).aliases,
            works(final(self).work@) == works(old(self).work@) + visits(
                in_path_order(texts(paths@)),
            ),
    {
        let paths: Vec<String> = sort_paths(paths);
        let ghost rest = works(self.work@);
        let ghost views = texts(paths@);
        let mut i: usize = paths.len();
        assert(works(self.work@) =~= rest + visits(views).take(0));
        while i > 0
            invariant
                i <= paths@.len(),
                views == texts(paths@),
                works(self.work@) == rest + visits(views).take(views.len() - i),
                self.visited == old(self).visited,
                self.aliases == old(self).aliases,
            decreases i,
        {
            i -= 1;
            let path: String = paths[i].clone();
            let ghost now = works(self.work@);
            self.work.push(Work::Visit(path));
            proof {
                assert(path@ == views[i as int]);
                assert(works(self.work@) =~= now.push(WorkView::Visit(path@)));
                assert(visits(views).take(views.len() - i) =~= visits(views).take(
                    views.len() - i - 1,
                ).push(WorkView::Visit(path@)));
                assert(works(self.work@) =~= rest + visits(views).take(views.len() - i));
            }
        }
        assert(visits(views).take(views.len() as int) =~= visits(views));
    }

    /// The aliases that were found, in alphabetical order.
    pub fn discovered(&self) -> (r: Vec<AliasSource>)
        ensures
            r@ == ranked(self.aliases@),
    {
        let mut all: Vec<AliasSource> = Vec::new();
        let mut i: usize = 0;
        while i < self.aliases.len()
            invariant
                i <= self.aliases@.len(),
                all@ == self.aliases@.take(i as int),
            decreases self.aliases@.len() - i,
        {
            all.push(self.aliases[i].clone());
            i += 1;
        }
        assert(self.aliases@.take(i as int) =~= self.aliases@);
        stable_sort(all)
    }
}

// ---- effective settings ----

/// Settings that OpenSSH resolved.
pub struct EffectiveView {
    pub hostname: Seq<char>,
    pub user: Option<Seq<char>>,
    pub port: u16,
    pub identity_files: Seq<Seq<char>>,
}

/// The settings before any line: the alias is the host name and the port the usual one.
pub open spec fn unset(alias: Seq<char>) -> EffectiveView {
    EffectiveView { hostname: alias, user: None, port: 22, identity_files: Seq::empty() }
}

/// The settings after a line: a keyword, one white-space character and a value.
pub open spec fn with_setting(before: EffectiveView, line: Seq<char>) -> EffectiveView {
    let n = word_len(line) as int;
    if n >= line.len() {
        before
    } else {
        let keyword = ascii_lower(line.take(n));
        let value = trimmed(line.skip(n + 1));
        if keyword == "hostname"@ {
            EffectiveView { hostname: value, ..before }
        } else if keyword == "user"@ {
            EffectiveView { user: Some(value), ..before }
        } else if keyword == "port"@ {
            EffectiveView {
                port: match parsed_number(value, u16::MAX as nat) {
                    Some(port) => port as u16,
                    None => 22,
                },
                ..before
            }
        } else if keyword == "identityfile"@ {
            EffectiveView { identity_files: before.identity_files.push(value), ..before }
        } else {
            before
        }
    }
}

/// The settings after the lines.
pub open spec fn effective(alias: Seq<char>, lines: Seq<Seq<char>>) -> EffectiveView
    decreases lines.len(),
{
    if lines.len() == 0 {
        unset(alias)
    } else {
        with_setting(effective(alias, lines.drop_last()), lines.last())
    }
}

/// The host has the settings.
pub open spec fn has_settings(host: SshHost, settings: EffectiveView) -> bool {
    &&& host.hostname@ == settings.hostname
    &&& match (host.user, settings.user) {
        (Some(user), Some(expected)) => user@ == expected,
        (None, None) => true,
        _ => false,
    }
    &&& host.port == settings.port
    &&& texts(host.identity_files@) == settings.identity_files
}

/// Reads the settings that OpenSSH resolved for an alias.
pub fn parse_effective_config(alias: &str, source: &str, effective_config: &str) -> (r: SshHost)
    ensures
        has_settings(r, effective(alias@, lines_of(effective_config@))),
        r.alias@ == alias@,
        r.source@ == source@,
        r.connectivity == ConnectivityState::Unknown,
        r.resolution_error is None,
{
    let mut host = SshHost {
        alias: alias.to_owned(),
        hostname: alias.to_owned(),
        user: None,
        port: 22,
        source: source.to_owned(),
        identity_files: Vec::new(),
        connectivity: ConnectivityState::Unknown,
        resolution_error: None,
    };
    let all: Vec<String> = lines(effective_config);
    let ghost views = texts(all@);
    let mut i: usize = 0;
    assert(views.take(0) =~= Seq::<Seq<char>>::empty());
    assert(texts(host.identity_files@) =~= Seq::<Seq<char>>::empty());
    while i < all.len()
        invariant
            i <= all@.len(),
            views == texts(all@),
            has_settings(host, effective(alias@, views.take(i as int))),
            host.alias@ == alias@,
            host.source@ == source@,
            host.connectivity == ConnectivityState::Unknown,
            host.resolution_error is None,
        decreases all@.len() - i,
    {
        let chars: Vec<char> = chars_of(all[i].as_str());
        let ghost line = chars@;
        proof {
            assert(views.take(i + 1).drop_last() =~= views.take(i as int));
            assert(views.take(i + 1).last() == line);
        }
        let mut n: usize = 0;
        while n < chars.len() && !is_whitespace(chars[n])
            invariant
                n <= chars@.len(),
                forall|j: int| 0 <= j < n ==> !is_space(#[trigger] chars@[j]),
            decreases chars@.len() - n,
        {
            n += 1;
        }
        proof {
            lemma_word_len_is(line, n as int);
        }
        if n < chars.len() {
            let keyword: String = string_of(&chars, 0, n);
            let keyword: String = to_ascii_lower(keyword.as_str());
            let value: String = string_of(&chars, n + 1, chars.len());
            proof {
                assert(line.subrange(0, n as int) =~= line.take(n as int));
                assert(line.subrange(n + 1, line.len() as int) =~= line.skip(n + 1));
            }
            let value: String = trim(value.as_str());
            if same(keyword.as_str(), "hostname") {
                host.hostname = value;
            } else if same(keyword.as_str(), "user") {
                host.user = Some(value);
            } else if same(keyword.as_str(), "port") {
                host.port = match parse_number(value.as_str(), u16::MAX as u64) {
                    Some(port) => port as u16,
                    None => 22,
                };
            } else if same(keyword.as_str(), "identityfile") {
                proof {
                    lemma_texts_push(host.identity_files@, value);
                }
                host.identity_files.push(value);
            }
        }
        i += 1;
    }
    assert(views.take(i as int) =~= views);
    host
}

/// The arguments that resolve an alias.
pub fn resolve_arguments(alias: &str, config_override: Option<&str>) -> (r: Vec<String>)
    ensures
        texts(r@) == match config_override {
            Some(path) => seq!["-G"@, "-F"@, path@, "--"@, alias@],
            None => seq!["-G"@, "--"@, alias@],
        },
{
    match config_override {
        Some(path) => {
            let r: Vec<String> = owned(["-G", "-F", path, "--", alias]);
            assert(texts(r@) =~= seq!["-G"@, "-F"@, path@, "--"@, alias@]);
            r
        },
        None => {
            let r: Vec<String> = owned(["-G", "--", alias]);
            assert(texts(r@) =~= seq!["-G"@, "--"@, alias@]);
            r
        },
    }
}

/// Reads what resolving an alias left behind. A host that could not be resolved is kept,
/// with the reason.
pub fn resolve_host(alias: &str, source: &str, outcome: &CommandOutcome) -> (r: SshHost)
    ensures
        r.alias@ == alias@,
        r.source@ == source@,
        r.connectivity == ConnectivityState::Unknown,
        outcome.success ==> r.resolution_error is None && has_settings(
            r,
            effective(alias@, lines_of(outcome.stdout@)),
        ),
        !outcome.success ==> has_settings(r, unset(alias@)) && (r.resolution_error matches Some(
            error,
        ) && error@ == (if trimmed(outcome.stderr@).len() == 0 {
            "ssh -G exited with "@ + outcome.status@
        } else {
            trimmed(outcome.stderr@)
        })),
{
    if outcome.success {
        return parse_effective_config(alias, source, outcome.stdout.as_str());
    }
    let message: String = trim(outcome.stderr.as_str());
    let error: String = if message.as_str().is_empty() {
        let mut error: String = "ssh -G exited with ".to_owned();
        error.append(outcome.status.as_str());
        error
    } else {
        message
    };
    let identity_files: Vec<String> = Vec::new();
    assert(texts(identity_files@) =~= Seq::<Seq<char>>::empty());
    SshHost {
        alias: alias.to_owned(),
        hostname: alias.to_owned(),
        user: None,
        port: 22,
        source: source.to_owned(),
        identity_files,
        connectivity: ConnectivityState::Unknown,
        resolution_error: Some(error),
    }
}

} // verus!
