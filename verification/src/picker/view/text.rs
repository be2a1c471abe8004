//! The texts of the picker.

use vstd::prelude::*;

use crate::domain::{RuntimeOwner, Session};
use crate::text::{
    chars_of, decimal, decimal_of, file_name, file_name_text, join_with, joined, lemma_texts_push,
    lines, lines_of, same, starts_text, string_of, strip_prefix, texts, trim, trimmed,
};

verus! {

/// A path with a tilde for the home directory.
pub open spec fn compacted(path: Seq<char>, home: Option<Seq<char>>) -> Seq<char> {
    match home {
        None => path,
        Some(home) => if path == home {
            "~"@
        } else if starts_text(path, home) && path.skip(home.len() as int).len() > 0 && path.skip(
            home.len() as int,
        )[0] == '/' {
            "~"@ + path.skip(home.len() as int)
        } else {
            path
        },
    }
}

/// A path with a tilde for the home directory.
pub fn compact_home(path: &str, home: &Option<String>) -> (r: String)
    ensures
        r@ == compacted(path@, super::super::text_of(*home)),
{
    match home {
        None => path.to_owned(),
        Some(home) => {
            if same(path, home.as_str()) {
                return "~".to_owned();
            }
            if let Some(relative) = strip_prefix(path, home.as_str()) {
                let chars: Vec<char> = chars_of(relative.as_str());
                if chars.len() > 0 && chars[0] == '/' {
                    let mut r: String = "~".to_owned();
                    r.append(relative.as_str());
                    return r;
                }
            }
            path.to_owned()
        },
    }
}

/// The last component of a directory, or the directory.
pub open spec fn directory_name(cwd: Seq<char>, home: Option<Seq<char>>) -> Seq<char> {
    let compact = compacted(cwd, home);
    match file_name_text(compact) {
        Some(name) => if name.len() > 0 {
            name
        } else {
            compact
        },
        None => compact,
    }
}

/// The last component of a directory, or the directory.
pub fn display_directory(cwd: &str, home: &Option<String>) -> (r: String)
    ensures
        r@ == directory_name(cwd@, super::super::text_of(*home)),
{
    let compact: String = compact_home(cwd, home);
    match file_name(compact.as_str()) {
        Some(name) => if name.as_str().is_empty() {
            compact
        } else {
            name
        },
        None => compact,
    }
}

/// A text of at most so many characters, the last of them an ellipsis where some are left
/// out.
pub open spec fn shortened(value: Seq<char>, n: nat) -> Seq<char> {
    if n == 0 {
        Seq::empty()
    } else if value.len() <= n {
        value
    } else {
        value.take(n - 1).push('\u{2026}')
    }
}

/// A text of at most so many characters, the last of them an ellipsis where some are left
/// out.
pub fn truncate_with_ellipsis(value: &str, maximum_characters: usize) -> (r: String)
    ensures
        r@ == shortened(value@, maximum_characters as nat),
{
    if maximum_characters == 0 {
        return String::new();
    }
    let chars: Vec<char> = chars_of(value);
    if chars.len() <= maximum_characters {
        return value.to_owned();
    }
    let mut r: String = string_of(&chars, 0, maximum_characters - 1);
    assert(r@ =~= value@.take(maximum_characters - 1));
    r.push('\u{2026}');
    r
}

/// What is shown of a session without looking at its pane.
pub open spec fn cached_text(session: Session, home: Option<Seq<char>>) -> Seq<char> {
    let message = if trimmed(session.last_message@).len() == 0 {
        "No cached agent response is available."@
    } else {
        session.last_message@
    };
    session.title@ + "\n\n"@ + message + "\n\n"@ + compacted(session.cwd@, home) + " / "@
        + session.host@
}

/// What is shown of a session without looking at its pane.
pub fn cached_preview(session: &Session, home: &Option<String>) -> (r: String)
    ensures
        r@ == cached_text(*session, super::super::text_of(*home)),
{
    let mut r: String = session.title.clone();
    r.append("\n\n");
    if trim(session.last_message.as_str()).as_str().is_empty() {
        r.append("No cached agent response is available.");
    } else {
        r.append(session.last_message.as_str());
    }
    r.append("\n\n");
    r.append(compact_home(session.cwd.as_str(), home).as_str());
    r.append(" / ");
    r.append(session.host.as_str());
    r
}

/// Where a cached preview comes from.
pub open spec fn cached_source(runtime: RuntimeOwner) -> Seq<char> {
    match runtime {
        RuntimeOwner::ExternalFrontend => "external frontend · cached response"@,
        RuntimeOwner::SharedBackend => "Rollcall backend · cached response"@,
        _ => "cached response"@,
    }
}

/// Where a cached preview comes from.
pub fn cached_preview_source(session: &Session) -> (r: &'static str)
    ensures
        r@ == cached_source(session.runtime),
{
    match session.runtime {
        RuntimeOwner::ExternalFrontend => "external frontend · cached response",
        RuntimeOwner::SharedBackend => "Rollcall backend · cached response",
        _ => "cached response",
    }
}

/// A line in pieces of at most so many characters.
pub open spec fn chunks(line: Seq<char>, width: nat) -> Seq<Seq<char>>
    decreases line.len(),
{
    if width == 0 || line.len() <= width {
        seq![line]
    } else {
        seq![line.take(width as int)] + chunks(line.skip(width as int), width)
    }
}

/// Lines in pieces of at most so many characters.
pub open spec fn wrapped(lines: Seq<Seq<char>>, width: nat) -> Seq<Seq<char>>
    decreases lines.len(),
{
    if lines.len() == 0 {
        Seq::empty()
    } else {
        wrapped(lines.drop_last(), width) + chunks(lines.last(), width)
    }
}

/// The lines of a preview: at least one.
pub open spec fn wrapped_body(body: Seq<char>, width: nat) -> Seq<Seq<char>> {
    let lines = wrapped(
        lines_of(body),
        if width == 0 {
            1
        } else {
            width
        },
    );
    if lines.len() == 0 {
        seq![Seq::empty()]
    } else {
        lines
    }
}

fn push_chunks(line: &str, width: usize, out: &mut Vec<String>)
    requires
        width > 0,
    ensures
        texts(final(out)@) == texts(old(out)@) + chunks(line@, width as nat),
{
    let chars: Vec<char> = chars_of(line);
    let ghost before = texts(out@);
    let ghost goal = before + chunks(line@, width as nat);
    let mut i: usize = 0;
    assert(line@.skip(0) =~= line@);
    while chars.len() - i > width
        invariant
            width > 0,
            i <= chars@.len(),
            chars@ == line@,
            goal == texts(out@) + chunks(line@.skip(i as int), width as nat),
        decreases chars@.len() - i,
    {
        let piece: String = string_of(&chars, i, i + width);
        proof {
            let rest = line@.skip(i as int);
            lemma_texts_push(out@, piece);
            assert(piece@ =~= rest.take(width as int));
            assert(rest.skip(width as int) =~= line@.skip(i + width));
            assert(texts(out@) + chunks(rest, width as nat) =~= texts(out@).push(piece@) + chunks(
                line@.skip(i + width),
                width as nat,
            ));
        }
        out.push(piece);
        i += width;
    }
    let piece: String = string_of(&chars, i, chars.len());
    proof {
        lemma_texts_push(out@, piece);
        assert(piece@ =~= line@.skip(i as int));
        assert(texts(out@) + seq![piece@] =~= texts(out@).push(piece@));
    }
    out.push(piece);
}

/// The lines of a preview, each of at most so many characters.
pub fn wrap_preview_body(body: &str, width: usize) -> (r: Vec<String>)
    ensures
        texts(r@) == wrapped_body(body@, width as nat),
{
    let width: usize = if width == 0 { 1 } else { width };
    let all: Vec<String> = lines(body);
    let ghost views = texts(all@);
    let mut r: Vec<String> = Vec::new();
    let mut i: usize = 0;
    assert(views.take(0) =~= Seq::<Seq<char>>::empty());
    assert(texts(r@) =~= Seq::<Seq<char>>::empty());
    while i < all.len()
        invariant
            width > 0,
            i <= all@.len(),
            views == texts(all@),
            texts(r@) == wrapped(views.take(i as int), width as nat),
        decreases all@.len() - i,
    {
        proof {
            assert(views.take(i + 1).drop_last() =~= views.take(i as int));
            assert(views.take(i + 1).last() == all@[i as int]@);
        }
        push_chunks(all[i].as_str(), width, &mut r);
        i += 1;
    }
    assert(views.take(i as int) =~= views);
    if r.len() == 0 {
        assert(texts(r@).len() == 0);
        r.push(String::new());
        assert(texts(r@) =~= seq![Seq::<char>::empty()]);
    } else {
        assert(texts(r@).len() > 0);
    }
    r
}

/// The lines of a preview that are shown, counted from the end.
pub open spec fn window(lines: Seq<Seq<char>>, height: nat, scroll: nat) -> Seq<Seq<char>> {
    let most: nat = if lines.len() > height {
        (lines.len() - height) as nat
    } else {
        0
    };
    let end = lines.len() - (if scroll < most {
        scroll
    } else {
        most
    });
    let start = if end > height {
        end - height
    } else {
        0
    };
    lines.subrange(start, end)
}

/// The lines of a preview that are shown: the newest ones, or older ones where the user
/// scrolled towards them.
pub fn preview_window(lines: &Vec<String>, height: usize, scroll_from_bottom: usize) -> (r: String)
    ensures
        r@ == joined(window(texts(lines@), height as nat, scroll_from_bottom as nat), "\n"@),
{
    let total: usize = lines.len();
    let most: usize = if total > height { total - height } else { 0 };
    let scroll: usize = if scroll_from_bottom < most { scroll_from_bottom } else { most };
    let end: usize = total - scroll;
    let start: usize = if end > height { end - height } else { 0 };
    let mut shown: Vec<String> = Vec::new();
    let mut i: usize = start;
    while i < end
        invariant
            start <= i <= end <= lines@.len(),
            shown@.len() == i - start,
            forall|j: int| 0 <= j < i - start ==> #[trigger] shown@[j] == lines@[start + j],
        decreases end - i,
    {
        shown.push(lines[i].clone());
        i += 1;
    }
    assert(texts(shown@) =~= window(
        texts(lines@),
        height as nat,
        scroll_from_bottom as nat,
    ));
    join_with(&shown, "\n")
}

/// How long ago a moment was, in the largest unit that fits.
pub open spec fn short_age(timestamp: u64, now: u64) -> Seq<char> {
    let seconds: nat = if now < timestamp {
        0
    } else {
        (now - timestamp) as nat
    };
    if seconds < 60 {
        decimal(seconds) + "s"@
    } else if seconds < 3_600 {
        decimal(seconds / 60) + "m"@
    } else if seconds < 86_400 {
        decimal(seconds / 3_600) + "h"@
    } else {
        decimal(seconds / 86_400) + "d"@
    }
}

/// How long ago a moment was, in the largest unit that fits.
pub fn format_age(timestamp: u64, now: u64) -> (r: String)
    ensures
        r@ == short_age(timestamp, now),
{
    let seconds: u64 = if now < timestamp { 0 } else { now - timestamp };
    let (n, unit): (u64, &str) = if seconds < 60 {
        (seconds, "s")
    } else if seconds < 3_600 {
        (seconds / 60, "m")
    } else if seconds < 86_400 {
        (seconds / 3_600, "h")
    } else {
        (seconds / 86_400, "d")
    };
    let mut r: String = decimal_of(n);
    r.append(unit);
    r
}

/// A preview shows at most as many lines as fit, and all of them where they fit.
pub proof fn the_window_fits(lines: Seq<Seq<char>>, height: nat, scroll: nat)
    ensures
        window(lines, height, scroll).len() == if lines.len() < height {
            lines.len()
        } else {
            height
        },
        lines.len() <= height ==> window(lines, height, scroll) == lines,
{
    if lines.len() <= height {
        assert(window(lines, height, scroll) =~= lines);
    }
}

/// Wrapping a line loses nothing of it, and no piece is wider than it may be.
pub proof fn wrapping_loses_nothing(line: Seq<char>, width: nat)
    requires
        width > 0,
    ensures
        chunks(line, width).flatten() == line,
        forall|i: int| 0 <= i < chunks(line, width).len() ==> (#[trigger] chunks(line, width)[i]).len()
            <= width,
    decreases line.len(),
{
    let pieces = chunks(line, width);
    if line.len() <= width {
        reveal_with_fuel(Seq::flatten, 2);
        assert(pieces.drop_first() =~= Seq::<Seq<char>>::empty());
        assert(pieces.flatten() =~= line);
    } else {
        let rest = line.skip(width as int);
        wrapping_loses_nothing(rest, width);
        assert(pieces.drop_first() =~= chunks(rest, width));
        assert(pieces.flatten() =~= line);
        assert forall|i: int| 0 <= i < pieces.len() implies (#[trigger] pieces[i]).len() <= width by {
            if i > 0 {
                assert(pieces[i] == chunks(rest, width)[i - 1]);
            }
        }
    }
}

} // verus!
