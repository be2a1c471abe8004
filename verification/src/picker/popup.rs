//! The picker in a popup of the multiplexer, and the lines of a watch.

use vstd::prelude::*;

use crate::json::{json_quoted, json_text, quoted, text_of};
use crate::quoting::{has_nul, join, lemma_decimal_has_no_nul, reads_back, shell_command};
use crate::store::SessionTransition;
use crate::text::{
    chars_of, decimal, decimal_of, is_space, owned, texts, trim, trimmed, trimmed_end,
};

use super::view::theme::Theme;
use super::PickerError;

verus! {

/// The words that run the picker in the popup.
pub open spec fn picker_words(executable: Seq<char>, host: Seq<char>, limit: usize) -> Seq<
    Seq<char>,
> {
    seq![executable, "pick"@, "--host"@, host, "--limit"@, decimal(limit as nat)]
}

/// The words that open the popup over the client that asked for it. The picker in it is told
/// of the look, of the client, and of the file in which it leaves what was chosen.
pub open spec fn popup_words(
    client: Seq<char>,
    theme: Theme,
    selection_path: Seq<char>,
    command: Seq<char>,
) -> Seq<Seq<char>> {
    seq![
        "display-popup"@,
        "-E"@,
        "-c"@,
        client,
        "-e"@,
        "ROLLCALL_THEME="@ + theme.word(),
        "-e"@,
        "ROLLCALL_TMUX_CLIENT="@ + client,
        "-e"@,
        "ROLLCALL_PICK_SELECTION="@ + selection_path,
        "-w"@,
        "90%"@,
        "-h"@,
        "80%"@,
        command,
    ]
}

/// The arguments with which the multiplexer opens the picker in a popup.
pub fn popup_arguments(
    client: &str,
    theme: Theme,
    selection_path: &str,
    executable: &str,
    host: &str,
    limit: usize,
) -> (r: Result<Vec<String>, PickerError>)
    ensures
        r is Err <==> has_nul(executable@) || has_nul(host@),
        r matches Err(error) ==> error is PopupFailed && error->PopupFailed_0@
            == "cannot shell-quote string containing nul byte"@,
        r matches Ok(arguments) ==> texts(arguments@) == popup_words(
            client@,
            theme,
            selection_path@,
            shell_command(picker_words(executable@, host@, limit)),
        ) && reads_back(picker_words(executable@, host@, limit)),
{
    let count: String = decimal_of(limit as u64);
    let words: Vec<String> = owned(
        [executable, "pick", "--host", host, "--limit", count.as_str()],
    );
    proof {
        let expected = picker_words(executable@, host@, limit);
        assert(texts(words@) =~= expected);
        reveal_strlit("pick");
        reveal_strlit("--host");
        reveal_strlit("--limit");
        lemma_decimal_has_no_nul(limit as nat);
        assert(expected[0] == executable@);
        assert(!has_nul(expected[1]));
        assert(!has_nul(expected[2]));
        assert(expected[3] == host@);
        assert(!has_nul(expected[4]));
        assert(!has_nul(expected[5]));
    }
    let command: String = match join(&words) {
        Ok(command) => command,
        Err(_error) => {
            return Err(
                PickerError::PopupFailed(
                    "cannot shell-quote string containing nul byte".to_owned(),
                ),
            );
        },
    };
    let mut look: String = "ROLLCALL_THEME=".to_owned();
    look.append(theme.name());
    let mut origin: String = "ROLLCALL_TMUX_CLIENT=".to_owned();
    origin.append(client);
    let mut selection: String = "ROLLCALL_PICK_SELECTION=".to_owned();
    selection.append(selection_path);
    let r: Vec<String> = owned(
        [
            "display-popup",
            "-E",
            "-c",
            client,
            "-e",
            look.as_str(),
            "-e",
            origin.as_str(),
            "-e",
            selection.as_str(),
            "-w",
            "90%",
            "-h",
            "80%",
            command.as_str(),
        ],
    );
    assert(texts(r@) =~= popup_words(
        client@,
        theme,
        selection_path@,
        shell_command(picker_words(executable@, host@, limit)),
    ));
    Ok(r)
}

/// What a popup that closed left: nothing where it failed or where the user chose nothing, and
/// else the session, which is opened only now.
pub open spec fn left_by_popup(success: bool, content: Seq<char>) -> Option<Seq<char>> {
    if !success || trimmed(content).len() == 0 {
        None
    } else {
        json_text(content)
    }
}

/// What a popup that closed left in its file.
pub fn popup_selection(success: bool, status: &str, content: &str) -> (r: Result<
    Option<String>,
    PickerError,
>)
    ensures
        !success ==> (r matches Err(error) && error is PopupFailed && error->PopupFailed_0@
            == status@),
        success && trimmed(content@).len() > 0 && json_text(content@) is None ==> (r matches Err(
            error,
        ) && error is PopupFailed && error->PopupFailed_0@ == "invalid selection"@),
        success && (trimmed(content@).len() == 0 || json_text(content@) is Some) ==> (r matches Ok(
            selection,
        ) && (match selection {
            Some(id) => Some(id@),
            None => None,
        }) == left_by_popup(success, content@)),
{
    if !success {
        return Err(PickerError::PopupFailed(status.to_owned()));
    }
    if trim(content).as_str().is_empty() {
        return Ok(None);
    }
    match text_of(content) {
        Some(id) => Ok(Some(id)),
        None => Err(PickerError::PopupFailed("invalid selection".to_owned())),
    }
}

/// What the picker in a popup leaves in the file for the session that was chosen. It is what
/// is then opened.
pub fn selection_text(session_id: &str) -> (r: String)
    ensures
        r@ == json_quoted(session_id@),
        left_by_popup(true, r@) == Some(session_id@),
{
    let r: String = quoted(session_id);
    proof {
        assert(r@.skip(0) =~= r@);
        lemma_trimmed_end_nonempty(r@);
    }
    r
}

/// A text that starts with no white space does not vanish when its end is trimmed.
proof fn lemma_trimmed_end_nonempty(s: Seq<char>)
    requires
        s.len() > 0,
        !is_space(s[0]),
    ensures
        trimmed_end(s).len() > 0,
    decreases s.len(),
{
    if is_space(s.last()) {
        assert(s.drop_last()[0] == s[0]);
        lemma_trimmed_end_nonempty(s.drop_last());
    }
}

/// A popup that failed, or in which nothing was chosen, opens no session.
pub proof fn only_a_choice_is_opened(success: bool, content: Seq<char>)
    ensures
        !success || trimmed(content).len() == 0 ==> left_by_popup(success, content) is None,
{
}

// ---- watching ----

/// A title without what would break a line of fields.
pub open spec fn flat_title(title: Seq<char>) -> Seq<char> {
    title.map_values(
        |c: char|
            if c == '\t' || c == '\n' || c == '\r' {
                ' '
            } else {
                c
            },
    )
}

/// The line that tells of a transition: its fields between tabs.
pub open spec fn transition_text(transition: SessionTransition) -> Seq<char> {
    decimal(transition.observed_at_unix_seconds as nat) + "\t"@ + transition.kind.name() + "\t"@
        + transition.host@ + "\t"@ + flat_title(transition.title@) + "\t"@
        + transition.session_id@
}

/// The line that tells of a transition: its fields between tabs.
pub fn transition_line(transition: &SessionTransition) -> (r: String)
    ensures
        r@ == transition_text(*transition),
{
    let mut r: String = decimal_of(transition.observed_at_unix_seconds);
    r.append("\t");
    r.append(transition.kind.as_str());
    r.append("\t");
    r.append(transition.host.as_str());
    r.append("\t");
    let title: Vec<char> = chars_of(transition.title.as_str());
    let ghost before = r@;
    let mut i: usize = 0;
    assert(r@ =~= before + flat_title(title@.take(0)));
    while i < title.len()
        invariant
            i <= title@.len(),
            r@ == before + flat_title(title@.take(i as int)),
        decreases title@.len() - i,
    {
        let c: char = title[i];
        let flat: char = if c == '\t' || c == '\n' || c == '\r' { ' ' } else { c };
        assert(flat_title(title@.take(i + 1)) =~= flat_title(title@.take(i as int)).push(flat));
        r.push(flat);
        i += 1;
        assert(r@ =~= before + flat_title(title@.take(i as int)));
    }
    assert(title@.take(i as int) =~= title@);
    r.append("\t");
    r.append(transition.session_id.as_str());
    r
}

} // verus!
