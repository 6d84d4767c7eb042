//! Login sessions, as `loginctl` reports them.
use crate::platform::command_line;
use crate::text;
use crate::text::{
    contains, from_chars, from_utf8_lossy, replace, split, split_whitespace, str_contains,
    str_eq, to_chars, to_lowercase, trim_end, Cut,
};
use vstd::prelude::*;
use vstd::string::*;

verus! {

pub const DISPLAY_SERVER_WAYLAND: &'static str = "wayland";

pub const DISPLAY_SERVER_X11: &'static str = "x11";

/// The session number of a process that belongs to no session: minus one.
pub const INVALID_SESSION: &'static str = "4294967295";

/// The word with an index, or nothing where there are fewer words.
pub open spec fn word_at(line: Seq<char>, i: int) -> Seq<char> {
    if 0 <= i < text::words(line).len() {
        text::words(line)[i]
    } else {
        seq![]
    }
}

/// The words of a line with the given indices.
pub open spec fn values_of(indices: Seq<usize>, line: Seq<char>) -> Seq<Seq<char>> {
    indices.map_values(|i: usize| word_at(line, i as int))
}

/// Whether a line of a session list is not a session: "3 sessions listed." or too short a line.
pub open spec fn line_ignored(line: Seq<char>) -> bool {
    text::occurs(line, "sessions"@) || text::pieces(line, ' ').len() < 4
}

/// Whether a user is one that a display manager runs its greeter as.
pub open spec fn greeter_user(name: Seq<char>) -> bool {
    name == "gdm"@ || name == "sddm"@
}

/// Whether a user is one that a display manager runs its greeter as.
pub fn is_gdm_user(username: &str) -> (yes: bool)
    ensures
        yes == greeter_user(username@),
{
    str_eq(username, "gdm") || str_eq(username, "sddm")
}

/// The words of a line with the given indices.
pub(crate) fn line_values_of(indices: &[usize], line: &[char]) -> (values: Vec<String>)
    ensures
        text::texts(values@) == values_of(indices@, line@),
{
    let words = split_whitespace(line);
    let ghost all = words@.map_values(|w: Vec<char>| w@);
    let mut values: Vec<String> = Vec::new();
    let mut k: usize = 0;
    while k < indices.len()
        invariant
            k <= indices@.len(),
            all == text::words(line@),
            all == words@.map_values(|w: Vec<char>| w@),
            text::texts(values@) == values_of(indices@.take(k as int), line@),
        decreases indices@.len() - k,
    {
        let i: usize = indices[k];
        let value = if i < words.len() {
            assert(all[i as int] == words@[i as int]@);
            from_chars(words[i].as_slice())
        } else {
            String::new()
        };
        assert(value@ == word_at(line@, i as int));
        let ghost before = values@;
        values.push(value);
        k += 1;
        assert(text::texts(values@) =~= text::texts(before).push(value@));
        assert(values_of(indices@.take(k as int), line@) =~= values_of(
            indices@.take(k - 1),
            line@,
        ).push(value@));
    }
    assert(indices@.take(k as int) =~= indices@);
    values
}

/// The words of a line with the given indices; what is not there is empty.
pub fn line_values(indices: &[usize], line: &str) -> (values: Vec<String>)
    ensures
        text::texts(values@) == values_of(indices@, line@),
{
    let line = to_chars(line);
    line_values_of(indices, line.as_slice())
}

/// Whether a line of a session list is not a session.
pub(crate) fn ignore_line(line: &[char]) -> (ignore: bool)
    ensures
        ignore == line_ignored(line@),
{
    let sessions = to_chars("sessions");
    if contains(line, sessions.as_slice()) {
        return true;
    }
    let pieces = split(line, ' ');
    assert(pieces@.map_values(|w: Vec<char>| w@).len() == pieces@.len());
    pieces.len() < 4
}

/// Whether a line of a session list is not a session.
pub fn ignore_loginctl_line(line: &str) -> (ignore: bool)
    ensures
        ignore == line_ignored(line@),
{
    let line = to_chars(line);
    ignore_line(line.as_slice())
}

/// What `loginctl` is asked about a session.
#[derive(Debug, Clone, Copy, PartialEq, Eq, Structural)]
pub enum SessionQuery {
    State,
    Type,
    LockedHint,
    /// All properties.
    Properties,
}

/// The arguments with which `loginctl` is asked about a session.
pub open spec fn query_args(query: SessionQuery, sid: Seq<char>) -> Seq<Seq<char>> {
    match query {
        SessionQuery::State => seq!["show-session"@, "-p"@, "State"@, sid],
        SessionQuery::Type => seq!["show-session"@, "-p"@, "Type"@, sid],
        SessionQuery::LockedHint => seq!["show-session"@, sid, "--property=LockedHint"@],
        SessionQuery::Properties => seq!["show-session"@, sid],
    }
}

/// The arguments with which `loginctl` is asked about a session.
pub fn loginctl_args<'a>(query: SessionQuery, sid: &'a str) -> (args: Vec<&'a str>)
    ensures
        command_line::slices_view(args@) == query_args(query, sid@),
{
    let args: Vec<&'a str> = match query {
        SessionQuery::State => vec!["show-session", "-p", "State", sid],
        SessionQuery::Type => vec!["show-session", "-p", "Type", sid],
        SessionQuery::LockedHint => vec!["show-session", sid, "--property=LockedHint"],
        SessionQuery::Properties => vec!["show-session", sid],
    };
    assert(command_line::slices_view(args@) =~= query_args(query, sid@));
    args
}

/// Whether the state of a session, as it is reported, is active.
pub fn says_active(state: &str) -> (yes: bool)
    ensures
        yes == text::occurs(state@, "active"@),
{
    str_contains(state, "active")
}

/// Whether a session is active, by what `loginctl` wrote about its state. It is not where the
/// command could not be run.
pub fn is_active(stdout: Option<&[u8]>) -> (yes: bool)
    ensures
        yes == (text::maybe_slice(stdout) matches Some(out) && text::occurs(
            text::text_of(out),
            "active"@,
        )),
{
    match stdout {
        Some(out) => says_active(from_utf8_lossy(out).as_str()),
        None => false,
    }
}

/// Whether the properties of a session say that it is active and on the first seat.
pub fn says_active_and_seat0(properties: &str) -> (yes: bool)
    ensures
        yes == (text::occurs(properties@, "State=active"@) && text::occurs(
            properties@,
            "Seat=seat0"@,
        )),
{
    str_contains(properties, "State=active") && str_contains(properties, "Seat=seat0")
}

/// Whether a session is active and on the first seat, by what `loginctl` wrote about all its
/// properties.
pub fn is_active_and_seat0(stdout: Option<&[u8]>) -> (yes: bool)
    ensures
        yes == (text::maybe_slice(stdout) matches Some(out) && text::occurs(
            text::text_of(out),
            "State=active"@,
        ) && text::occurs(text::text_of(out), "Seat=seat0"@)),
{
    match stdout {
        Some(out) => says_active_and_seat0(from_utf8_lossy(out).as_str()),
        None => false,
    }
}

/// Whether the properties of a session say that it is locked.
pub fn says_locked(properties: &str) -> (yes: bool)
    ensures
        yes == text::occurs(properties@, "LockedHint=yes"@),
{
    str_contains(properties, "LockedHint=yes")
}

/// Whether a session is locked or its user was switched away, by what `loginctl` wrote about its
/// hint.
pub fn is_session_locked(stdout: Option<&[u8]>) -> (yes: bool)
    ensures
        yes == (text::maybe_slice(stdout) matches Some(out) && text::occurs(
            text::text_of(out),
            "LockedHint=yes"@,
        )),
{
    match stdout {
        Some(out) => says_locked(from_utf8_lossy(out).as_str()),
        None => false,
    }
}

/// The display server that a session's reported type names.
pub open spec fn reported_server(report: Option<Seq<char>>) -> Seq<char> {
    match report {
        Some(report) => text::trimmed_end(
            text::replaced(report, "Type="@, ""@),
            Cut::Whitespace,
        ),
        None => seq![],
    }
}

/// The display server of a session, in lower case: what was reported for it, unless that says
/// nothing of a display; then what the environment says, and `x11` where that says nothing either.
pub open spec fn server_of_session(
    report: Option<Seq<char>>,
    session_type: Option<Seq<char>>,
) -> Seq<char> {
    let reported = reported_server(report);
    if reported.len() > 0 && reported != "tty"@ && reported != "unspecified"@ {
        text::lower(reported)
    } else {
        match session_type {
            Some(t) => if t.len() > 0 {
                text::lower(t)
            } else {
                "x11"@
            },
            None => "x11"@,
        }
    }
}

/// A text in lower case.
fn lowered(s: &str) -> (out: String)
    ensures
        out@ == text::lower(s@),
{
    to_lowercase(s)
}

/// The display server of a session, by its reported type and the environment's
/// `XDG_SESSION_TYPE`.
pub fn server_from_report(report: Option<&str>, xdg_session_type: Option<&str>) -> (server: String)
    ensures
        server@ == server_of_session(
            text::maybe_text(report),
            text::maybe_text(xdg_session_type),
        ),
{
    let reported: String = match report {
        Some(report) => {
            let chars = to_chars(report);
            let pattern = to_chars("Type=");
            let with = to_chars("");
            proof {
                reveal_strlit("Type=");
            }
            let replaced = replace(chars.as_slice(), pattern.as_slice(), with.as_slice());
            from_chars(trim_end(replaced.as_slice(), Cut::Whitespace))
        },
        None => String::new(),
    };
    if reported.as_str().is_empty() || str_eq(reported.as_str(), "tty") || str_eq(
        reported.as_str(),
        "unspecified",
    ) {
        if let Some(t) = xdg_session_type {
            if !t.is_empty() {
                return lowered(t);
            }
        }
        return DISPLAY_SERVER_X11.to_owned();
    }
    lowered(reported.as_str())
}

/// The display server of a session, by what `loginctl` wrote about its type and the environment's
/// `XDG_SESSION_TYPE`.
pub fn get_display_server_of_session(
    stdout: Option<&[u8]>,
    xdg_session_type: Option<&str>,
) -> (server: String)
    ensures
        server@ == server_of_session(
            match text::maybe_slice(stdout) {
                Some(out) => Some(text::text_of(out)),
                None => None,
            },
            text::maybe_text(xdg_session_type),
        ),
{
    match stdout {
        Some(out) => {
            let report = from_utf8_lossy(out);
            server_from_report(Some(report.as_str()), xdg_session_type)
        },
        None => server_from_report(None, xdg_session_type),
    }
}

/// Whether the desktop is on Wayland.
pub fn is_desktop_wayland(display_server: &str) -> (yes: bool)
    ensures
        yes == (display_server@ == "wayland"@),
{
    str_eq(display_server, DISPLAY_SERVER_WAYLAND)
}

/// Whether the desktop is on X11, or there is none.
pub fn is_x11_or_headless(display_server: &str) -> (yes: bool)
    ensures
        yes == (display_server@ != "wayland"@),
{
    !is_desktop_wayland(display_server)
}

/// The values for some indices and then others are the values for the ones and then those for the
/// others: what is found for an index does not depend on the indices beside it.
pub proof fn law_values_go_by_index(a: Seq<usize>, b: Seq<usize>, line: Seq<char>)
    ensures
        values_of(a + b, line) == values_of(a, line) + values_of(b, line),
{
    assert(values_of(a + b, line) =~= values_of(a, line) + values_of(b, line));
}

/// There is one value for each index, in the order of the indices: the word that the index counts
/// off from zero, or an empty value where the line has not so many words.
pub proof fn law_values_are_words(indices: Seq<usize>, line: Seq<char>, k: int)
    requires
        0 <= k < indices.len(),
    ensures
        values_of(indices, line).len() == indices.len(),
        indices[k] < text::words(line).len() ==> values_of(indices, line)[k] == text::words(
            line,
        )[indices[k] as int],
        indices[k] >= text::words(line).len() ==> values_of(indices, line)[k].len() == 0,
{
}

/// A line of the list that says nothing of sessions and has three spaces or more is a session's;
/// every other is not.
pub proof fn law_session_lines_have_four_pieces(line: Seq<char>)
    ensures
        line_ignored(line) <==> text::occurs(line, "sessions"@) || text::pieces(line, ' ').len()
            < 4,
{
}

/// Where nothing is left to replace, nothing changes.
proof fn lemma_nothing_replaced(s: Seq<char>, pattern: Seq<char>, with: Seq<char>)
    requires
        forall|i: int| !text::occurs_at(s, pattern, i),
    ensures
        text::replaced(s, pattern, with) == s,
    decreases s.len(),
{
    if s.len() > 0 && pattern.len() > 0 {
        let rest = s.drop_first();
        assert forall|i: int| !text::occurs_at(rest, pattern, i) by {
            if text::occurs_at(rest, pattern, i) {
                assert(s.subrange(i + 1, i + 1 + pattern.len()) =~= rest.subrange(
                    i,
                    i + pattern.len(),
                ));
                assert(text::occurs_at(s, pattern, i + 1));
            }
        }
        lemma_nothing_replaced(rest, pattern, with);
        assert(seq![s[0]] + rest =~= s);
    }
}

/// A session is on the display server that was reported for it, whatever the environment says.
/// Only where the report names none, as for `tty` and `unspecified`, the environment decides, and
/// where that says nothing either it is `x11`.
pub proof fn law_report_comes_before_the_environment(
    kind: Seq<char>,
    session_type: Option<Seq<char>>,
)
    requires
        kind.len() > 0 ==> !text::whitespace(kind.last()),
        forall|i: int| !text::occurs_at(kind + seq!['\n'], "Type="@, i),
    ensures
        kind.len() > 0 && kind != "tty"@ && kind != "unspecified"@ ==> server_of_session(
            Some("Type="@ + kind + seq!['\n']),
            session_type,
        ) == text::lower(kind),
        kind.len() == 0 || kind == "tty"@ || kind == "unspecified"@ ==> server_of_session(
            Some("Type="@ + kind + seq!['\n']),
            session_type,
        ) == server_of_session(None, session_type),
{
    reveal_strlit("Type=");
    reveal_strlit("");
    let rest = kind + seq!['\n'];
    let report = "Type="@ + kind + seq!['\n'];
    assert(report.subrange(0, 5) =~= "Type="@);
    assert(report.skip(5) =~= rest);
    lemma_nothing_replaced(rest, "Type="@, ""@);
    assert(text::replaced(report, "Type="@, ""@) =~= rest);
    assert(rest.drop_last() =~= kind);
    assert(rest.last() == '\n');
    assert(text::whitespace('\n'));
    reveal_with_fuel(text::trimmed_end, 3);
    assert(text::trimmed_end(rest, Cut::Whitespace) == kind);
}

/// Without a report, the environment's session type is the display server, and `x11` where it has
/// none.
pub proof fn law_environment_is_asked_without_a_report(session_type: Option<Seq<char>>)
    ensures
        session_type matches Some(t) && t.len() > 0 ==> server_of_session(None, session_type)
            == text::lower(session_type->0),
        !(session_type matches Some(t) && t.len() > 0) ==> server_of_session(None, session_type)
            == "x11"@,
{
}

} // verus!
