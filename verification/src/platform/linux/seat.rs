//! The session at the first seat, found by asking `loginctl` one question after another.
use crate::platform::linux::session;
use crate::platform::linux::session::{ignore_line, is_gdm_user, line_values_of};
use crate::text;
use crate::text::{
    contains, from_chars, from_utf8_lossy, lines, split_whitespace, str_eq, to_chars,
};
use vstd::prelude::*;
use vstd::slice::slice_to_vec;
use vstd::string::*;

verus! {

/// What `loginctl` would answer.
pub struct Sessions {
    /// Whether a session is active.
    pub active: spec_fn(Seq<char>) -> bool,
    /// The display server of a session.
    pub server: spec_fn(Seq<char>) -> Seq<char>,
}

/// Whether a line is looked at. The first pass is for sessions at the first seat; as some systems
/// have no such seat, the second is for all.
pub open spec fn looked_at(line: Seq<char>, second: bool) -> bool {
    &&& !session::line_ignored(line)
    &&& second || text::occurs(line, "seat0"@)
    &&& text::words(line).len() > 0
}

/// Whether the session of a line is a greeter's.
pub open spec fn greeter_line(line: Seq<char>) -> bool {
    session::greeter_user(session::word_at(line, 2))
}

/// Whether an active session is taken, given its display server. A greeter on Wayland may have to
/// be passed over, and in the second pass a session without a display is.
pub open spec fn server_taken(
    line: Seq<char>,
    second: bool,
    ignore_gdm_wayland: bool,
    server: Seq<char>,
) -> bool {
    &&& !(ignore_gdm_wayland && greeter_line(line) && server == "wayland"@)
    &&& second ==> server != "tty"@ && server != "unspecified"@
}

/// Whether the session of a line is the one that is looked for.
pub open spec fn line_taken(
    line: Seq<char>,
    second: bool,
    ignore_gdm_wayland: bool,
    sessions: Sessions,
) -> bool {
    &&& looked_at(line, second)
    &&& (sessions.active)(text::words(line)[0])
    &&& server_taken(
        line,
        second,
        ignore_gdm_wayland,
        (sessions.server)(text::words(line)[0]),
    )
}

/// The first line from an index on whose session is taken.
pub open spec fn pass_from(
    lines: Seq<Seq<char>>,
    i: int,
    second: bool,
    ignore_gdm_wayland: bool,
    sessions: Sessions,
) -> Option<Seq<char>>
    decreases lines.len() - i,
{
    if i < 0 || i >= lines.len() {
        None
    } else if line_taken(lines[i], second, ignore_gdm_wayland, sessions) {
        Some(lines[i])
    } else {
        pass_from(lines, i + 1, second, ignore_gdm_wayland, sessions)
    }
}

/// The line that is found from an index of a pass on. Where there is none it is as if an empty
/// line had been found.
pub open spec fn found_from(
    lines: Seq<Seq<char>>,
    i: int,
    second: bool,
    ignore_gdm_wayland: bool,
    sessions: Sessions,
) -> Seq<char> {
    match pass_from(lines, i, second, ignore_gdm_wayland, sessions) {
        Some(line) => line,
        None => if second {
            seq![]
        } else {
            match pass_from(lines, 0, true, ignore_gdm_wayland, sessions) {
                Some(line) => line,
                None => seq![],
            }
        },
    }
}

/// The line that is found in a session list: at the first seat, or else anywhere. Without a list
/// it is as if an empty line had been found.
pub open spec fn seat0_line(
    list: Option<Seq<char>>,
    ignore_gdm_wayland: bool,
    sessions: Sessions,
) -> Seq<char> {
    match list {
        Some(list) => found_from(text::lines_of(list), 0, false, ignore_gdm_wayland, sessions),
        None => seq![],
    }
}

/// What a search waits for.
#[derive(Debug, Clone, Copy, PartialEq, Eq, Structural)]
pub enum SeatStage {
    /// Whether the session of the line is active.
    Active,
    /// The display server of the session, which is active.
    Server,
    /// Nothing: the search is over.
    Over,
}

/// A search for the session at the first seat.
pub struct SeatSearch {
    pub lines: Vec<Vec<char>>,
    pub indices: Vec<usize>,
    pub ignore_gdm_wayland: bool,
    pub second: bool,
    pub at: usize,
    pub stage: SeatStage,
}

/// An answer.
pub enum SeatAnswer {
    Active(bool),
    Server(String),
}

/// What is to be done next.
pub enum SeatAction {
    /// Find out whether this session is active.
    AskActive(String),
    /// Find out the display server of this session.
    AskServer(String),
    /// The search has ended with these values.
    Finish(Vec<String>),
}

impl SeatSearch {
    /// The lines of the session list.
    pub open spec fn list(self) -> Seq<Seq<char>> {
        self.lines@.map_values(|line: Vec<char>| line@)
    }

    /// While it waits for an answer, a search is at a line that is looked at.
    pub open spec fn wf(self) -> bool {
        !(self.stage is Over) ==> self.at < self.lines@.len() && looked_at(
            self.list()[self.at as int],
            self.second,
        )
    }

    /// The session that the search asks about.
    pub open spec fn sid(self) -> Seq<char> {
        text::words(self.list()[self.at as int])[0]
    }

    /// Whether an answer is one to the question that was asked.
    pub open spec fn expects(self, answer: SeatAnswer) -> bool {
        match answer {
            SeatAnswer::Active(_) => self.stage is Active,
            SeatAnswer::Server(_) => self.stage is Server,
        }
    }

    /// Whether an answer is the one that `loginctl` gives.
    pub open spec fn agrees(self, answer: SeatAnswer, sessions: Sessions) -> bool {
        match answer {
            SeatAnswer::Active(active) => (sessions.active)(self.sid()) == active,
            SeatAnswer::Server(server) => (sessions.server)(self.sid()) == server@,
        }
    }

    /// The line that the search will find.
    pub open spec fn will_find(self, sessions: Sessions) -> Seq<char> {
        let here = self.list()[self.at as int];
        if self.stage is Server && server_taken(
            here,
            self.second,
            self.ignore_gdm_wayland,
            (sessions.server)(self.sid()),
        ) {
            here
        } else {
            found_from(
                self.list(),
                if self.stage is Server {
                    self.at + 1
                } else {
                    self.at as int
                },
                self.second,
                self.ignore_gdm_wayland,
                sessions,
            )
        }
    }

    /// Whether the search goes on as the action says: it asks about the line it is at, or it has
    /// ended with the values of a line.
    pub open spec fn does(self, action: SeatAction, found: Seq<char>) -> bool {
        match action {
            SeatAction::AskActive(sid) => self.stage is Active && sid@ == self.sid(),
            SeatAction::AskServer(sid) => self.stage is Server && sid@ == self.sid(),
            SeatAction::Finish(values) => self.stage is Over && text::texts(values@)
                == session::values_of(self.indices@, found),
        }
    }

    /// How much of the list is still to be looked at.
    pub open spec fn left(self) -> nat {
        let lines = self.lines@.len() as int;
        let here = (if self.stage is Over {
            0int
        } else if self.stage is Server {
            1
        } else {
            2
        });
        ((if self.second {
            0int
        } else {
            2 * lines + 3
        }) + 2 * (lines - self.at) + here) as nat
    }
}

/// What is found from an index on does not change where the line there is not taken.
proof fn lemma_line_passed_over(search: SeatSearch, sessions: Sessions)
    requires
        search.at < search.lines@.len(),
        !line_taken(
            search.list()[search.at as int],
            search.second,
            search.ignore_gdm_wayland,
            sessions,
        ),
    ensures
        found_from(
            search.list(),
            search.at as int,
            search.second,
            search.ignore_gdm_wayland,
            sessions,
        ) == found_from(
            search.list(),
            search.at + 1,
            search.second,
            search.ignore_gdm_wayland,
            sessions,
        ),
{
}

/// Goes on from an index to the next line that is looked at.
fn advance(search: &mut SeatSearch) -> (action: SeatAction)
    requires
        old(search).at <= old(search).lines@.len(),
        old(search).stage is Active,
    ensures
        final(search).wf(),
        final(search).at <= final(search).lines@.len(),
        final(search).lines == old(search).lines,
        final(search).indices == old(search).indices,
        final(search).ignore_gdm_wayland == old(search).ignore_gdm_wayland,
        !(final(search).stage is Server),
        final(search).left() <= old(search).left(),
        !(action is Finish) ==> forall|sessions: Sessions|
            #![trigger final(search).will_find(sessions)]
            #![trigger old(search).will_find(sessions)]
            final(search).will_find(sessions) == old(search).will_find(sessions),
        action is Finish ==> forall|sessions: Sessions| #[trigger]
            old(search).will_find(sessions) == Seq::<char>::empty(),
        final(search).does(action, seq![]),
    decreases
        if old(search).second {
            0int
        } else {
            1
        },
        old(search).lines@.len() - old(search).at,
{
    let ghost start = *search;
    let seat0 = to_chars("seat0");
    while search.at < search.lines.len()
        invariant
            seat0@ == "seat0"@,
            start.stage is Active,
            search.at <= search.lines@.len(),
            start.at <= search.at,
            *search == (SeatSearch { at: search.at, ..start }),
            *old(search) == start,
            forall|sessions: Sessions|
                #![trigger start.will_find(sessions)]
                start.will_find(sessions) == found_from(
                    search.list(),
                    search.at as int,
                    search.second,
                    search.ignore_gdm_wayland,
                    sessions,
                ),
        decreases search.lines@.len() - search.at,
    {
        let line = &search.lines[search.at];
        assert(line@ == search.list()[search.at as int]);
        if !ignore_line(line.as_slice()) && (search.second || contains(
            line.as_slice(),
            seat0.as_slice(),
        )) {
            let words = split_whitespace(line.as_slice());
            let ghost all = words@.map_values(|w: Vec<char>| w@);
            if words.len() > 0 {
                assert(all[0] == words@[0]@);
                let sid = from_chars(words[0].as_slice());
                return SeatAction::AskActive(sid);
            }
            assert(all.len() == 0);
        }
        proof {
            assert forall|sessions: Sessions|
                #![trigger start.will_find(sessions)]
                start.will_find(sessions) == found_from(
                    search.list(),
                    search.at + 1,
                    search.second,
                    search.ignore_gdm_wayland,
                    sessions,
                ) by {
                lemma_line_passed_over(*search, sessions);
            }
        }
        search.at = search.at + 1;
    }
    if search.second {
        search.stage = SeatStage::Over;
        let values = line_values_of(search.indices.as_slice(), to_chars("").as_slice());
        proof {
            reveal_strlit("");
            assert(""@ =~= seq![]);
        }
        SeatAction::Finish(values)
    } else {
        search.second = true;
        search.at = 0;
        let ghost again = *search;
        let action = advance(search);
        proof {
            assert forall|sessions: Sessions| #[trigger]
                start.will_find(sessions) == again.will_find(sessions) by {}
        }
        action
    }
}

/// Whether a search that has just begun will find what is to be found in a session list, whatever
/// the sessions are, and has asked its first question or ended.
pub open spec fn begins_well(
    search: SeatSearch,
    action: SeatAction,
    indices: Seq<usize>,
    list: Option<Seq<char>>,
    ignore_gdm_wayland: bool,
) -> bool {
    &&& search.wf()
    &&& search.at <= search.lines@.len()
    &&& search.indices@ == indices
    &&& !(action is Finish) ==> search.does(action, seq![])
    &&& forall|sessions: Sessions| #[trigger]
        seat0_line(list, ignore_gdm_wayland, sessions) == (match action {
            SeatAction::Finish(_) => seq![],
            _ => search.will_find(sessions),
        })
    &&& action matches SeatAction::Finish(values) ==> text::texts(values@) == session::values_of(
        indices,
        seq![],
    )
}

/// Begins to search a session list for the words with the given indices.
pub fn search_seat0(indices: &[usize], ignore_gdm_wayland: bool, list: Option<&str>) -> (out: (
    SeatSearch,
    SeatAction,
))
    ensures
        begins_well(out.0, out.1, indices@, text::maybe_text(list), ignore_gdm_wayland),
{
    let ghost listed = text::maybe_text(list);
    let lines: Vec<Vec<char>> = match list {
        Some(list) => lines(to_chars(list).as_slice()),
        None => Vec::new(),
    };
    let mut search = SeatSearch {
        lines,
        indices: slice_to_vec(indices),
        ignore_gdm_wayland,
        second: false,
        at: 0,
        stage: SeatStage::Active,
    };
    let ghost begun = search;
    let action = advance(&mut search);
    proof {
        assert forall|sessions: Sessions| #[trigger]
            seat0_line(listed, ignore_gdm_wayland, sessions) == begun.will_find(sessions) by {
            if listed is None {
                assert(begun.list() =~= seq![]);
            }
        }
    }
    (search, action)
}

/// Begins to search what `loginctl` wrote for the words with the given indices.
pub fn _get_values_of_seat0(
    indices: &[usize],
    ignore_gdm_wayland: bool,
    stdout: Option<&[u8]>,
) -> (out: (SeatSearch, SeatAction))
    ensures
        begins_well(
            out.0,
            out.1,
            indices@,
            match text::maybe_slice(stdout) {
                Some(bytes) => Some(text::text_of(bytes)),
                None => None,
            },
            ignore_gdm_wayland,
        ),
{
    match stdout {
        Some(bytes) => {
            let list = from_utf8_lossy(bytes);
            search_seat0(indices, ignore_gdm_wayland, Some(list.as_str()))
        },
        None => search_seat0(indices, ignore_gdm_wayland, None),
    }
}

/// Begins to search what `loginctl` wrote, passing over a greeter on Wayland.
pub fn get_values_of_seat0(indices: &[usize], stdout: Option<&[u8]>) -> (out: (
    SeatSearch,
    SeatAction,
))
    ensures
        begins_well(
            out.0,
            out.1,
            indices@,
            match text::maybe_slice(stdout) {
                Some(bytes) => Some(text::text_of(bytes)),
                None => None,
            },
            true,
        ),
{
    _get_values_of_seat0(indices, true, stdout)
}

/// Begins to search what `loginctl` wrote, a greeter on Wayland included.
pub fn get_values_of_seat0_with_gdm_wayland(indices: &[usize], stdout: Option<&[u8]>) -> (out: (
    SeatSearch,
    SeatAction,
))
    ensures
        begins_well(
            out.0,
            out.1,
            indices@,
            match text::maybe_slice(stdout) {
                Some(bytes) => Some(text::text_of(bytes)),
                None => None,
            },
            false,
        ),
{
    _get_values_of_seat0(indices, false, stdout)
}

/// Whether a search was carried on well: whatever the sessions are, if the answer agrees with
/// them, the search will still find the same line, or it has ended with the values of that line.
pub open spec fn carried_on(
    before: SeatSearch,
    answer: SeatAnswer,
    after: SeatSearch,
    action: SeatAction,
) -> bool {
    &&& after.indices == before.indices
    &&& !(action is Finish) ==> after.does(action, seq![])
    &&& action is Finish ==> after.stage is Over
    &&& forall|sessions: Sessions| #[trigger]
        before.agrees(answer, sessions) ==> match action {
            SeatAction::Finish(values) => text::texts(values@) == session::values_of(
                before.indices@,
                before.will_find(sessions),
            ),
            _ => after.will_find(sessions) == before.will_find(sessions),
        }
}

impl SeatSearch {
    /// The values of the line that the search is at.
    fn values_here(&self) -> (values: Vec<String>)
        requires
            self.at < self.lines@.len(),
        ensures
            text::texts(values@) == session::values_of(
                self.indices@,
                self.list()[self.at as int],
            ),
    {
        line_values_of(self.indices.as_slice(), self.lines[self.at].as_slice())
    }

    /// Whether the session of the line that the search is at is a greeter's.
    fn greeter_here(&self) -> (yes: bool)
        requires
            self.at < self.lines@.len(),
        ensures
            yes == greeter_line(self.list()[self.at as int]),
    {
        let words = split_whitespace(self.lines[self.at].as_slice());
        let ghost all = words@.map_values(|w: Vec<char>| w@);
        if words.len() > 2 {
            assert(all[2] == words@[2]@);
            let name = from_chars(words[2].as_slice());
            is_gdm_user(name.as_str())
        } else {
            proof {
                reveal_strlit("");
                assert(""@ =~= seq![]);
            }
            is_gdm_user("")
        }
    }

    /// Carries a search on with an answer.
    pub fn step(&mut self, answer: SeatAnswer) -> (action: SeatAction)
        requires
            old(self).wf(),
            old(self).expects(answer),
        ensures
            final(self).wf(),
            carried_on(*old(self), answer, *final(self), action),
            final(self).left() < old(self).left(),
    {
        let ghost before = *self;
        let ghost here = self.list()[self.at as int];
        let next: usize = if self.at < self.lines.len() {
            self.at + 1
        } else {
            self.at
        };
        match answer {
            SeatAnswer::Active(active) => {
                if !active {
                    self.at = next;
                    proof {
                        assert forall|sessions: Sessions| #[trigger]
                            before.agrees(answer, sessions) implies self.will_find(sessions)
                            == before.will_find(sessions) by {
                            lemma_line_passed_over(before, sessions);
                        }
                    }
                    return advance(self);
                }
                if self.second || (self.ignore_gdm_wayland && self.greeter_here()) {
                    let words = split_whitespace(self.lines[self.at].as_slice());
                    let ghost all = words@.map_values(|w: Vec<char>| w@);
                    assert(all.len() > 0);
                    assert(all[0] == words@[0]@);
                    let sid = from_chars(words[0].as_slice());
                    self.stage = SeatStage::Server;
                    proof {
                        assert forall|sessions: Sessions| #[trigger]
                            before.agrees(answer, sessions) implies self.will_find(sessions)
                            == before.will_find(sessions) by {
                            if !line_taken(
                                here,
                                before.second,
                                before.ignore_gdm_wayland,
                                sessions,
                            ) {
                                lemma_line_passed_over(before, sessions);
                            }
                        }
                    }
                    return SeatAction::AskServer(sid);
                }
                let values = self.values_here();
                self.stage = SeatStage::Over;
                SeatAction::Finish(values)
            },
            SeatAnswer::Server(server) => {
                let wayland: bool = str_eq(server.as_str(), session::DISPLAY_SERVER_WAYLAND);
                let passed: bool = self.ignore_gdm_wayland && self.greeter_here() && wayland;
                let blank: bool = self.second && (str_eq(server.as_str(), "tty") || str_eq(
                    server.as_str(),
                    "unspecified",
                ));
                if passed || blank {
                    self.at = next;
                    self.stage = SeatStage::Active;
                    proof {
                        assert forall|sessions: Sessions| #[trigger]
                            before.agrees(answer, sessions) implies self.will_find(sessions)
                            == before.will_find(sessions) by {}
                    }
                    return advance(self);
                }
                let values = self.values_here();
                self.stage = SeatStage::Over;
                SeatAction::Finish(values)
            },
        }
    }
}

/// What is found is a session of the list that is active; with greeters on Wayland ignored, it is
/// none of those. Where nothing is found it is as if an empty line had been.
pub proof fn law_found_session_is_wanted(
    list: Seq<char>,
    ignore_gdm_wayland: bool,
    sessions: Sessions,
)
    ensures
        ({
            let line = seat0_line(Some(list), ignore_gdm_wayland, sessions);
            let sid = text::words(line)[0];
            line.len() == 0 || {
                &&& text::lines_of(list).contains(line)
                &&& !session::line_ignored(line)
                &&& (sessions.active)(sid)
                &&& !(ignore_gdm_wayland && greeter_line(line) && (sessions.server)(sid)
                    == "wayland"@)
            }
        }),
{
    lemma_pass_takes(text::lines_of(list), 0, false, ignore_gdm_wayland, sessions);
    lemma_pass_takes(text::lines_of(list), 0, true, ignore_gdm_wayland, sessions);
}

/// A session at the first seat is preferred: where one of them is taken, what is found is one of
/// them.
pub proof fn law_first_seat_comes_first(
    list: Seq<char>,
    at: int,
    ignore_gdm_wayland: bool,
    sessions: Sessions,
)
    requires
        0 <= at < text::lines_of(list).len(),
        line_taken(text::lines_of(list)[at], false, ignore_gdm_wayland, sessions),
    ensures
        text::occurs(seat0_line(Some(list), ignore_gdm_wayland, sessions), "seat0"@),
{
    lemma_pass_takes(text::lines_of(list), 0, false, ignore_gdm_wayland, sessions);
    lemma_pass_finds(text::lines_of(list), 0, at, false, ignore_gdm_wayland, sessions);
}

/// Whether the session of a line is a greeter's, active and on Wayland.
pub open spec fn greeter_on_wayland(line: Seq<char>, sessions: Sessions) -> bool {
    &&& text::words(line).len() > 0
    &&& greeter_line(line)
    &&& (sessions.active)(text::words(line)[0])
    &&& (sessions.server)(text::words(line)[0]) == "wayland"@
}

/// Where no greeter is active on Wayland, passing such greeters over makes no difference: both
/// searches find the same line, and so the same values.
pub proof fn law_searches_agree_without_greeters(
    list: Option<Seq<char>>,
    indices: Seq<usize>,
    sessions: Sessions,
)
    requires
        list matches Some(l) ==> forall|i: int|
            0 <= i < text::lines_of(l).len() ==> !greeter_on_wayland(
                #[trigger] text::lines_of(l)[i],
                sessions,
            ),
    ensures
        seat0_line(list, true, sessions) == seat0_line(list, false, sessions),
        session::values_of(indices, seat0_line(list, true, sessions)) == session::values_of(
            indices,
            seat0_line(list, false, sessions),
        ),
{
    if let Some(l) = list {
        lemma_passes_agree(text::lines_of(l), 0, false, sessions);
        lemma_passes_agree(text::lines_of(l), 0, true, sessions);
    }
}

/// Where no greeter is active on Wayland, passing such greeters over makes no difference to a pass.
proof fn lemma_passes_agree(lines: Seq<Seq<char>>, i: int, second: bool, sessions: Sessions)
    requires
        0 <= i,
        forall|k: int|
            0 <= k < lines.len() ==> !greeter_on_wayland(#[trigger] lines[k], sessions),
    ensures
        pass_from(lines, i, second, true, sessions) == pass_from(
            lines,
            i,
            second,
            false,
            sessions,
        ),
    decreases lines.len() - i,
{
    if i < lines.len() {
        assert(!greeter_on_wayland(lines[i], sessions));
        lemma_passes_agree(lines, i + 1, second, sessions);
    }
}

/// What a pass finds is a line of the list that is taken.
proof fn lemma_pass_takes(
    lines: Seq<Seq<char>>,
    i: int,
    second: bool,
    ignore_gdm_wayland: bool,
    sessions: Sessions,
)
    requires
        0 <= i,
    ensures
        pass_from(lines, i, second, ignore_gdm_wayland, sessions) matches Some(line)
            ==> lines.contains(line) && line_taken(line, second, ignore_gdm_wayland, sessions),
    decreases lines.len() - i,
{
    if i < lines.len() && !line_taken(lines[i], second, ignore_gdm_wayland, sessions) {
        lemma_pass_takes(lines, i + 1, second, ignore_gdm_wayland, sessions);
    }
}

/// A pass finds something where there is a line that is taken.
proof fn lemma_pass_finds(
    lines: Seq<Seq<char>>,
    i: int,
    at: int,
    second: bool,
    ignore_gdm_wayland: bool,
    sessions: Sessions,
)
    requires
        0 <= i <= at < lines.len(),
        line_taken(lines[at], second, ignore_gdm_wayland, sessions),
    ensures
        pass_from(lines, i, second, ignore_gdm_wayland, sessions) is Some,
    decreases at - i,
{
    if i < at {
        lemma_pass_finds(lines, i + 1, at, second, ignore_gdm_wayland, sessions);
    }
}

/// A pass finds its first line that is taken.
proof fn lemma_pass_finds_first(
    lines: Seq<Seq<char>>,
    i: int,
    at: int,
    second: bool,
    ignore_gdm_wayland: bool,
    sessions: Sessions,
)
    requires
        0 <= i <= at < lines.len(),
        line_taken(lines[at], second, ignore_gdm_wayland, sessions),
        forall|j: int|
            i <= j < at ==> !line_taken(#[trigger] lines[j], second, ignore_gdm_wayland, sessions),
    ensures
        pass_from(lines, i, second, ignore_gdm_wayland, sessions) == Some(lines[at]),
    decreases at - i,
{
    if i < at {
        assert(!line_taken(lines[i], second, ignore_gdm_wayland, sessions));
        lemma_pass_finds_first(lines, i + 1, at, second, ignore_gdm_wayland, sessions);
    }
}

/// A pass finds nothing where no line is taken.
proof fn lemma_pass_finds_nothing(
    lines: Seq<Seq<char>>,
    i: int,
    second: bool,
    ignore_gdm_wayland: bool,
    sessions: Sessions,
)
    requires
        0 <= i,
        forall|j: int|
            0 <= j < lines.len() ==> !line_taken(
                #[trigger] lines[j],
                second,
                ignore_gdm_wayland,
                sessions,
            ),
    ensures
        pass_from(lines, i, second, ignore_gdm_wayland, sessions) is None,
    decreases lines.len() - i,
{
    if i < lines.len() {
        assert(!line_taken(lines[i], second, ignore_gdm_wayland, sessions));
        lemma_pass_finds_nothing(lines, i + 1, second, ignore_gdm_wayland, sessions);
    }
}

/// A search does find: of the lines that hold `seat0`, the first one whose session is active is
/// found, on whatever display server it is; only a greeter's session on Wayland is passed over, and
/// only where that is asked for.
pub proof fn law_first_active_session_at_the_seat_is_found(
    list: Seq<char>,
    lines: Seq<Seq<char>>,
    at: int,
    ignore_gdm_wayland: bool,
    sessions: Sessions,
)
    requires
        lines == text::lines_of(list),
        0 <= at < lines.len(),
        !text::occurs(lines[at], "sessions"@),
        text::pieces(lines[at], ' ').len() >= 4,
        text::occurs(lines[at], "seat0"@),
        text::words(lines[at]).len() > 0,
        (sessions.active)(text::words(lines[at])[0]),
        !(ignore_gdm_wayland && text::words(lines[at]).len() > 2 && (text::words(lines[at])[2]
            == "gdm"@ || text::words(lines[at])[2] == "sddm"@) && (sessions.server)(
            text::words(lines[at])[0],
        ) == "wayland"@),
        forall|j: int|
            0 <= j < at ==> {
                ||| text::occurs(#[trigger] lines[j], "sessions"@)
                ||| text::pieces(lines[j], ' ').len() < 4
                ||| !text::occurs(lines[j], "seat0"@)
                ||| text::words(lines[j]).len() == 0
                ||| !(sessions.active)(text::words(lines[j])[0])
                ||| ignore_gdm_wayland && text::words(lines[j]).len() > 2 && (text::words(
                    lines[j],
                )[2] == "gdm"@ || text::words(lines[j])[2] == "sddm"@) && (sessions.server)(
                    text::words(lines[j])[0],
                ) == "wayland"@
            },
    ensures
        seat0_line(Some(list), ignore_gdm_wayland, sessions) == lines[at],
{
    reveal_strlit("gdm");
    reveal_strlit("sddm");
    assert("gdm"@.len() == 3 && "sddm"@.len() == 4);
    assert(line_taken(lines[at], false, ignore_gdm_wayland, sessions));
    assert forall|j: int| 0 <= j < at implies !line_taken(
        #[trigger] lines[j],
        false,
        ignore_gdm_wayland,
        sessions,
    ) by {}
    lemma_pass_finds_first(lines, 0, at, false, ignore_gdm_wayland, sessions);
}

/// Where no line that holds `seat0` has such a session, the first active session of the list that
/// has a display is found, which is any but one on `tty` or `unspecified`; a greeter's session on
/// Wayland is passed over where that is asked for. Where there is none either, it is as if an empty
/// line had been found.
pub proof fn law_any_session_with_a_display_will_do(
    list: Seq<char>,
    lines: Seq<Seq<char>>,
    at: int,
    ignore_gdm_wayland: bool,
    sessions: Sessions,
)
    requires
        lines == text::lines_of(list),
        0 <= at <= lines.len(),
        forall|j: int|
            0 <= j < lines.len() ==> {
                ||| text::occurs(#[trigger] lines[j], "sessions"@)
                ||| text::pieces(lines[j], ' ').len() < 4
                ||| !text::occurs(lines[j], "seat0"@)
                ||| text::words(lines[j]).len() == 0
                ||| !(sessions.active)(text::words(lines[j])[0])
                ||| ignore_gdm_wayland && text::words(lines[j]).len() > 2 && (text::words(
                    lines[j],
                )[2] == "gdm"@ || text::words(lines[j])[2] == "sddm"@) && (sessions.server)(
                    text::words(lines[j])[0],
                ) == "wayland"@
            },
        forall|j: int|
            0 <= j < at ==> {
                ||| text::occurs(#[trigger] lines[j], "sessions"@)
                ||| text::pieces(lines[j], ' ').len() < 4
                ||| text::words(lines[j]).len() == 0
                ||| !(sessions.active)(text::words(lines[j])[0])
                ||| (sessions.server)(text::words(lines[j])[0]) == "tty"@
                ||| (sessions.server)(text::words(lines[j])[0]) == "unspecified"@
                ||| ignore_gdm_wayland && text::words(lines[j]).len() > 2 && (text::words(
                    lines[j],
                )[2] == "gdm"@ || text::words(lines[j])[2] == "sddm"@) && (sessions.server)(
                    text::words(lines[j])[0],
                ) == "wayland"@
            },
        at < lines.len() ==> {
            &&& !text::occurs(lines[at], "sessions"@)
            &&& text::pieces(lines[at], ' ').len() >= 4
            &&& text::words(lines[at]).len() > 0
            &&& (sessions.active)(text::words(lines[at])[0])
            &&& (sessions.server)(text::words(lines[at])[0]) != "tty"@
            &&& (sessions.server)(text::words(lines[at])[0]) != "unspecified"@
            &&& !(ignore_gdm_wayland && text::words(lines[at]).len() > 2 && (text::words(
                lines[at],
            )[2] == "gdm"@ || text::words(lines[at])[2] == "sddm"@) && (sessions.server)(
                text::words(lines[at])[0],
            ) == "wayland"@)
        },
    ensures
        at < lines.len() ==> seat0_line(Some(list), ignore_gdm_wayland, sessions) == lines[at],
        at == lines.len() ==> seat0_line(Some(list), ignore_gdm_wayland, sessions).len() == 0,
        seat0_line(None, ignore_gdm_wayland, sessions).len() == 0,
{
    reveal_strlit("gdm");
    reveal_strlit("sddm");
    assert("gdm"@.len() == 3 && "sddm"@.len() == 4);
    assert forall|j: int| 0 <= j < lines.len() implies !line_taken(
        #[trigger] lines[j],
        false,
        ignore_gdm_wayland,
        sessions,
    ) by {}
    assert forall|j: int| 0 <= j < at implies !line_taken(
        #[trigger] lines[j],
        true,
        ignore_gdm_wayland,
        sessions,
    ) by {}
    lemma_pass_finds_nothing(lines, 0, false, ignore_gdm_wayland, sessions);
    if at < lines.len() {
        lemma_pass_finds_first(lines, 0, at, true, ignore_gdm_wayland, sessions);
    } else {
        lemma_pass_finds_nothing(lines, 0, true, ignore_gdm_wayland, sessions);
    }
}

/// A search that has ended has ended with the words of the line that was to be found, for the
/// indices it was begun with.
pub proof fn law_search_ends_with_the_words(
    before: SeatSearch,
    answer: SeatAnswer,
    after: SeatSearch,
    values: Vec<String>,
    sessions: Sessions,
    line: Seq<char>,
    k: int,
)
    requires
        carried_on(before, answer, after, SeatAction::Finish(values)),
        before.agrees(answer, sessions),
        before.will_find(sessions) == line,
        0 <= k < before.indices@.len(),
    ensures
        values@.len() == before.indices@.len(),
        before.indices@[k] < text::words(line).len() ==> values@[k]@ == text::words(
            line,
        )[before.indices@[k] as int],
        before.indices@[k] >= text::words(line).len() ==> values@[k]@.len() == 0,
{
    session::law_values_are_words(before.indices@, line, k);
    assert(text::texts(values@).len() == values@.len());
    assert(text::texts(values@)[k] == values@[k]@);
}

/// The first question of a search is about the session of a line of the list, and the answers to
/// its questions are taken for what they are asked about: a session's activity by its number, and
/// its display server by its number.
pub proof fn law_questions_are_about_the_line(search: SeatSearch, action: SeatAction)
    requires
        search.wf(),
        search.does(action, seq![]),
    ensures
        action matches SeatAction::AskActive(sid) ==> {
            &&& search.at < search.lines@.len()
            &&& text::words(search.lines@[search.at as int]@).len() > 0
            &&& sid@ == text::words(search.lines@[search.at as int]@)[0]
            &&& search.expects(SeatAnswer::Active(true)) && search.expects(
                SeatAnswer::Active(false),
            )
        },
        action matches SeatAction::AskServer(sid) ==> {
            &&& search.at < search.lines@.len()
            &&& sid@ == text::words(search.lines@[search.at as int]@)[0]
            &&& forall|server: String| #[trigger] search.expects(SeatAnswer::Server(server))
        },
{
}

/// An answer is the one that `loginctl` gives exactly where it says of the session that was asked
/// about, which the first word of the line names, what `loginctl` says of it.
pub proof fn law_search_hears_loginctl(
    search: SeatSearch,
    answer: SeatAnswer,
    sessions: Sessions,
)
    requires
        search.at < search.lines@.len(),
    ensures
        match answer {
            SeatAnswer::Active(active) => search.agrees(answer, sessions) <==> ((sessions.active)(text::words(search.lines@[search.at as int]@)[0]) == active),
            SeatAnswer::Server(server) => search.agrees(answer, sessions) <==> ((sessions.server)(text::words(search.lines@[search.at as int]@)[0]) == server@),
        },
{
    assert(search.list()[search.at as int] == search.lines@[search.at as int]@);
}

} // verus!
