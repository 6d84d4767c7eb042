//! Which display server the desktop runs on.
use crate::platform::linux::session;
use crate::platform::linux::session::{
    server_from_report, DISPLAY_SERVER_X11, INVALID_SESSION,
};
use crate::text;
use crate::text::str_eq;
use vstd::prelude::*;
use vstd::string::*;

verus! {

/// What there is to know of the desktop.
pub struct DesktopFacts {
    /// `RUSTDESK_FORCED_DISPLAY_SERVER` in the environment.
    pub forced: Option<Seq<char>>,
    /// Whether `loginctl` can be run.
    pub loginctl_runs: bool,
    /// The session at the first seat, or nothing.
    pub seat0: Seq<char>,
    /// `XDG_SESSION_ID` in the environment.
    pub session_id: Option<Seq<char>>,
    /// What stands in `/proc/self/sessionid`.
    pub proc_session_id: Option<Seq<char>>,
    /// `XDG_SESSION_TYPE` in the environment.
    pub session_type: Option<Seq<char>>,
    /// What `loginctl` reports of a session's type.
    pub report: spec_fn(Seq<char>) -> Option<Seq<char>>,
}

/// The text, or nothing.
pub open spec fn or_empty(s: Option<Seq<char>>) -> Seq<char> {
    match s {
        Some(s) => s,
        None => seq![],
    }
}

/// The session that stands in `/proc/self/sessionid`, if it is one.
pub open spec fn valid_session(s: Seq<char>) -> Seq<char> {
    if s == "4294967295"@ {
        seq![]
    } else {
        s
    }
}

/// The session that the display server is looked up for: the one at the first seat, or else the
/// environment's, or else the process's.
pub open spec fn session_of(facts: DesktopFacts) -> Seq<char> {
    if facts.seat0.len() > 0 {
        facts.seat0
    } else if or_empty(facts.session_id).len() > 0 {
        or_empty(facts.session_id)
    } else {
        valid_session(or_empty(facts.proc_session_id))
    }
}

/// The display server of the desktop.
pub open spec fn display_server_of(facts: DesktopFacts) -> Seq<char> {
    match facts.forced {
        Some(server) => server,
        None => if !facts.loginctl_runs {
            "x11"@
        } else if session_of(facts).len() == 0 {
            match facts.session_type {
                Some(t) => t,
                None => "x11"@,
            }
        } else {
            session::server_of_session((facts.report)(session_of(facts)), facts.session_type)
        },
    }
}

/// What has been found out.
pub enum DisplayServerEvent<'a> {
    /// The display server is asked for; `RUSTDESK_FORCED_DISPLAY_SERVER` may be set.
    Asked { forced: Option<&'a str> },
    /// `loginctl` was run, with success or not.
    LoginctlRan(bool),
    /// The session at the first seat, which may be empty, and `XDG_SESSION_ID`.
    Seat0 { session: &'a str, xdg_session_id: Option<&'a str> },
    /// What stands in `/proc/self/sessionid`, and `XDG_SESSION_TYPE`.
    ProcSession { proc_session: Option<&'a str>, xdg_session_type: Option<&'a str> },
    /// What `loginctl` reports of the session's type, and `XDG_SESSION_TYPE`.
    Reported { report: Option<&'a str>, xdg_session_type: Option<&'a str> },
}

/// What is to be done next.
pub enum DisplayServerAction {
    /// Find out whether `loginctl` can be run.
    RunLoginctl,
    /// Find the session at the first seat.
    SearchSeat0,
    /// Find out the session that the process belongs to.
    ReadProcSession,
    /// Have `loginctl` report this session's type.
    AskType(String),
    Finish(String),
}

/// What is known when an event comes, of what there is to know.
pub open spec fn event_agrees(event: DisplayServerEvent, facts: DesktopFacts) -> bool {
    match event {
        DisplayServerEvent::Asked { forced } => text::maybe_text(forced) == facts.forced,
        DisplayServerEvent::LoginctlRan(runs) => facts.forced is None && runs
            == facts.loginctl_runs,
        DisplayServerEvent::Seat0 { session, xdg_session_id } => {
            &&& facts.forced is None
            &&& facts.loginctl_runs
            &&& session@ == facts.seat0
            &&& text::maybe_text(xdg_session_id) == facts.session_id
        },
        DisplayServerEvent::ProcSession { proc_session, xdg_session_type } => {
            &&& facts.forced is None
            &&& facts.loginctl_runs
            &&& facts.seat0.len() == 0
            &&& or_empty(facts.session_id).len() == 0
            &&& text::maybe_text(proc_session) == facts.proc_session_id
            &&& text::maybe_text(xdg_session_type) == facts.session_type
        },
        DisplayServerEvent::Reported { report, xdg_session_type } => {
            &&& facts.forced is None
            &&& facts.loginctl_runs
            &&& session_of(facts).len() > 0
            &&& text::maybe_text(report) == (facts.report)(session_of(facts))
            &&& text::maybe_text(xdg_session_type) == facts.session_type
        },
    }
}

/// Whether an action is right: it ends with the display server, or it asks what is needed to find
/// it.
pub open spec fn action_right(action: DisplayServerAction, facts: DesktopFacts) -> bool {
    match action {
        DisplayServerAction::RunLoginctl => facts.forced is None,
        DisplayServerAction::SearchSeat0 => facts.forced is None && facts.loginctl_runs,
        DisplayServerAction::ReadProcSession => {
            &&& facts.forced is None
            &&& facts.loginctl_runs
            &&& facts.seat0.len() == 0
            &&& or_empty(facts.session_id).len() == 0
        },
        DisplayServerAction::AskType(sid) => {
            &&& facts.forced is None
            &&& facts.loginctl_runs
            &&& sid@ == session_of(facts)
            &&& sid@.len() > 0
        },
        DisplayServerAction::Finish(server) => server@ == display_server_of(facts),
    }
}

/// How far a search for the display server has come.
pub open spec fn event_rank(event: DisplayServerEvent) -> int {
    match event {
        DisplayServerEvent::Asked { .. } => 0,
        DisplayServerEvent::LoginctlRan(_) => 1,
        DisplayServerEvent::Seat0 { .. } => 2,
        DisplayServerEvent::ProcSession { .. } => 3,
        DisplayServerEvent::Reported { .. } => 4,
    }
}

/// How far a search for the display server will have come when an action has been performed.
pub open spec fn action_rank(action: DisplayServerAction) -> int {
    match action {
        DisplayServerAction::RunLoginctl => 1,
        DisplayServerAction::SearchSeat0 => 2,
        DisplayServerAction::ReadProcSession => 3,
        DisplayServerAction::AskType(_) => 4,
        DisplayServerAction::Finish(_) => 5,
    }
}

/// One step of the search for the display server: whatever the desktop is, if the event agrees
/// with it, the action is right, and the search has come further.
pub fn get_display_server(event: DisplayServerEvent) -> (action: DisplayServerAction)
    ensures
        forall|facts: DesktopFacts| #[trigger]
            event_agrees(event, facts) ==> action_right(action, facts),
        action_rank(action) > event_rank(event),
{
    match event {
        DisplayServerEvent::Asked { forced } => match forced {
            Some(server) => DisplayServerAction::Finish(server.to_owned()),
            None => DisplayServerAction::RunLoginctl,
        },
        DisplayServerEvent::LoginctlRan(runs) => {
            if runs {
                DisplayServerAction::SearchSeat0
            } else {
                DisplayServerAction::Finish(DISPLAY_SERVER_X11.to_owned())
            }
        },
        DisplayServerEvent::Seat0 { session, xdg_session_id } => {
            if !session.is_empty() {
                return DisplayServerAction::AskType(session.to_owned());
            }
            if let Some(sid) = xdg_session_id {
                if !sid.is_empty() {
                    return DisplayServerAction::AskType(sid.to_owned());
                }
            }
            DisplayServerAction::ReadProcSession
        },
        DisplayServerEvent::ProcSession { proc_session, xdg_session_type } => {
            if let Some(sid) = proc_session {
                if !sid.is_empty() && !str_eq(sid, INVALID_SESSION) {
                    return DisplayServerAction::AskType(sid.to_owned());
                }
            }
            match xdg_session_type {
                Some(t) => DisplayServerAction::Finish(t.to_owned()),
                None => DisplayServerAction::Finish(DISPLAY_SERVER_X11.to_owned()),
            }
        },
        DisplayServerEvent::Reported { report, xdg_session_type } => {
            DisplayServerAction::Finish(server_from_report(report, xdg_session_type))
        },
    }
}

/// A display server that is forced is the one, whatever the desktop says. Otherwise, without
/// `loginctl`, it is `x11`; and with it, it is the server of the first session that is known: that
/// at the first seat, that of the environment, that of the process. Where none is, the
/// environment's session type is taken, and `x11` where there is none.
pub proof fn law_first_known_session_decides(facts: DesktopFacts, sid: Seq<char>)
    ensures
        facts.forced matches Some(server) ==> display_server_of(facts) == server,
        facts.forced is None && !facts.loginctl_runs ==> display_server_of(facts) == "x11"@,
        facts.forced is None && facts.loginctl_runs && sid.len() > 0 && ({
            ||| facts.seat0 == sid
            ||| facts.seat0.len() == 0 && facts.session_id == Some(sid)
            ||| {
                &&& facts.seat0.len() == 0
                &&& facts.session_id is None || (facts.session_id matches Some(s) && s.len() == 0)
                &&& facts.proc_session_id == Some(sid)
                &&& sid != "4294967295"@
            }
        }) ==> display_server_of(facts) == session::server_of_session(
            (facts.report)(sid),
            facts.session_type,
        ),
        facts.forced is None && facts.loginctl_runs && facts.seat0.len() == 0 && (
        facts.session_id is None || (facts.session_id matches Some(s) && s.len() == 0)) && (
        facts.proc_session_id is None || (facts.proc_session_id matches Some(s) && (s.len() == 0
            || s == "4294967295"@))) ==> display_server_of(facts) == (match facts.session_type {
            Some(t) => t,
            None => "x11"@,
        }),
{
}

/// What has been found out is enough for what comes next: a search that has ended has ended with the
/// display server, and one that asks for a session's type asks for that of the session that counts.
pub proof fn law_right_steps_find_the_server(
    facts: DesktopFacts,
    action: DisplayServerAction,
    sid: Seq<char>,
)
    requires
        action_right(action, facts),
        sid.len() > 0,
        facts.seat0 == sid || (facts.seat0.len() == 0 && facts.session_id == Some(sid)),
    ensures
        action matches DisplayServerAction::AskType(asked) ==> asked@ == sid,
        !(action is ReadProcSession),
        action matches DisplayServerAction::Finish(server) ==> facts.forced is None
            && facts.loginctl_runs ==> server@ == session::server_of_session(
            (facts.report)(sid),
            facts.session_type,
        ),
{
}

/// An event is known of where it tells what there is to know, and where it had to be asked for: no
/// server is forced, `loginctl` runs, and what was found out before was not enough.
pub proof fn law_events_tell_what_is_known(event: DisplayServerEvent, facts: DesktopFacts)
    ensures
        match event {
            DisplayServerEvent::Asked { forced } => event_agrees(event, facts) <==> (match forced {
                Some(server) => facts.forced == Some(server@),
                None => facts.forced is None,
            }),
            DisplayServerEvent::LoginctlRan(runs) => event_agrees(event, facts)
                <==> facts.forced is None && facts.loginctl_runs == runs,
            DisplayServerEvent::Seat0 { session, xdg_session_id } => event_agrees(event, facts)
                <==> facts.forced is None && facts.loginctl_runs && facts.seat0 == session@ && (
            match xdg_session_id {
                Some(id) => facts.session_id == Some(id@),
                None => facts.session_id is None,
            }),
            DisplayServerEvent::ProcSession { proc_session, xdg_session_type } => event_agrees(
                event,
                facts,
            ) <==> facts.forced is None && facts.loginctl_runs && facts.seat0.len() == 0 && (
            facts.session_id is None || facts.session_id->0.len() == 0) && (match proc_session {
                Some(id) => facts.proc_session_id == Some(id@),
                None => facts.proc_session_id is None,
            }) && (match xdg_session_type {
                Some(t) => facts.session_type == Some(t@),
                None => facts.session_type is None,
            }),
            DisplayServerEvent::Reported { report, xdg_session_type } => event_agrees(event, facts)
                <==> facts.forced is None && facts.loginctl_runs && session_of(facts).len() > 0 && (
            match report {
                Some(r) => (facts.report)(session_of(facts)) == Some(r@),
                None => (facts.report)(session_of(facts)) is None,
            }) && (match xdg_session_type {
                Some(t) => facts.session_type == Some(t@),
                None => facts.session_type is None,
            }),
        },
{
}

/// Nothing is asked where a server is forced, nothing but that `loginctl` be run before it is known
/// to run, and the process's session only where there is none at the first seat and none in the
/// environment. A type is asked for only of a session that is known.
pub proof fn law_only_what_is_needed_is_asked(action: DisplayServerAction, facts: DesktopFacts)
    requires
        action_right(action, facts),
    ensures
        !(action is Finish) ==> facts.forced is None,
        !(action is Finish) && !(action is RunLoginctl) ==> facts.loginctl_runs,
        action is ReadProcSession ==> facts.seat0.len() == 0 && (facts.session_id is None
            || facts.session_id->0.len() == 0),
        action matches DisplayServerAction::AskType(sid) ==> {
            &&& sid@.len() > 0
            &&& facts.seat0.len() > 0 ==> sid@ == facts.seat0
            &&& facts.seat0.len() == 0 ==> facts.session_id == Some(sid@) || (facts.proc_session_id
                == Some(sid@) && sid@ != "4294967295"@)
        },
{
}

} // verus!
