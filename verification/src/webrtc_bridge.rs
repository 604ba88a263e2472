//! The bridge as a producer on the signalling server: its sessions, and what it does with each
//! signal.
use crate::lossy;
use crate::lossy::{LossyEvent, LossyQueue};
use crate::messages::Connect;
use crate::negotiation::{Flow, IceCandidate, SdpType};
use crate::reliable;
use crate::reliable::ReliableRun;
use crate::session;
use crate::session::{ConnectPlan, Session, SessionEvent};
use crate::session_table;
use crate::session_table::SessionTable;
use std::collections::HashMap;
use vstd::prelude::*;

verus! {

broadcast use vstd::std_specs::hash::group_hash_axioms;

/// A session that a peer asks for.
#[derive(Debug)]
pub struct SessionRequest {
    pub session_id: String,
    pub peer_id: String,
    pub grpc_address: String,
}

/// What came of a session that a peer asked for.
#[derive(Debug)]
pub enum OpenOutcome {
    /// The session is listed; one that had its identifier is to be stopped.
    Listed(Option<u64>),
    /// The signalling server is to end the session.
    EndSession(String),
}

/// What running the bridge consists of, in order.
#[derive(Clone, Copy, Debug, PartialEq, Eq, Structural)]
pub enum RunAction {
    StartSignaller,
    StartRemovingStoppedSessions,
    RunMainLoop,
    StopSignaller,
}

/// Seconds between two removals of stopped sessions.
pub const REMOVAL_PERIOD: u64 = 5;

/// The bridge.
#[derive(Debug)]
pub struct WebRTCBridge {
    uri: String,
    name: String,
    grpc_address: String,
    sessions: SessionTable,
    states: HashMap<u64, Session>,
    next: u64,
}

/// The sessions are as before, but for the one with a number.
pub open spec fn others_stay(
    before: Map<u64, Session>,
    after: Map<u64, Session>,
    number: u64,
) -> bool {
    &&& after.dom() == before.dom()
    &&& forall|other: u64|
        other != number && #[trigger] before.dom().contains(other) ==> after[other]
            == before[other]
}

/// Each listed session has a state.
spec fn all_known(listed: Map<Seq<char>, u64>, states: Map<u64, Session>) -> bool {
    forall|id: Seq<char>| #[trigger]
        listed.dom().contains(id) ==> states.dom().contains(listed[id])
}

/// Each session has a number below that of the next one.
spec fn all_below(states: Map<u64, Session>, next: u64) -> bool {
    forall|number: u64| #[trigger] states.dom().contains(number) ==> number < next
}

/// In the session with a number nobody has asked to connect yet.
pub open spec fn awaits(states: Map<u64, Session>, number: u64) -> bool {
    states.dom().contains(number) && !states[number].connecting()
}

/// A character of a session's identifier: a hexadecimal digit or a hyphen.
pub open spec fn is_id_char(c: char) -> bool {
    ||| '0' <= c <= '9'
    ||| 'a' <= c <= 'f'
    ||| 'A' <= c <= 'F'
    ||| c == '-'
}

/// The text at `i` says that the session with the identifier up to `j` is not there.
pub open spec fn session_missing_at(text: Seq<char>, i: int, j: int) -> bool {
    &&& 0 <= i
    &&& i + 8 < j
    &&& j + 14 <= text.len()
    &&& text.subrange(i, i + 8) == "Session "@
    &&& forall|k: int| i + 8 <= k < j ==> is_id_char(#[trigger] text[k])
    &&& text.subrange(j, j + 14) == " doesn't exist"@
}

/// A text says of some session that it is not there.
pub open spec fn session_missing(text: Seq<char>) -> bool {
    exists|i: int, j: int| session_missing_at(text, i, j)
}

/// `regex::Regex::new` and `regex::Regex::is_match`: searches a text for a pattern, here for
/// `Session [0-9a-fA-F-]+ doesn't exist` alone.
///
/// The pattern compiles. It is found where somewhere in the text, at any place, `Session ` is
/// followed by one or more hexadecimal digits or hyphens and these by ` doesn't exist`.
#[verifier::external_body]
fn is_match(pattern: &str, text: &str) -> (r: bool)
    requires
        pattern@ == "Session [0-9a-fA-F-]+ doesn't exist"@,
    ensures
        r == session_missing(text@),
{
    regex::Regex::new(pattern).unwrap().is_match(text)
}

impl WebRTCBridge {
    /// The address of the signalling server.
    pub closed spec fn uri(self) -> String {
        self.uri
    }

    /// The name under which the bridge offers itself.
    pub closed spec fn name(self) -> String {
        self.name
    }

    /// The address of the robot's server.
    pub closed spec fn grpc_address(self) -> String {
        self.grpc_address
    }

    /// The numbers of the listed sessions, by their identifiers.
    pub closed spec fn listed(self) -> Map<Seq<char>, u64> {
        self.sessions.map()
    }

    /// The sessions, listed or not, by their numbers.
    pub closed spec fn states(self) -> Map<u64, Session> {
        self.states@
    }

    /// The number of the next session.
    pub closed spec fn next_number(self) -> u64 {
        self.next
    }

    /// There is one session for an identifier, with a state, and no number is given twice.
    pub closed spec fn wf(self) -> bool {
        &&& self.sessions.wf()
        &&& all_known(self.sessions.map(), self.states@)
        &&& all_below(self.states@, self.next)
    }

    /// Everything but the sessions is as in another state of the bridge.
    pub open spec fn same_setup(self, other: WebRTCBridge) -> bool {
        &&& self.uri() == other.uri()
        &&& self.name() == other.name()
        &&& self.grpc_address() == other.grpc_address()
    }

    /// A bridge without sessions.
    pub fn new(uri: String, name: String, grpc_address: String) -> (r: WebRTCBridge)
        ensures
            r.wf(),
            r.uri() == uri,
            r.name() == name,
            r.grpc_address() == grpc_address,
            r.listed() == Map::<Seq<char>, u64>::empty(),
            r.states() == Map::<u64, Session>::empty(),
            r.next_number() == 0,
    {
        WebRTCBridge {
            uri,
            name,
            grpc_address,
            sessions: SessionTable::new(),
            states: HashMap::new(),
            next: 0,
        }
    }

    /// What running the bridge consists of.
    pub fn run(&self) -> (r: Vec<RunAction>)
        ensures
            r@ == seq![
                RunAction::StartSignaller,
                RunAction::StartRemovingStoppedSessions,
                RunAction::RunMainLoop,
                RunAction::StopSignaller,
            ],
    {
        let mut actions: Vec<RunAction> = Vec::new();
        actions.push(RunAction::StartSignaller);
        actions.push(RunAction::StartRemovingStoppedSessions);
        actions.push(RunAction::RunMainLoop);
        actions.push(RunAction::StopSignaller);
        assert(actions@ =~= seq![
            RunAction::StartSignaller,
            RunAction::StartRemovingStoppedSessions,
            RunAction::RunMainLoop,
            RunAction::StopSignaller,
        ]);
        actions
    }

    /// The address of the signalling server.
    pub fn signalling_uri(&self) -> (r: String)
        ensures
            r == self.uri(),
    {
        self.uri.clone()
    }

    /// The name that the bridge gives to the signalling server.
    pub fn request_meta(&self) -> (r: String)
        ensures
            r == self.name(),
    {
        self.name.clone()
    }

    /// The program was told to stop, or the signalling server shuts down.
    pub fn shutdown(&self) -> (r: Flow)
        ensures
            r == Flow::Quit,
    {
        Flow::Quit
    }

    /// The signalling server reports an error. That a session is not there is no reason to
    /// quit; any other error is.
    pub fn error(&self, message: &str) -> (r: Flow)
        ensures
            r == if session_missing(message@) {
                Flow::Continue
            } else {
                Flow::Quit
            },
    {
        if is_match("Session [0-9a-fA-F-]+ doesn't exist", message) {
            Flow::Continue
        } else {
            Flow::Quit
        }
    }

    /// A peer asks for a session; an offer that comes with it is not used.
    pub fn session_requested(&self, session_id: &str, peer_id: &str) -> (r: SessionRequest)
        ensures
            r.session_id@ == session_id@,
            r.peer_id@ == peer_id@,
            r.grpc_address == self.grpc_address(),
    {
        SessionRequest {
            session_id: session_id.to_owned(),
            peer_id: peer_id.to_owned(),
            grpc_address: self.grpc_address.clone(),
        }
    }

    /// Takes up a session that was made for a peer, under a number of its own. It is not listed
    /// yet.
    pub fn session_created(&mut self, session: Session) -> (r: u64)
        requires
            old(self).wf(),
            old(self).next_number() < u64::MAX,
        ensures
            final(self).wf(),
            final(self).same_setup(*old(self)),
            final(self).listed() == old(self).listed(),
            r == old(self).next_number(),
            !old(self).states().dom().contains(r),
            final(self).states() == old(self).states().insert(r, session),
            final(self).next_number() == r + 1,
    {
        let number: u64 = self.next;
        self.next = number + 1;
        self.states.insert(number, session);
        number
    }

    /// Lists the session that was made for a peer, by its number, or has the signalling server
    /// end it where none could be made.
    pub fn session_opened(&mut self, session_id: String, opened: Result<u64, String>) -> (r:
        OpenOutcome)
        requires
            old(self).wf(),
            opened matches Ok(number) ==> old(self).states().dom().contains(number),
        ensures
            final(self).wf(),
            final(self).same_setup(*old(self)),
            final(self).states() == old(self).states(),
            final(self).next_number() == old(self).next_number(),
            match opened {
                Ok(number) => {
                    &&& final(self).listed() == old(self).listed().insert(session_id@, number)
                    &&& r == OpenOutcome::Listed(
                        if old(self).listed().dom().contains(session_id@) {
                            Some(old(self).listed()[session_id@])
                        } else {
                            None
                        },
                    )
                },
                Err(_) => {
                    &&& final(self).listed() == old(self).listed()
                    &&& r == OpenOutcome::EndSession(session_id)
                },
            },
    {
        match opened {
            Ok(number) => OpenOutcome::Listed(self.sessions.insert(session_id, number)),
            Err(_) => OpenOutcome::EndSession(session_id),
        }
    }

    /// A session has ended: it is taken off the list, to be stopped.
    pub fn session_ended(&mut self, session_id: &str) -> (r: Option<u64>)
        requires
            old(self).wf(),
        ensures
            final(self).wf(),
            final(self).same_setup(*old(self)),
            final(self).states() == old(self).states(),
            final(self).next_number() == old(self).next_number(),
            final(self).listed() == old(self).listed().remove(session_id@),
            r == if old(self).listed().dom().contains(session_id@) {
                Some(old(self).listed()[session_id@])
            } else {
                None
            },
    {
        self.sessions.remove(session_id)
    }

    /// Nobody uses a session any more: its state is dropped, unless it is listed.
    pub fn session_gone(&mut self, number: u64)
        requires
            old(self).wf(),
        ensures
            final(self).wf(),
            final(self).same_setup(*old(self)),
            final(self).listed() == old(self).listed(),
            final(self).next_number() == old(self).next_number(),
            final(self).states() == if old(self).listed().values().contains(number) {
                old(self).states()
            } else {
                old(self).states().remove(number)
            },
    {
        if !self.sessions.lists(number) {
            self.states.remove(&number);
            assert forall|id: Seq<char>| #[trigger]
                self.sessions.map().dom().contains(id) implies self.states@.dom().contains(
                self.sessions.map()[id],
            ) by {
                assert(old(self).listed().values().contains(self.sessions.map()[id]));
            }
        }
    }

    /// Whether a session is listed.
    pub fn has_session(&self, session_id: &str) -> (r: bool)
        ensures
            r == self.listed().dom().contains(session_id@),
    {
        self.sessions.contains(session_id)
    }

    /// The number of a listed session.
    pub fn number_of(&self, session_id: &str) -> (r: Option<u64>)
        requires
            self.wf(),
        ensures
            r == if self.listed().dom().contains(session_id@) {
                Some(self.listed()[session_id@])
            } else {
                None
            },
    {
        self.sessions.get(session_id)
    }

    /// Whether a session runs.
    pub fn is_running(&self, number: u64) -> (r: bool)
        ensures
            r == session_table::runs(self.states(), number),
    {
        match self.states.get(&number) {
            Some(session) => session.is_running(),
            None => false,
        }
    }

    /// Whether the next request to connect in a session is its first.
    pub fn awaits_connect(&self, number: u64) -> (r: bool)
        ensures
            r == awaits(self.states(), number),
    {
        match self.states.get(&number) {
            Some(session) => !session.is_connecting(),
            None => false,
        }
    }

    /// A session description arrives: whether the session takes it as the remote one. Only
    /// answers are taken.
    pub fn session_description(&self, session_id: &str, sdp_type: SdpType) -> (r: bool)
        requires
            sdp_type is Answer ==> self.listed().dom().contains(session_id@),
        ensures
            r <==> sdp_type is Answer,
    {
        match sdp_type {
            SdpType::Answer => true,
            _ => false,
        }
    }

    /// A candidate arrives for a session.
    pub fn handle_ice(
        &self,
        session_id: &str,
        sdp_m_line_index: u32,
        sdp_mid: Option<String>,
        candidate: &str,
    ) -> (r: Option<IceCandidate>)
        requires
            self.wf(),
            self.listed().dom().contains(session_id@),
        ensures
            r matches Some(ice) && ice.sdp_m_line_index == sdp_m_line_index && ice.candidate@
                == candidate@,
    {
        match self.sessions.get(session_id) {
            Some(number) => match self.states.get(&number) {
                Some(session) => session.handle_ice(Some(sdp_m_line_index), sdp_mid, candidate),
                None => None,
            },
            None => None,
        }
    }

    /// Something happened to a session, listed or not.
    pub fn on_session_event(&mut self, number: u64, event: SessionEvent)
        requires
            old(self).wf(),
        ensures
            final(self).wf(),
            final(self).same_setup(*old(self)),
            final(self).listed() == old(self).listed(),
            final(self).next_number() == old(self).next_number(),
            others_stay(old(self).states(), final(self).states(), number),
            old(self).states().dom().contains(number) ==> {
                let before = old(self).states()[number];
                let after = final(self).states()[number];
                &&& after.running() == (before.running() && !session::ends_session(event))
                &&& after.peer() == before.peer()
                &&& after.connecting() == before.connecting()
            },
    {
        if let Some(session) = self.states.remove(&number) {
            let mut session = session;
            session.on_event(event);
            self.states.insert(number, session);
        }
        assert(self.states().dom() =~= old(self).states().dom());
    }

    /// The message on the reliable channel of a session that was handed on was carried out, or
    /// not: whether the channel goes on.
    pub fn commands_handled(&mut self, number: u64, run: &mut ReliableRun, carried_out: bool) -> (r:
        Flow)
        requires
            old(self).wf(),
        ensures
            r == reliable::flow_after(carried_out),
            final(run).failed() == (old(run).failed() || r == Flow::Quit),
            final(self).wf(),
            final(self).same_setup(*old(self)),
            final(self).listed() == old(self).listed(),
            final(self).next_number() == old(self).next_number(),
            others_stay(old(self).states(), final(self).states(), number),
            old(self).states().dom().contains(number) ==> {
                let before = old(self).states()[number];
                let after = final(self).states()[number];
                &&& after.running() == (before.running() && carried_out)
                &&& after.peer() == before.peer()
                &&& after.connecting() == before.connecting()
            },
    {
        run.handled(carried_out);
        let flow = match self.states.remove(&number) {
            Some(session) => {
                let mut session = session;
                let flow = session.after_commands(carried_out);
                self.states.insert(number, session);
                flow
            },
            None => if carried_out {
                Flow::Continue
            } else {
                Flow::Quit
            },
        };
        assert(self.states().dom() =~= old(self).states().dom());
        flow
    }

    /// The item of the lossy channel of a session to play next; none once the session has
    /// ended.
    pub fn play_lossy<T>(&self, number: u64, queue: &mut LossyQueue<T>, free: bool) -> (r: Option<
        T,
    >)
        ensures
            ({
                let event = LossyEvent::<T>::Play {
                    running: session_table::runs(self.states(), number),
                    free,
                };
                &&& r == lossy::taken_out(old(queue).queue(), event)
                &&& final(queue).queue() == lossy::queue_after(old(queue).queue(), event)
            }),
            final(queue).accepted() == old(queue).accepted(),
            final(queue).dropped() == old(queue).dropped(),
            final(queue).shown() == old(queue).shown(),
    {
        match self.states.get(&number) {
            Some(session) => session.play_lossy(queue, free),
            None => None,
        }
    }

    /// A peer asks to connect, in its session, listed or not: the plan for it, the first time.
    pub fn connect_requested(
        &mut self,
        number: u64,
        connect: Connect,
        state_lifetime: u32,
        audit_lifetime: u32,
    ) -> (r: Option<ConnectPlan>)
        requires
            old(self).wf(),
            awaits(old(self).states(), number) ==> connect.reachy_id is Some,
        ensures
            final(self).wf(),
            final(self).same_setup(*old(self)),
            final(self).listed() == old(self).listed(),
            final(self).next_number() == old(self).next_number(),
            others_stay(old(self).states(), final(self).states(), number),
            old(self).states().dom().contains(number) ==> {
                let before = old(self).states()[number];
                let after = final(self).states()[number];
                &&& after.connecting()
                &&& after.running() == before.running()
                &&& after.peer() == before.peer()
            },
            r is Some <==> awaits(old(self).states(), number),
            r matches Some(plan) ==> session::is_plan(
                plan,
                connect,
                state_lifetime,
                audit_lifetime,
            ),
    {
        let plan = match self.states.remove(&number) {
            Some(session) => {
                let mut session = session;
                let plan = session.handle_connect_request(connect, state_lifetime, audit_lifetime);
                self.states.insert(number, session);
                plan
            },
            None => None,
        };
        assert(self.states().dom() =~= old(self).states().dom());
        plan
    }

    /// Takes the sessions that do not run any more off the list, to be stopped.
    pub fn autoremove_stopped_sessions(&mut self) -> (r: Vec<(String, u64)>)
        requires
            old(self).wf(),
        ensures
            final(self).wf(),
            final(self).same_setup(*old(self)),
            final(self).states() == old(self).states(),
            final(self).next_number() == old(self).next_number(),
            final(self).listed() == session_table::with_state(
                old(self).listed(),
                old(self).states(),
                true,
            ),
            session_table::distinct_ids(r@),
            session_table::by_id(r@) == session_table::with_state(
                old(self).listed(),
                old(self).states(),
                false,
            ),
    {
        self.sessions.take_stopped(&self.states)
    }

    /// Takes all sessions off the list, to be stopped: the bridge is gone.
    pub fn clear(&mut self) -> (r: Vec<(String, u64)>)
        requires
            old(self).wf(),
        ensures
            final(self).wf(),
            final(self).same_setup(*old(self)),
            final(self).states() == old(self).states(),
            final(self).next_number() == old(self).next_number(),
            final(self).listed() == Map::<Seq<char>, u64>::empty(),
            session_table::distinct_ids(r@),
            session_table::by_id(r@) == old(self).listed(),
    {
        self.sessions.take_all()
    }
}

/// A removal leaves the sessions that run, takes every other one, and finds nothing to take
/// when it is done again.
pub proof fn lemma_removal(listed: Map<Seq<char>, u64>, states: Map<u64, Session>)
    ensures
        ({
            let kept = session_table::with_state(listed, states, true);
            let taken = session_table::with_state(listed, states, false);
            &&& forall|id: Seq<char>| #[trigger]
                kept.dom().contains(id) ==> session_table::runs(states, kept[id])
            &&& kept.dom().disjoint(taken.dom())
            &&& kept.union_prefer_right(taken) == listed
            &&& session_table::with_state(kept, states, false) == Map::<Seq<char>, u64>::empty()
            &&& session_table::with_state(kept, states, true) == kept
        }),
{
    let kept = session_table::with_state(listed, states, true);
    let taken = session_table::with_state(listed, states, false);
    assert(kept.union_prefer_right(taken) =~= listed);
    assert(session_table::with_state(kept, states, false) =~= Map::<Seq<char>, u64>::empty());
    assert(session_table::with_state(kept, states, true) =~= kept);
}

/// Identifiers are made of hexadecimal digits, of either case, and hyphens.
pub proof fn lemma_id_chars(c: char)
    ensures
        is_id_char(c) <==> "0123456789abcdefABCDEF-"@.contains(c),
{
    reveal_strlit("0123456789abcdefABCDEF-");
    let all = "0123456789abcdefABCDEF-"@;
    assert(all.len() == 23);
    if is_id_char(c) {
        let i = if '0' <= c <= '9' {
            c as int - '0' as int
        } else if 'a' <= c <= 'f' {
            10 + (c as int - 'a' as int)
        } else if 'A' <= c <= 'F' {
            16 + (c as int - 'A' as int)
        } else {
            22
        };
        assert(all[i] == c);
    }
    if all.contains(c) {
        let i = choose|i: int| 0 <= i < all.len() && all[i] == c;
        assert(is_id_char(all[i]));
    }
}

/// An error that says that a session is not there is known as one, whatever stands before and
/// behind it.
pub proof fn lemma_missing_sessions_are_known(before: Seq<char>, id: Seq<char>, behind: Seq<char>)
    requires
        id.len() > 0,
        forall|i: int| 0 <= i < id.len() ==> is_id_char(#[trigger] id[i]),
    ensures
        session_missing(before + "Session "@ + id + " doesn't exist"@ + behind),
{
    reveal_strlit("Session ");
    reveal_strlit(" doesn't exist");
    let text = before + "Session "@ + id + " doesn't exist"@ + behind;
    let i = before.len() as int;
    let j = i + 8 + id.len();
    assert(text.subrange(i, i + 8) =~= "Session "@);
    assert(text.subrange(j, j + 14) =~= " doesn't exist"@);
    assert forall|k: int| i + 8 <= k < j implies is_id_char(#[trigger] text[k]) by {
        assert(text[k] == id[k - (i + 8)]);
    }
    assert(session_missing_at(text, i, j));
}

/// An error is known as one that says that a session is not there only where it says so.
pub proof fn lemma_known_missing_sessions(text: Seq<char>)
    requires
        session_missing(text),
    ensures
        exists|before: Seq<char>, id: Seq<char>, behind: Seq<char>|
            #![trigger before + "Session "@ + id + " doesn't exist"@ + behind]
            text == before + "Session "@ + id + " doesn't exist"@ + behind && id.len() > 0
                && forall|i: int| 0 <= i < id.len() ==> is_id_char(#[trigger] id[i]),
{
    reveal_strlit("Session ");
    reveal_strlit(" doesn't exist");
    let (i, j) = choose|i: int, j: int| session_missing_at(text, i, j);
    let before = text.take(i);
    let id = text.subrange(i + 8, j);
    let behind = text.skip(j + 14);
    assert forall|k: int| 0 <= k < id.len() implies is_id_char(#[trigger] id[k]) by {
        assert(text[k + i + 8] == id[k]);
    }
    let whole = before + "Session "@ + id + " doesn't exist"@ + behind;
    assert(whole.len() == text.len());
    assert forall|k: int| 0 <= k < text.len() implies whole[k] == text[k] by {
        if i <= k < i + 8 {
            assert(text.subrange(i, i + 8)[k - i] == text[k]);
        } else if j <= k < j + 14 {
            assert(text.subrange(j, j + 14)[k - j] == text[k]);
        }
    }
    assert(whole =~= text);
}

/// A session that has ended leaves the list with the next removal, and no other session does.
pub proof fn lemma_ended_sessions_leave(
    listed: Map<Seq<char>, u64>,
    states: Map<u64, Session>,
    id: Seq<char>,
)
    requires
        listed.dom().contains(id),
        states.dom().contains(listed[id]),
    ensures
        session_table::with_state(listed, states, true).dom().contains(id)
            <==> states[listed[id]].running(),
        awaits(states, listed[id]) <==> !states[listed[id]].connecting(),
        session_table::runs(states, listed[id]) <==> states[listed[id]].running(),
{
}

/// Where all others stay, nothing comes and nothing goes, and each other session is the same.
pub proof fn lemma_others_are_untouched(
    before: Map<u64, Session>,
    after: Map<u64, Session>,
    number: u64,
    other: u64,
)
    requires
        others_stay(before, after, number),
    ensures
        after.dom().contains(other) <==> before.dom().contains(other),
        other != number && before.dom().contains(other) ==> after[other] == before[other],
{
}

/// Stopped sessions are removed every five seconds.
pub proof fn lemma_removal_period()
    ensures
        REMOVAL_PERIOD == 5,
{
}

/// A number that the bridge does not know is of no session: it does not run, and nobody is to
/// connect in it.
pub proof fn lemma_unknown_numbers(states: Map<u64, Session>, number: u64)
    requires
        !states.dom().contains(number),
    ensures
        !session_table::runs(states, number),
        !awaits(states, number),
{
}

/// Each listed session has a state, and the number of the next session is that of no other.
pub proof fn lemma_numbers_are_fresh(bridge: WebRTCBridge, id: Seq<char>)
    requires
        bridge.wf(),
    ensures
        bridge.listed().dom().contains(id) ==> bridge.states().dom().contains(
            bridge.listed()[id],
        ),
        !bridge.states().dom().contains(bridge.next_number()),
        !bridge.listed().values().contains(bridge.next_number()),
        forall|number: u64| #[trigger]
            bridge.states().dom().contains(number) ==> number < bridge.next_number(),
{
    if bridge.listed().values().contains(bridge.next_number()) {
        let other = choose|other: Seq<char>| #[trigger]
            bridge.listed().dom().contains(other) && bridge.listed()[other]
                == bridge.next_number();
        assert(bridge.states().dom().contains(bridge.listed()[other]));
    }
}

/// A bridge that is set up as another has its addresses and its name.
pub proof fn lemma_setup_stays(before: WebRTCBridge, after: WebRTCBridge)
    requires
        after.same_setup(before),
    ensures
        after.uri() == before.uri(),
        after.name() == before.name(),
        after.grpc_address() == before.grpc_address(),
{
}

/// The bridge runs with its signaller: stopped sessions are removed from the start of the
/// signaller on, and the signaller is stopped when the main loop is over.
pub proof fn lemma_run_order(bridge: &WebRTCBridge, actions: Vec<RunAction>)
    requires
        call_ensures(WebRTCBridge::run, (bridge,), actions),
    ensures
        actions@.len() == 4,
        actions@[0] == RunAction::StartSignaller,
        actions@[1] == RunAction::StartRemovingStoppedSessions,
        actions@[2] == RunAction::RunMainLoop,
        actions@[3] == RunAction::StopSignaller,
{
}

/// A session that is asked for is made for the peer that asks, under the identifier that it
/// gives, with the server of the bridge.
pub proof fn lemma_requests_are_passed_on(
    bridge: &WebRTCBridge,
    session_id: &str,
    peer_id: &str,
    request: SessionRequest,
)
    requires
        call_ensures(WebRTCBridge::session_requested, (bridge, session_id, peer_id), request),
    ensures
        request.session_id@ == session_id@,
        request.peer_id@ == peer_id@,
        request.grpc_address == bridge.grpc_address(),
{
}

} // verus!
