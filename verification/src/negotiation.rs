//! Reactions to the media pipeline and to the exchange of session descriptions, the same on
//! both ends of a connection.
use vstd::prelude::*;

verus! {

/// Whether the main loop goes on.
#[derive(Clone, Copy, Debug, PartialEq, Eq, Structural)]
pub enum Flow {
    Continue,
    Quit,
}

/// How a change of the pipeline's state went.
#[derive(Clone, Copy, Debug, PartialEq, Eq, Structural)]
pub enum StateChange {
    Success,
    Async,
    NoPreroll,
    Error,
}

/// A message on the pipeline's bus.
#[derive(Clone, Copy, Debug, PartialEq, Eq, Structural)]
pub enum BusMessage {
    Error,
    EndOfStream,
    Other,
}

/// What a message on the bus leads to.
#[derive(Clone, Copy, Debug, PartialEq, Eq, Structural)]
pub struct BusReaction {
    /// Leave the main loop.
    pub quit: bool,
    /// Go on watching the bus.
    pub watch: bool,
}

/// What a promise of a session description came to.
#[derive(Clone, Copy, Debug, PartialEq, Eq, Structural)]
pub enum PromiseReply {
    Description,
    WithoutDescription,
    Empty,
    Error,
}

/// What is done with a session description of one's own.
#[derive(Clone, Copy, Debug, PartialEq, Eq, Structural)]
pub enum DescriptionAction {
    SetLocalDescription,
    /// Send it as it is: the signaller changes it itself.
    Send,
    /// Have the signaller change it, and send what comes back.
    MungeAndSend,
}

/// The kind of a session description that was received.
#[derive(Clone, Copy, Debug, PartialEq, Eq, Structural)]
pub enum SdpType {
    Offer,
    Answer,
    Other,
}

/// Where a peer may be reached, for one media line.
#[derive(Debug)]
pub struct IceCandidate {
    pub sdp_m_line_index: u32,
    pub candidate: String,
}

/// The pipeline plays, now or soon.
pub open spec fn plays(change: StateChange) -> bool {
    change is Success || change is Async
}

/// What is done with what a promise of a session description came to. `manual` says whether
/// the signaller has the property to leave descriptions alone, and `value` its value.
pub open spec fn description_actions(reply: PromiseReply, manual: bool, value: bool) -> Seq<
    DescriptionAction,
> {
    if reply is Description {
        seq![
            DescriptionAction::SetLocalDescription,
            if manual && value {
                DescriptionAction::Send
            } else {
                DescriptionAction::MungeAndSend
            },
        ]
    } else {
        Seq::empty()
    }
}

/// Whether the pipeline plays after a change of its state.
pub fn pipeline_plays(change: StateChange) -> (r: bool)
    ensures
        r == plays(change),
{
    match change {
        StateChange::Success => true,
        StateChange::Async => true,
        StateChange::NoPreroll => false,
        StateChange::Error => false,
    }
}

/// The name of the pipeline for a peer.
pub fn pipeline_name(peer_id: &str) -> (r: String)
    ensures
        r@ == "session-pipeline-"@ + peer_id@,
{
    let mut name = "session-pipeline-".to_owned();
    name.append(peer_id);
    name
}

/// What a message on the bus leads to: an error and the end of the stream end the program.
pub fn on_bus_message(message: BusMessage) -> (r: BusReaction)
    ensures
        r.quit <==> !(message is Other),
        r.watch <==> message is Other,
{
    match message {
        BusMessage::Error => BusReaction { quit: true, watch: false },
        BusMessage::EndOfStream => BusReaction { quit: true, watch: false },
        BusMessage::Other => BusReaction { quit: false, watch: true },
    }
}

/// What is done with what a promise of a session description came to.
pub fn on_promise(reply: PromiseReply, manual: bool, value: bool) -> (r: Vec<DescriptionAction>)
    ensures
        r@ == description_actions(reply, manual, value),
{
    let mut actions: Vec<DescriptionAction> = Vec::new();
    match reply {
        PromiseReply::Description => {
            actions.push(DescriptionAction::SetLocalDescription);
            if manual && value {
                actions.push(DescriptionAction::Send);
            } else {
                actions.push(DescriptionAction::MungeAndSend);
            }
        },
        _ => {},
    }
    assert(actions@ =~= description_actions(reply, manual, value));
    actions
}

/// A pipeline plays after a change that succeeded or is under way, and after no other.
pub proof fn lemma_when_a_pipeline_plays()
    ensures
        plays(StateChange::Success),
        plays(StateChange::Async),
        !plays(StateChange::NoPreroll),
        !plays(StateChange::Error),
{
}

/// A description is set as the local one before it is sent, and sent once; it is sent as it is
/// only where the signaller has the property to leave descriptions alone and the property is
/// set. Without a description nothing is done.
pub proof fn lemma_descriptions_are_sent(reply: PromiseReply, manual: bool, value: bool)
    ensures
        ({
            let done = description_actions(reply, manual, value);
            &&& reply == PromiseReply::Description ==> {
                &&& done.len() == 2
                &&& done[0] == DescriptionAction::SetLocalDescription
                &&& done[1] == DescriptionAction::Send <==> manual && value
                &&& done[1] == DescriptionAction::MungeAndSend <==> !(manual && value)
            }
            &&& reply != PromiseReply::Description ==> done.len() == 0
        }),
{
}

/// Each peer has a pipeline of its own: the names of two peers' pipelines differ, and begin
/// alike.
pub proof fn lemma_pipeline_names(a: &str, b: &str, name_a: String, name_b: String)
    requires
        call_ensures(pipeline_name, (a,), name_a),
        call_ensures(pipeline_name, (b,), name_b),
    ensures
        name_a@ == name_b@ <==> a@ == b@,
        name_a@.len() == 17 + a@.len(),
        name_a@.take(17) == "session-pipeline-"@,
        name_a@.skip(17) == a@,
{
    reveal_strlit("session-pipeline-");
    let prefix = "session-pipeline-"@;
    assert(name_a@.take(17) =~= prefix);
    assert(name_a@.skip(17) =~= a@);
    assert(name_b@.skip(17) =~= b@);
}

/// The bus is watched until the first message that ends the program, which errors and the end of
/// the stream do.
pub proof fn lemma_what_ends_the_program(message: BusMessage, reaction: BusReaction)
    requires
        call_ensures(on_bus_message, (message,), reaction),
    ensures
        reaction.quit <==> message == BusMessage::Error || message == BusMessage::EndOfStream,
        reaction.watch <==> message == BusMessage::Other,
{
}

} // verus!
