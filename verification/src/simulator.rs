//! The client: it connects to a bridge and moves the robot's arms.
use crate::channels;
use crate::channels::{channel_route, ChannelRole, Route};
use crate::commands::AnyCommands;
use crate::messages::{Connect, Message, Reachy, ServiceRequest, ServiceResponse};
use crate::motion;
use crate::motion::greet;
use crate::negotiation;
use crate::negotiation::{pipeline_plays, Flow, SdpType, StateChange};
use crate::session;
use crate::session::ConnectPlan;
use crate::text::same_text;
use vstd::prelude::*;

verus! {

/// Milliseconds between two steps of a benchmark.
pub const BENCH_PERIOD: u64 = 50;

/// The frequency at which a benchmark ends.
pub const BENCH_LIMIT: u64 = 1500;

/// Seconds that the arms have to reach the posture.
pub const POSTURE_TIME: u64 = 3;

/// 60 hertz, as an IEEE 754 binary32 pattern.
pub const UPDATE_FREQUENCY: u32 = 0x4270_0000;

/// 1 hertz, as an IEEE 754 binary32 pattern.
pub const AUDIT_FREQUENCY: u32 = 0x3F80_0000;

/// What is done with a session description.
#[derive(Clone, Copy, Debug, PartialEq, Eq, Structural)]
pub enum OfferAction {
    ConnectIce,
    SetRemoteDescription,
    CreateAnswer,
}

/// What running the client consists of, in order.
#[derive(Clone, Copy, Debug, PartialEq, Eq, Structural)]
pub enum RunAction {
    StartSignaller,
    RunMainLoop,
    StopSignaller,
    PipelineToNull,
}

/// Where commands come from.
#[derive(Clone, Copy, Debug, PartialEq, Eq, Structural)]
pub enum SendMode {
    /// Commands that were recorded.
    Recorded,
    /// Both hands go up and down in front of the robot.
    Posture,
    /// Both hands go in circles.
    Circle,
}

/// How commands are sent.
#[derive(Clone, Copy, Debug, PartialEq, Eq, Structural)]
pub struct SendPlan {
    pub mode: SendMode,
    pub frequency: u64,
    /// Whether the frequency is to grow.
    pub bench: bool,
}

/// What a channel of the bridge leads to.
#[derive(Debug)]
pub enum ChannelPlan {
    /// Listen to answers, and send a request.
    Service(ServiceRequest),
    /// Listen to states.
    State,
    /// Listen to audits.
    Audit,
    /// Send commands that may get lost.
    SendCommands(SendPlan),
    /// Send messages that must arrive.
    SendMessages(Vec<AnyCommands<Message>>),
    Ignore,
}

/// The way of the hands between two heights.
#[derive(Clone, Copy, Debug, PartialEq, Eq, Structural)]
pub struct PostureMotion {
    pub forward: bool,
}

/// A benchmark: commands are sent at a frequency that grows.
#[derive(Clone, Copy, Debug, PartialEq, Eq, Structural)]
pub struct Benchmark {
    pub frequency: u64,
}

/// The client.
#[derive(Debug)]
pub struct Simulator {
    plan: SendPlan,
    reachy: Option<Reachy>,
}

/// Where commands come from: records before the posture, the posture before circles.
pub open spec fn send_mode(recorded_data: bool, test: bool) -> SendMode {
    if recorded_data {
        SendMode::Recorded
    } else if test {
        SendMode::Posture
    } else {
        SendMode::Circle
    }
}

/// The frequency after one step of a benchmark.
pub open spec fn next_frequency(frequency: nat) -> nat {
    if frequency < BENCH_LIMIT {
        frequency + 1
    } else {
        frequency
    }
}

/// The frequency after a number of steps of a benchmark.
pub open spec fn frequency_after(frequency: nat, steps: nat) -> nat
    decreases steps,
{
    if steps == 0 {
        frequency
    } else {
        next_frequency(frequency_after(frequency, (steps - 1) as nat))
    }
}

/// The direction of the hands after a sample, which says whether the time of the way was over.
pub open spec fn next_direction(forward: bool, over: bool) -> bool {
    if over {
        !forward
    } else {
        forward
    }
}

/// The direction of the hands after some samples, which say whether the time of the way was
/// over.
pub open spec fn direction_after(forward: bool, samples: Seq<bool>) -> bool
    decreases samples.len(),
{
    if samples.len() == 0 {
        forward
    } else {
        next_direction(direction_after(forward, samples.drop_last()), samples.last())
    }
}

/// How often the time of a way was over.
pub open spec fn ways(samples: Seq<bool>) -> nat
    decreases samples.len(),
{
    if samples.len() == 0 {
        0
    } else {
        ways(samples.drop_last()) + if samples.last() {
            1nat
        } else {
            0nat
        }
    }
}

/// The request that asks for the robot's streams.
pub open spec fn connect_request(reachy: Reachy) -> ServiceRequest {
    ServiceRequest::Connect(
        Connect {
            reachy_id: reachy.id,
            update_frequency: UPDATE_FREQUENCY,
            audit_frequency: AUDIT_FREQUENCY,
        },
    )
}

/// Microseconds between two commands at a frequency.
pub fn sample_period(frequency: u64) -> (r: u64)
    requires
        frequency > 0,
    ensures
        r == 1_000_000int / frequency as int,
{
    1_000_000 / frequency
}

/// How long to wait for the next sample, when some time of its period is spent.
pub fn rest_of_period(period: u128, spent: u128) -> (r: u128)
    ensures
        r == if spent < period {
            period - spent
        } else {
            0
        },
{
    if spent < period {
        period - spent
    } else {
        0
    }
}

/// Whether a file holds records, by its extension.
pub fn is_record(extension: Option<&str>) -> (r: bool)
    ensures
        r <==> extension is Some && extension->0@ == "txt"@,
{
    match extension {
        Some(extension) => same_text(extension, "txt"),
        None => false,
    }
}

impl Benchmark {
    /// One step: the frequency grows by one, or the limit is reached and the client quits.
    pub fn step(&mut self) -> (r: Flow)
        ensures
            final(self).frequency == next_frequency(old(self).frequency as nat),
            r == if old(self).frequency < BENCH_LIMIT {
                Flow::Continue
            } else {
                Flow::Quit
            },
    {
        if self.frequency < BENCH_LIMIT {
            self.frequency = self.frequency + 1;
            Flow::Continue
        } else {
            Flow::Quit
        }
    }
}

impl PostureMotion {
    /// The hands go forward first.
    pub fn new() -> (r: PostureMotion)
        ensures
            r.forward,
    {
        PostureMotion { forward: true }
    }

    /// A sample was sent; where the time of the way is over, the hands turn, and the time
    /// begins anew.
    pub fn on_sample(&mut self, over: bool)
        ensures
            final(self).forward == next_direction(old(self).forward, over),
    {
        if over {
            self.forward = !self.forward;
        }
    }
}

impl Simulator {
    /// How commands will be sent.
    pub closed spec fn plan(self) -> SendPlan {
        self.plan
    }

    /// The robot, once it is known.
    pub closed spec fn reachy(self) -> Option<Reachy> {
        self.reachy
    }

    /// A client that knows no robot yet.
    pub fn new(frequency: u16, bench_mode: bool, recorded_data: bool, test: bool) -> (r: Simulator)
        ensures
            r.plan() == (SendPlan {
                mode: send_mode(recorded_data, test),
                frequency: frequency as u64,
                bench: bench_mode,
            }),
            r.reachy() is None,
    {
        let mode = if recorded_data {
            SendMode::Recorded
        } else if test {
            SendMode::Posture
        } else {
            SendMode::Circle
        };
        Simulator {
            plan: SendPlan { mode, frequency: frequency as u64, bench: bench_mode },
            reachy: None,
        }
    }

    /// Whether to wait for channels, after the pipeline was told to play.
    pub fn setup_webrtc(change: StateChange) -> (r: bool)
        ensures
            r == negotiation::plays(change),
    {
        pipeline_plays(change)
    }

    /// The signalling server reports an error.
    pub fn error(&self) -> (r: Flow)
        ensures
            r == Flow::Quit,
    {
        Flow::Quit
    }

    /// The signalling server ended the session.
    pub fn session_ended(&self) -> (r: Flow)
        ensures
            r == Flow::Quit,
    {
        Flow::Quit
    }

    /// What is done with a session description: offers are answered, nothing else is.
    pub fn session_description(sdp_type: SdpType) -> (r: Vec<OfferAction>)
        ensures
            r@ == if sdp_type is Offer {
                seq![
                    OfferAction::ConnectIce,
                    OfferAction::SetRemoteDescription,
                    OfferAction::CreateAnswer,
                ]
            } else {
                Seq::empty()
            },
    {
        let mut actions: Vec<OfferAction> = Vec::new();
        match sdp_type {
            SdpType::Offer => {
                actions.push(OfferAction::ConnectIce);
                actions.push(OfferAction::SetRemoteDescription);
                actions.push(OfferAction::CreateAnswer);
                assert(actions@ =~= seq![
                    OfferAction::ConnectIce,
                    OfferAction::SetRemoteDescription,
                    OfferAction::CreateAnswer,
                ]);
            },
            _ => {},
        }
        actions
    }

    /// The first request on the service channel.
    pub fn start_connection() -> (r: ServiceRequest)
        ensures
            r == ServiceRequest::GetReachy,
    {
        ServiceRequest::GetReachy
    }

    /// What a channel of the bridge leads to.
    pub fn configure_data_channels(&self, label: &str) -> (r: ChannelPlan)
        requires
            channels::route_of(label@) is CommandReliable && self.reachy() is Some
                ==> motion::has_parts(self.reachy()->0),
        ensures
            match channels::route_of(label@) {
                Route::Service => r == ChannelPlan::Service(ServiceRequest::GetReachy),
                Route::State => r is State,
                Route::Audit => r is Audit,
                Route::CommandLossy => r == ChannelPlan::SendCommands(self.plan()),
                Route::CommandReliable => r matches ChannelPlan::SendMessages(messages)
                    && messages.deep_view() == motion::greeting(self.reachy()),
                Route::Unknown => r is Ignore,
            },
    {
        match channel_route(label) {
            Route::Service => ChannelPlan::Service(Simulator::start_connection()),
            Route::State => ChannelPlan::State,
            Route::Audit => ChannelPlan::Audit,
            Route::CommandLossy => ChannelPlan::SendCommands(self.plan),
            Route::CommandReliable => ChannelPlan::SendMessages(greet(&self.reachy)),
            Route::Unknown => ChannelPlan::Ignore,
        }
    }

    /// An answer on the service channel: once the robot is known, its streams are asked for.
    pub fn configure_service_channel<E>(&mut self, response: Option<ServiceResponse<Reachy, E>>) -> (r:
        Option<ServiceRequest>)
        requires
            response matches Some(ServiceResponse::ConnectionStatus(status))
                ==> status.reachy is Some,
        ensures
            final(self).plan() == old(self).plan(),
            match response {
                Some(ServiceResponse::ConnectionStatus(status)) => {
                    &&& final(self).reachy() == status.reachy
                    &&& r == Some(connect_request(status.reachy->0))
                },
                _ => final(self).reachy() == old(self).reachy() && r is None,
            },
    {
        match response {
            Some(ServiceResponse::ConnectionStatus(status)) => match status.reachy {
                Some(reachy) => {
                    let reachy_id = match &reachy.id {
                        Some(id) => Some(id.clone()),
                        None => None,
                    };
                    self.reachy = Some(reachy);
                    Some(
                        ServiceRequest::Connect(
                            Connect {
                                reachy_id,
                                update_frequency: UPDATE_FREQUENCY,
                                audit_frequency: AUDIT_FREQUENCY,
                            },
                        ),
                    )
                },
                None => None,
            },
            Some(ServiceResponse::Error(_)) => None,
            None => None,
        }
    }

    /// The robot, once it is known.
    pub fn known_reachy(&self) -> (r: &Option<Reachy>)
        ensures
            *r == self.reachy(),
    {
        &self.reachy
    }

    /// What running the client consists of.
    pub fn run(&self) -> (r: Vec<RunAction>)
        ensures
            r@ == seq![
                RunAction::StartSignaller,
                RunAction::RunMainLoop,
                RunAction::StopSignaller,
            ],
    {
        let mut actions: Vec<RunAction> = Vec::new();
        actions.push(RunAction::StartSignaller);
        actions.push(RunAction::RunMainLoop);
        actions.push(RunAction::StopSignaller);
        assert(actions@ =~= seq![
            RunAction::StartSignaller,
            RunAction::RunMainLoop,
            RunAction::StopSignaller,
        ]);
        actions
    }

    /// What is done when the client is gone.
    pub fn stop(&self) -> (r: RunAction)
        ensures
            r == RunAction::PipelineToNull,
    {
        RunAction::PipelineToNull
    }
}

/// A benchmark raises the frequency by one in each step until it is at the limit, and never
/// above that.
pub proof fn lemma_frequency_grows(frequency: nat, steps: nat)
    ensures
        frequency <= BENCH_LIMIT ==> frequency_after(frequency, steps) == if frequency + steps
            < BENCH_LIMIT {
            frequency + steps
        } else {
            BENCH_LIMIT as nat
        },
        frequency > BENCH_LIMIT ==> frequency_after(frequency, steps) == frequency,
    decreases steps,
{
    if steps > 0 {
        lemma_frequency_grows(frequency, (steps - 1) as nat);
    }
}

/// The hands turn each time that the time of a way is over: they go as in the beginning after
/// an even number of ways.
pub proof fn lemma_hands_turn(forward: bool, samples: Seq<bool>)
    ensures
        direction_after(forward, samples) == if ways(samples) % 2 == 0 {
            forward
        } else {
            !forward
        },
    decreases samples.len(),
{
    if samples.len() > 0 {
        lemma_hands_turn(forward, samples.drop_last());
    }
}

/// Each channel that a session creates is taken by the client for what it is.
pub proof fn lemma_channels_are_recognised(id: u32, state_lifetime: u32, audit_lifetime: u32)
    ensures
        ({
            let made = session::connection_channels(id, state_lifetime, audit_lifetime);
            &&& channels::route_of(channels::service_config().label) == Route::Service
            &&& channels::route_of(made[0].label) == Route::State
            &&& channels::route_of(made[1].label) == Route::Audit
            &&& channels::route_of(made[2].label) == Route::CommandReliable
            &&& channels::route_of(made[3].label) == Route::CommandLossy
        }),
{
    channels::lemma_label_route(ChannelRole::State, id);
    channels::lemma_label_route(ChannelRole::Audit, id);
    channels::lemma_label_route(ChannelRole::CommandReliable, id);
    channels::lemma_label_route(ChannelRole::CommandLossy, id);
}

/// A client that asks for the streams of the robot that a bridge has told it of gets them: the
/// channels of that robot, the state channel that the status named among them, at the
/// client's frequencies.
pub proof fn lemma_handshake(
    reachy: Reachy,
    connect: Connect,
    plan: ConnectPlan,
    state_lifetime: u32,
    audit_lifetime: u32,
)
    requires
        reachy.id is Some,
        connect_request(reachy) == ServiceRequest::Connect(connect),
        session::is_plan(plan, connect, state_lifetime, audit_lifetime),
    ensures
        plan.id == reachy.id->0.id,
        plan.channels.deep_view() == session::connection_channels(
            reachy.id->0.id,
            state_lifetime,
            audit_lifetime,
        ),
        plan.channels.deep_view()[0].label == channels::label(
            ChannelRole::State,
            reachy.id->0.id,
        ),
        plan.state.id == reachy.id,
        plan.state.publish_frequency == UPDATE_FREQUENCY,
        plan.audit.id == reachy.id,
        plan.audit.publish_frequency == AUDIT_FREQUENCY,
{
}

/// Records come before the posture, and the posture before circles.
pub proof fn lemma_send_modes(recorded_data: bool, test: bool)
    ensures
        send_mode(recorded_data, test) == SendMode::Recorded <==> recorded_data,
        send_mode(recorded_data, test) == SendMode::Posture <==> !recorded_data && test,
        send_mode(recorded_data, test) == SendMode::Circle <==> !recorded_data && !test,
{
}

/// The robot's streams are asked for at 60 and 1 hertz, of the robot that answered.
pub proof fn lemma_what_is_asked_for(reachy: Reachy)
    ensures
        ({
            &&& connect_request(reachy) matches ServiceRequest::Connect(connect)
            &&& connect.reachy_id == reachy.id
            &&& connect.update_frequency == 0x4270_0000
            &&& connect.audit_frequency == 0x3F80_0000
        }),
{
}

/// A benchmark takes a step twenty times in a second and ends at 1500 hertz; below that each step
/// raises the frequency by one. The arms have three seconds to reach the posture.
pub proof fn lemma_benchmark_steps(frequency: nat)
    ensures
        BENCH_PERIOD * 20 == 1000,
        BENCH_LIMIT == 1500,
        POSTURE_TIME == 3,
        frequency < 1500 ==> next_frequency(frequency) == frequency + 1,
        frequency >= 1500 ==> next_frequency(frequency) == frequency,
{
}

/// A sample turns the hands if and only if the time of their way is over.
pub proof fn lemma_when_hands_turn(forward: bool, over: bool)
    ensures
        next_direction(forward, over) != forward <==> over,
{
}

/// Each sample at which the time of a way is over counts as one way.
pub proof fn lemma_ways_add_up(a: Seq<bool>, b: Seq<bool>)
    ensures
        ways(a + b) == ways(a) + ways(b),
        ways(seq![true]) == 1,
        ways(seq![false]) == 0,
    decreases b.len(),
{
    assert(ways(seq![true].drop_last()) == 0);
    assert(ways(seq![false].drop_last()) == 0);
    if b.len() == 0 {
        assert(a + b =~= a);
    } else {
        assert((a + b).drop_last() =~= a + b.drop_last());
        lemma_ways_add_up(a, b.drop_last());
    }
}

/// The commands of one second fit into it, and one more at the same pace would not.
pub proof fn lemma_periods_fill_a_second(frequency: u64, period: u64)
    requires
        frequency > 0,
        call_ensures(sample_period, (frequency,), period),
    ensures
        period * frequency <= 1_000_000 < (period + 1) * frequency,
{
    vstd::arithmetic::div_mod::lemma_fundamental_div_mod(1_000_000, frequency as int);
    let f = frequency as int;
    let p = period as int;
    assert(f * p == p * f) by (nonlinear_arith);
    assert((p + 1) * f == p * f + f) by (nonlinear_arith);
}

/// What is spent of a period and what is left of it make the whole period; nothing is left of
/// one that is over.
pub proof fn lemma_spent_and_rest(period: u128, spent: u128, rest: u128)
    requires
        call_ensures(rest_of_period, (period, spent), rest),
    ensures
        spent <= period ==> spent + rest == period,
        spent > period ==> rest == 0,
{
}

/// An offer is answered: candidates are exchanged first, then the offer is taken as the remote
/// description, and only then an answer is made. Nothing else is answered.
pub proof fn lemma_offers_are_answered(sdp_type: SdpType, actions: Vec<OfferAction>)
    requires
        call_ensures(Simulator::session_description, (sdp_type,), actions),
    ensures
        sdp_type == SdpType::Offer ==> {
            &&& actions@.len() == 3
            &&& actions@[0] == OfferAction::ConnectIce
            &&& actions@[1] == OfferAction::SetRemoteDescription
            &&& actions@[2] == OfferAction::CreateAnswer
        },
        sdp_type != SdpType::Offer ==> actions@.len() == 0,
{
}

} // verus!
