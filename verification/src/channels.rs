//! The data channels of a session: their labels, their settings, and how each side tells
//! them apart.
use crate::text::{numbered, same_text, starts_with};
use vstd::prelude::*;

verus! {

/// What a numbered data channel is for.
#[derive(Clone, Copy, Debug, PartialEq, Eq, Structural)]
pub enum ChannelRole {
    State,
    Audit,
    CommandReliable,
    CommandLossy,
}

/// The settings with which a data channel is created.
#[derive(Debug)]
pub struct ChannelConfig {
    pub label: String,
    pub ordered: bool,
    pub max_retransmits: Option<i32>,
    /// In milliseconds.
    pub max_packet_lifetime: Option<u32>,
}

/// The settings of a data channel.
pub ghost struct ChannelConfigView {
    pub label: Seq<char>,
    pub ordered: bool,
    pub max_retransmits: Option<i32>,
    pub max_packet_lifetime: Option<u32>,
}

impl DeepView for ChannelConfig {
    type V = ChannelConfigView;

    open spec fn deep_view(&self) -> ChannelConfigView {
        ChannelConfigView {
            label: self.label@,
            ordered: self.ordered,
            max_retransmits: self.max_retransmits,
            max_packet_lifetime: self.max_packet_lifetime,
        }
    }
}

/// What a client makes of a data channel that the bridge opens.
#[derive(Clone, Copy, Debug, PartialEq, Eq, Structural)]
pub enum Route {
    Service,
    State,
    Audit,
    CommandLossy,
    CommandReliable,
    Unknown,
}

/// The label of a channel without the number of the robot.
pub open spec fn label_prefix(role: ChannelRole) -> Seq<char> {
    match role {
        ChannelRole::State => "reachy_state_"@,
        ChannelRole::Audit => "reachy_audit_"@,
        ChannelRole::CommandReliable => "reachy_command_reliable_"@,
        ChannelRole::CommandLossy => "reachy_command_lossy_"@,
    }
}

/// The label of a channel.
pub open spec fn label(role: ChannelRole, id: u32) -> Seq<char> {
    label_prefix(role) + crate::text::decimal(id as nat)
}

/// The role of a channel in the session of robot `id`.
pub open spec fn role_of(name: Seq<char>, id: u32) -> Option<ChannelRole> {
    if name == label(ChannelRole::State, id) {
        Some(ChannelRole::State)
    } else if name == label(ChannelRole::Audit, id) {
        Some(ChannelRole::Audit)
    } else if name == label(ChannelRole::CommandReliable, id) {
        Some(ChannelRole::CommandReliable)
    } else if name == label(ChannelRole::CommandLossy, id) {
        Some(ChannelRole::CommandLossy)
    } else {
        None
    }
}

/// What a client makes of a label.
pub open spec fn route_of(name: Seq<char>) -> Route {
    if name == "service"@ {
        Route::Service
    } else if "reachy_state"@.is_prefix_of(name) {
        Route::State
    } else if "reachy_audit"@.is_prefix_of(name) {
        Route::Audit
    } else if "reachy_command_lossy"@.is_prefix_of(name) {
        Route::CommandLossy
    } else if "reachy_command_reliable"@.is_prefix_of(name) {
        Route::CommandReliable
    } else {
        Route::Unknown
    }
}

/// The settings of the service channel.
pub open spec fn service_config() -> ChannelConfigView {
    ChannelConfigView {
        label: "service"@,
        ordered: true,
        max_retransmits: None,
        max_packet_lifetime: None,
    }
}

/// The settings of a numbered channel; `lifetime` counts for states and audits.
pub open spec fn config_of(role: ChannelRole, id: u32, lifetime: u32) -> ChannelConfigView {
    ChannelConfigView {
        label: label(role, id),
        ordered: true,
        max_retransmits: if role is CommandLossy {
            Some(0i32)
        } else {
            None
        },
        max_packet_lifetime: if role is State || role is Audit {
            Some(lifetime)
        } else {
            None
        },
    }
}

/// The label of the channel of robot `id` with a role.
pub fn channel_label(role: ChannelRole, id: u32) -> (r: String)
    ensures
        r@ == label(role, id),
{
    match role {
        ChannelRole::State => numbered("reachy_state_", id as u64),
        ChannelRole::Audit => numbered("reachy_audit_", id as u64),
        ChannelRole::CommandReliable => numbered("reachy_command_reliable_", id as u64),
        ChannelRole::CommandLossy => numbered("reachy_command_lossy_", id as u64),
    }
}

/// The role of the channel with the label `name` in the session of robot `id`.
pub fn channel_role(name: &str, id: u32) -> (r: Option<ChannelRole>)
    ensures
        r == role_of(name@, id),
{
    if same_text(name, channel_label(ChannelRole::State, id).as_str()) {
        Some(ChannelRole::State)
    } else if same_text(name, channel_label(ChannelRole::Audit, id).as_str()) {
        Some(ChannelRole::Audit)
    } else if same_text(name, channel_label(ChannelRole::CommandReliable, id).as_str()) {
        Some(ChannelRole::CommandReliable)
    } else if same_text(name, channel_label(ChannelRole::CommandLossy, id).as_str()) {
        Some(ChannelRole::CommandLossy)
    } else {
        None
    }
}

/// What a client makes of a channel with the label `name`.
pub fn channel_route(name: &str) -> (r: Route)
    ensures
        r == route_of(name@),
{
    if same_text(name, "service") {
        Route::Service
    } else if starts_with(name, "reachy_state") {
        Route::State
    } else if starts_with(name, "reachy_audit") {
        Route::Audit
    } else if starts_with(name, "reachy_command_lossy") {
        Route::CommandLossy
    } else if starts_with(name, "reachy_command_reliable") {
        Route::CommandReliable
    } else {
        Route::Unknown
    }
}

/// The settings of the service channel.
pub fn service_channel() -> (r: ChannelConfig)
    ensures
        r.deep_view() == service_config(),
{
    ChannelConfig {
        label: "service".to_owned(),
        ordered: true,
        max_retransmits: None,
        max_packet_lifetime: None,
    }
}

/// The settings of the channel of robot `id` with a role.
pub fn numbered_channel(role: ChannelRole, id: u32, lifetime: u32) -> (r: ChannelConfig)
    ensures
        r.deep_view() == config_of(role, id, lifetime),
{
    let label = channel_label(role, id);
    let max_retransmits: Option<i32> = match role {
        ChannelRole::CommandLossy => Some(0),
        _ => None,
    };
    let max_packet_lifetime: Option<u32> = match role {
        ChannelRole::State => Some(lifetime),
        ChannelRole::Audit => Some(lifetime),
        _ => None,
    };
    ChannelConfig { label, ordered: true, max_retransmits, max_packet_lifetime }
}

proof fn lemma_prefixes()
    ensures
        "reachy_state_"@ == "reachy_state"@.push('_'),
        "reachy_audit_"@ == "reachy_audit"@.push('_'),
        "reachy_command_reliable_"@ == "reachy_command_reliable"@.push('_'),
        "reachy_command_lossy_"@ == "reachy_command_lossy"@.push('_'),
        "reachy_state"@.len() == 12,
        "reachy_audit"@.len() == 12,
        "reachy_command_reliable"@.len() == 23,
        "reachy_command_lossy"@.len() == 20,
        "reachy_state"@[7] == 's',
        "reachy_audit"@[7] == 'a',
        "reachy_command_reliable"@[7] == 'c',
        "reachy_command_lossy"@[7] == 'c',
        "reachy_command_reliable"@[15] == 'r',
        "reachy_command_lossy"@[15] == 'l',
        "service"@[0] == 's',
        "service"@.len() == 7,
        "reachy_state"@[0] == 'r',
{
    reveal_strlit("reachy_state_");
    reveal_strlit("reachy_audit_");
    reveal_strlit("reachy_command_reliable_");
    reveal_strlit("reachy_command_lossy_");
    reveal_strlit("reachy_state");
    reveal_strlit("reachy_audit");
    reveal_strlit("reachy_command_reliable");
    reveal_strlit("reachy_command_lossy");
    reveal_strlit("service");
    assert("reachy_state_"@ =~= "reachy_state"@.push('_'));
    assert("reachy_audit_"@ =~= "reachy_audit"@.push('_'));
    assert("reachy_command_reliable_"@ =~= "reachy_command_reliable"@.push('_'));
    assert("reachy_command_lossy_"@ =~= "reachy_command_lossy"@.push('_'));
}

/// No two channels share a label: neither two roles, nor two robots.
pub proof fn lemma_labels_distinct(role: ChannelRole, id: u32, other: ChannelRole, other_id: u32)
    ensures
        label(role, id) == label(other, other_id) ==> role == other && id == other_id,
{
    lemma_prefixes();
    let a = label(role, id);
    let b = label(other, other_id);
    if a == b {
        assert(a[7] == label_prefix(role)[7] && b[7] == label_prefix(other)[7]);
        if label_prefix(role).len() > 15 && label_prefix(other).len() > 15 {
            assert(a[15] == label_prefix(role)[15] && b[15] == label_prefix(other)[15]);
        }
        assert(role == other);
        let n = label_prefix(role).len();
        assert(a.skip(n as int) =~= crate::text::decimal(id as nat));
        assert(b.skip(n as int) =~= crate::text::decimal(other_id as nat));
        crate::text::lemma_decimal_injective(id as nat, other_id as nat);
    }
}

/// A session knows its own channels by their labels, and no channel of another robot.
pub proof fn lemma_label_role(role: ChannelRole, id: u32, session: u32)
    ensures
        role_of(label(role, id), session) == if id == session {
            Some(role)
        } else {
            None
        },
{
    lemma_labels_distinct(role, id, ChannelRole::State, session);
    lemma_labels_distinct(role, id, ChannelRole::Audit, session);
    lemma_labels_distinct(role, id, ChannelRole::CommandReliable, session);
    lemma_labels_distinct(role, id, ChannelRole::CommandLossy, session);
}

/// A client takes each channel that a session makes for what it is.
pub proof fn lemma_label_route(role: ChannelRole, id: u32)
    ensures
        route_of(service_config().label) == Route::Service,
        route_of(label(role, id)) == match role {
            ChannelRole::State => Route::State,
            ChannelRole::Audit => Route::Audit,
            ChannelRole::CommandReliable => Route::CommandReliable,
            ChannelRole::CommandLossy => Route::CommandLossy,
        },
{
    lemma_prefixes();
    let name = label(role, id);
    let bare = match role {
        ChannelRole::State => "reachy_state"@,
        ChannelRole::Audit => "reachy_audit"@,
        ChannelRole::CommandReliable => "reachy_command_reliable"@,
        ChannelRole::CommandLossy => "reachy_command_lossy"@,
    };
    assert(name.subrange(0, bare.len() as int) =~= bare);
    assert(name.len() > 7);
    assert(forall|p: Seq<char>|
        #[trigger] p.is_prefix_of(name) && p.len() > 7 ==> p[7] == name[7] && name.subrange(
            0,
            p.len() as int,
        )[7] == name[7]);
    assert(forall|p: Seq<char>|
        #[trigger] p.is_prefix_of(name) && p.len() > 15 ==> p[15] == name[15] && name.subrange(
            0,
            p.len() as int,
        )[15] == name[15]);
    assert(name[7] == bare[7]);
    if bare.len() > 15 {
        assert(name[15] == bare[15]);
    }
}

/// Labels are made of a word for the role and the number of the robot.
pub proof fn lemma_labels_are_written(id: u32)
    ensures
        label(ChannelRole::State, id) == "reachy_state_"@ + crate::text::decimal(id as nat),
        label(ChannelRole::Audit, id) == "reachy_audit_"@ + crate::text::decimal(id as nat),
        label(ChannelRole::CommandReliable, id) == "reachy_command_reliable_"@
            + crate::text::decimal(id as nat),
        label(ChannelRole::CommandLossy, id) == "reachy_command_lossy_"@ + crate::text::decimal(
            id as nat,
        ),
{
}

/// A channel has a role in a session if and only if it has the label of that role.
pub proof fn lemma_role_by_label(name: Seq<char>, role: ChannelRole, id: u32)
    ensures
        role_of(name, id) == Some(role) <==> name == label(role, id),
{
    lemma_label_role(role, id, id);
}

/// Every channel is ordered. Messages on the service channel and on the reliable command
/// channel are sent again until they arrive; on the lossy one they are never sent again; states
/// and audits are given up after their lifetime.
pub proof fn lemma_settings(role: ChannelRole, id: u32, lifetime: u32)
    ensures
        ({
            let made = config_of(role, id, lifetime);
            &&& made.label == label(role, id)
            &&& made.ordered
            &&& made.max_retransmits == Some(0i32) <==> role is CommandLossy
            &&& made.max_retransmits is None <==> !(role is CommandLossy)
            &&& role is State || role is Audit ==> made.max_packet_lifetime == Some(lifetime)
            &&& role is CommandReliable || role is CommandLossy ==> made.max_packet_lifetime
                is None
        }),
        service_config().label == "service"@,
        service_config().ordered,
        service_config().max_retransmits is None,
        service_config().max_packet_lifetime is None,
{
}

/// A client knows the service channel by its whole label, and each other channel by what its
/// label begins with.
pub proof fn lemma_routes(name: Seq<char>)
    ensures
        route_of(name) == Route::Service <==> name == "service"@,
        route_of(name) == Route::State <==> "reachy_state"@.is_prefix_of(name),
        route_of(name) == Route::Audit <==> "reachy_audit"@.is_prefix_of(name),
        route_of(name) == Route::CommandLossy <==> "reachy_command_lossy"@.is_prefix_of(name),
        route_of(name) == Route::CommandReliable <==> "reachy_command_reliable"@.is_prefix_of(
            name,
        ),
{
    lemma_prefixes();
    assert(forall|p: Seq<char>|
        #[trigger] p.is_prefix_of(name) && p.len() > 7 ==> p[7] == name[7] && name.subrange(
            0,
            p.len() as int,
        )[7] == name[7]);
    assert(forall|p: Seq<char>|
        #[trigger] p.is_prefix_of(name) && p.len() > 15 ==> p[15] == name[15] && name.subrange(
            0,
            p.len() as int,
        )[15] == name[15]);
}

/// What is said of a channel are its settings.
pub proof fn lemma_config_view(config: ChannelConfig)
    ensures
        config.deep_view().label == config.label@,
        config.deep_view().ordered == config.ordered,
        config.deep_view().max_retransmits == config.max_retransmits,
        config.deep_view().max_packet_lifetime == config.max_packet_lifetime,
{
}

} // verus!
