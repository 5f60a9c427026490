//! Peer-communication management: a polymorphic transport behind one
//! capability-style interface, selected by parsing a connection descriptor
//! string of the form `protocol:address`.
//!
//! The manager is a state machine — disconnected, waiting for the player's
//! identity, performing a signed login, or connected through an adapter —
//! and every transition is decided here. The adapters themselves move bytes
//! and frames; the host implements [`Adapter`] over its transports, and the
//! offline adapter that moves nothing lives here.

use vstd::prelude::*;

use vstd::string::{StrSliceExecFns, StringExecFns};

verus! {

/// One chat message, timestamped in milliseconds.
#[derive(Clone, Debug)]
pub struct ChatData {
    pub message: String,
    pub timestamp_ms: u64,
}

/// One position broadcast: spatial coordinates in integer millimetres and a
/// rotation quaternion in thousandths, as the renderer hands them over.
#[derive(Clone, Copy, Debug)]
pub struct PositionData {
    pub index: u32,
    pub position_mm: [i32; 3],
    pub rotation_milli: [i32; 4],
}

/// Payload of one outgoing packet.
#[derive(Clone, Debug)]
pub enum PacketMessage {
    Position(PositionData),
    Chat(ChatData),
}

/// One packet for the room transport.
#[derive(Clone, Debug)]
pub struct Packet {
    pub message: Option<PacketMessage>,
}

/// The local player's profile, as shared with peers.
#[derive(Clone, Debug)]
pub struct UserProfile {
    pub name: String,
    pub address: String,
}

/// A peer-communication transport: a socket room, a real-time-media room,
/// or the offline transport. The host implements this over its adapters;
/// each exposes polling, sending, chat draining and cleanup.
pub trait Adapter {
    /// One poll step; `false` means the transport is gone and the manager
    /// disconnects.
    fn poll(&mut self) -> bool;

    /// Releases the transport's resources.
    fn clean(&mut self);

    /// Drains received chats: sender address, sender profile name, chat.
    fn consume_chats(&mut self) -> Vec<(String, String, ChatData)>;

    /// Announces the local player's new profile to peers.
    fn change_profile(&mut self, new_profile: UserProfile);

    /// Sends one packet; `true` when the transport accepted it.
    fn send_rfc4(&mut self, packet: Packet, unreliable: bool) -> bool;

    /// Broadcasts one voice frame.
    fn broadcast_voice(&mut self, frame: Vec<i16>);

    /// Whether the transport carries voice at all.
    fn support_voice_chat(&self) -> bool;
}

/// The transport that moves nothing: polls fine, accepts no packet, carries
/// no voice.
pub struct OfflineAdapter;

impl Adapter for OfflineAdapter {
    fn poll(&mut self) -> bool {
        true
    }

    fn clean(&mut self) {
    }

    fn consume_chats(&mut self) -> Vec<(String, String, ChatData)> {
        Vec::new()
    }

    fn change_profile(&mut self, _new_profile: UserProfile) {
    }

    fn send_rfc4(&mut self, _packet: Packet, _unreliable: bool) -> bool {
        false
    }

    fn broadcast_voice(&mut self, _frame: Vec<i16>) {
    }

    fn support_voice_chat(&self) -> bool {
        false
    }
}

#[verifier::external_type_specification]
#[verifier::external_body]
pub struct ExUri(http::Uri);

/// Whether a text parses as a URI.
pub uninterp spec fn uri_text(s: Seq<char>) -> bool;

/// Relies on http::Uri's FromStr: whether a string parses as a URI depends
/// on its characters alone.
#[verifier::external_body]
fn parse_uri(s: &str) -> (r: Option<http::Uri>)
    ensures
        r is Some <==> uri_text(s@),
{
    s.parse::<http::Uri>().ok()
}

/// Index of the first colon, splitting a descriptor into protocol and
/// address.
pub open spec fn first_colon(s: Seq<char>) -> Option<int>
    decreases s.len(),
{
    if s.len() == 0 {
        None
    } else if s[0] == ':' {
        Some(0)
    } else {
        match first_colon(s.drop_first()) {
            Some(i) => Some(i + 1),
            None => None,
        }
    }
}

proof fn lemma_first_colon_found(s: Seq<char>, i: int)
    requires
        0 <= i < s.len(),
        s[i] == ':',
        forall|j: int| 0 <= j < i ==> s[j] != ':',
    ensures
        first_colon(s) == Some(i),
    decreases s.len(),
{
    if s[0] != ':' {
        assert(s.drop_first()[i - 1] == ':');
        assert(forall|j: int| 0 <= j < i - 1 ==> s.drop_first()[j] == s[j + 1] && s[j + 1] != ':');
        lemma_first_colon_found(s.drop_first(), i - 1);
    }
}

proof fn lemma_first_colon_none(s: Seq<char>)
    requires
        forall|j: int| 0 <= j < s.len() ==> s[j] != ':',
    ensures
        first_colon(s) is None,
    decreases s.len(),
{
    if s.len() > 0 {
        assert(forall|j: int|
            0 <= j < s.drop_first().len() ==> s.drop_first()[j] == s[j + 1] && s[j + 1] != ':');
        lemma_first_colon_none(s.drop_first());
    }
}

/// Splits a connection descriptor at its first colon into protocol and
/// address; a descriptor without a colon is unrecognised.
pub fn split_descriptor(s: &String) -> (r: Option<(String, String)>)
    ensures
        r is Some <==> first_colon(s@) is Some,
        r is Some ==> {
            let i = first_colon(s@).unwrap();
            &&& r.unwrap().0@ == s@.take(i)
            &&& r.unwrap().1@ == s@.skip(i + 1)
        },
{
    let text = s.as_str();
    let n = text.unicode_len();
    let mut i: usize = 0;
    while i < n
        invariant
            n == s@.len(),
            text@ == s@,
            i <= n,
            forall|j: int| 0 <= j < i ==> s@[j] != ':',
        decreases n - i,
    {
        if text.get_char(i) == ':' {
            proof {
                lemma_first_colon_found(s@, i as int);
            }
            let protocol = String::from_str(text.substring_char(0, i));
            let address = String::from_str(text.substring_char(i + 1, n));
            proof {
                assert(s@.subrange(0, i as int) =~= s@.take(i as int));
                assert(s@.subrange(i as int + 1, n as int) =~= s@.skip(i as int + 1));
            }
            return Some((protocol, address));
        }
        i += 1;
    }
    proof {
        lemma_first_colon_none(s@);
    }
    None
}

/// The signed-login flow in progress: the validated login endpoint and the
/// realm origin it was started for.
#[derive(Clone, Debug)]
pub struct SignedLoginState {
    pub uri: String,
    pub origin: String,
}

/// What one poll of the signed-login flow reported: still pending, complete
/// with the adapter descriptor the realm fixed (if any), or failed.
#[derive(Clone, Debug)]
pub enum SignedLoginPollStatus {
    Pending,
    Complete(Option<String>),
    Error(String),
}

/// Connection state of the manager; `A` is the host's adapter type.
pub enum CommsConnection<A> {
    Disconnected,
    WaitingForIdentity(String),
    SignedLogin(SignedLoginState),
    Connected(A),
}

/// What the host must do after a connection descriptor was handled.
#[derive(Clone, Debug)]
pub enum AdapterAction {
    /// No colon in the descriptor: log and change nothing.
    UnrecognisedDescriptor,
    /// The player's identity is not connected yet; the descriptor waits.
    WaitIdentity,
    /// Build the socket-room transport at this address and hand it back.
    ConnectSocketRoom(String),
    /// Drive the signed-login flow at the stored endpoint.
    BeginSignedLogin,
    /// Build the real-time-media-room transport at this address.
    ConnectMediaRoom(String),
    /// Stay without a transport.
    SetOffline,
    /// The address or realm origin is no URI: log and change nothing more.
    InvalidUri,
    /// An unknown protocol tag: log and change nothing more.
    UnknownProtocol(String),
}

/// Decision on a changed realm's communication settings.
#[derive(Clone, Debug)]
pub enum RealmCommsDecision {
    /// The realm carries no comms description.
    Invalid,
    /// Only protocol `v3` is supported.
    UnsupportedProtocol,
    /// Only a fixed adapter is supported.
    NoFixedAdapter,
    /// Hand this descriptor to `change_adapter`.
    Change(String),
}

/// Decides what a changed realm's comms settings mean: only protocol `v3`
/// with a fixed adapter descriptor leads to a connection change.
pub fn decide_realm_comms(comms: Option<(String, Option<String>)>) -> (r: RealmCommsDecision)
    ensures
        match comms {
            None => r is Invalid,
            Some(c) => if c.0@ != "v3"@ {
                r is UnsupportedProtocol
            } else {
                match c.1 {
                    None => r is NoFixedAdapter,
                    Some(d) => r is Change && r->Change_0 == d,
                }
            },
        },
{
    match comms {
        None => RealmCommsDecision::Invalid,
        Some((protocol, fixed_adapter)) => {
            if !(protocol == String::from_str("v3")) {
                RealmCommsDecision::UnsupportedProtocol
            } else {
                match fixed_adapter {
                    None => RealmCommsDecision::NoFixedAdapter,
                    Some(descriptor) => RealmCommsDecision::Change(descriptor),
                }
            }
        },
    }
}

/// Manager of the peer-communication connection for one client.
pub struct CommunicationManager<A> {
    current_connection: CommsConnection<A>,
    current_connection_str: String,
    last_position_broadcast_index: u64,
}

impl<A: Adapter> CommunicationManager<A> {
    pub closed spec fn connection(self) -> CommsConnection<A> {
        self.current_connection
    }

    /// The descriptor of the current connection.
    pub closed spec fn conn_str(self) -> Seq<char> {
        self.current_connection_str@
    }

    /// Sequence number of the next position broadcast.
    pub closed spec fn position_index(self) -> u64 {
        self.last_position_broadcast_index
    }

    pub fn new() -> (r: CommunicationManager<A>)
        ensures
            r.connection() is Disconnected,
            r.conn_str() == Seq::<char>::empty(),
            r.position_index() == 0,
    {
        let r = CommunicationManager {
            current_connection: CommsConnection::Disconnected,
            current_connection_str: String::new(),
            last_position_broadcast_index: 0,
        };
        r
    }

    /// Handles a connection descriptor: splits it, waits for identity when
    /// the player is not connected yet, validates signed-login endpoints,
    /// and tells the host which transport to build. The descriptor is stored
    /// only once it is recognised and identity is present.
    pub fn change_adapter(
        &mut self,
        descriptor: String,
        identity_connected: bool,
        realm_url: &String,
    ) -> (r: AdapterAction)
        ensures
            final(self).position_index() == old(self).position_index(),
            first_colon(descriptor@) is None ==> {
                &&& r is UnrecognisedDescriptor
                &&& *final(self) == *old(self)
            },
            first_colon(descriptor@) is Some && !identity_connected ==> {
                &&& r is WaitIdentity
                &&& final(self).connection() is WaitingForIdentity
                &&& final(self).conn_str() == old(self).conn_str()
            },
            first_colon(descriptor@) is Some && identity_connected ==> {
                let i = first_colon(descriptor@).unwrap();
                let protocol = descriptor@.take(i);
                let address = descriptor@.skip(i + 1);
                &&& final(self).conn_str() == descriptor@
                &&& if protocol == "ws-room"@ {
                    r is ConnectSocketRoom && r->ConnectSocketRoom_0@ == address
                        && final(self).connection() is Disconnected
                } else if protocol == "signed-login"@ {
                    if uri_text(address) && uri_text(realm_url@) {
                        r is BeginSignedLogin && final(self).connection() is SignedLogin
                            && final(self).connection()->SignedLogin_0.uri@ == address
                            && final(self).connection()->SignedLogin_0.origin@ == realm_url@
                    } else {
                        r is InvalidUri && final(self).connection() is Disconnected
                    }
                } else if protocol == "livekit"@ {
                    r is ConnectMediaRoom && r->ConnectMediaRoom_0@ == address
                        && final(self).connection() is Disconnected
                } else if protocol == "offline"@ {
                    r is SetOffline && final(self).connection() is Disconnected
                } else {
                    r is UnknownProtocol && r->UnknownProtocol_0@ == protocol
                        && final(self).connection() is Disconnected
                }
            },
    {
        let parts = split_descriptor(&descriptor);
        match parts {
            None => AdapterAction::UnrecognisedDescriptor,
            Some((protocol, address)) => {
                if !identity_connected {
                    self.current_connection = CommsConnection::WaitingForIdentity(descriptor);
                    return AdapterAction::WaitIdentity;
                }
                self.current_connection = CommsConnection::Disconnected;
                self.current_connection_str = descriptor;
                if protocol == String::from_str("ws-room") {
                    AdapterAction::ConnectSocketRoom(address)
                } else if protocol == String::from_str("signed-login") {
                    if parse_uri(address.as_str()).is_some() && parse_uri(
                        realm_url.as_str(),
                    ).is_some() {
                        let origin = realm_url.clone();
                        self.current_connection = CommsConnection::SignedLogin(
                            SignedLoginState { uri: address, origin },
                        );
                        AdapterAction::BeginSignedLogin
                    } else {
                        AdapterAction::InvalidUri
                    }
                } else if protocol == String::from_str("livekit") {
                    AdapterAction::ConnectMediaRoom(address)
                } else if protocol == String::from_str("offline") {
                    AdapterAction::SetOffline
                } else {
                    AdapterAction::UnknownProtocol(protocol)
                }
            },
        }
    }

    /// Installs the transport the host built for the stored descriptor.
    pub fn set_connected(&mut self, adapter: A)
        ensures
            final(self).connection() == (CommsConnection::Connected(adapter)),
            final(self).conn_str() == old(self).conn_str(),
            final(self).position_index() == old(self).position_index(),
    {
        self.current_connection = CommsConnection::Connected(adapter);
    }

    /// While waiting for the player's identity: once it is connected, hands
    /// the stored descriptor back so the host re-submits it.
    pub fn on_identity_connected(&self) -> (r: Option<&String>)
        ensures
            r is Some <==> self.connection() is WaitingForIdentity,
            r is Some ==> r.unwrap()@ == self.connection()->WaitingForIdentity_0@,
    {
        match &self.current_connection {
            CommsConnection::WaitingForIdentity(descriptor) => Some(descriptor),
            _ => None,
        }
    }

    /// Handles one poll of the signed-login flow: a completed login yields
    /// the descriptor to connect to — the realm's fixed adapter, or offline
    /// when it fixed none — and a failed one disconnects.
    pub fn on_signed_login_poll(&mut self, status: SignedLoginPollStatus) -> (r: Option<String>)
        ensures
            final(self).conn_str() == old(self).conn_str(),
            final(self).position_index() == old(self).position_index(),
            match status {
                SignedLoginPollStatus::Pending => r is None && *final(self) == *old(self),
                SignedLoginPollStatus::Complete(fixed) => {
                    &&& r is Some
                    &&& r.unwrap()@ == (match fixed {
                        Some(d) => d@,
                        None => "offline"@,
                    })
                    &&& final(self).connection() == old(self).connection()
                },
                SignedLoginPollStatus::Error(_) => r is None && final(self).connection()
                    is Disconnected,
            },
    {
        match status {
            SignedLoginPollStatus::Pending => None,
            SignedLoginPollStatus::Complete(fixed) => match fixed {
                Some(descriptor) => Some(descriptor),
                None => Some(String::from_str("offline")),
            },
            SignedLoginPollStatus::Error(_) => {
                self.current_connection = CommsConnection::Disconnected;
                None
            },
        }
    }

    /// One poll of a connected transport: drains its chats for the host to
    /// surface, and disconnects exactly when the transport reported itself
    /// gone — `r.0` is that poll outcome. In any other state nothing
    /// happens and `r.0` holds vacuously.
    pub fn process(&mut self) -> (r: (bool, Vec<(String, String, ChatData)>))
        ensures
            final(self).conn_str() == old(self).conn_str(),
            final(self).position_index() == old(self).position_index(),
            !(old(self).connection() is Connected) ==> *final(self) == *old(self) && r.0
                && r.1@.len() == 0,
            old(self).connection() is Connected ==> {
                &&& final(self).connection() is Connected <==> r.0
                &&& final(self).connection() is Disconnected <==> !r.0
            },
    {
        match &mut self.current_connection {
            CommsConnection::Connected(adapter) => {
                let polling_ok = adapter.poll();
                let chats = adapter.consume_chats();
                if !polling_ok {
                    self.current_connection = CommsConnection::Disconnected;
                }
                (polling_ok, chats)
            },
            _ => (true, Vec::new()),
        }
    }

    /// Builds the position packet for this broadcast, carrying the current
    /// sequence number.
    pub fn position_packet(&self, position_mm: [i32; 3], rotation_milli: [i32; 4]) -> (r: Packet)
        requires
            position_mm[2] > i32::MIN,
            rotation_milli[2] > i32::MIN,
            rotation_milli[3] > i32::MIN,
        ensures
            r.message is Some,
            r.message.unwrap() is Position,
            ({
                let p = r.message.unwrap()->Position_0;
                &&& p.index == self.position_index() as u32
                &&& p.position_mm[0] == position_mm[0]
                &&& p.position_mm[1] == position_mm[1]
                &&& p.position_mm[2] == -position_mm[2]
                &&& p.rotation_milli[0] == rotation_milli[0]
                &&& p.rotation_milli[1] == rotation_milli[1]
                &&& p.rotation_milli[2] == -rotation_milli[2]
                &&& p.rotation_milli[3] == -rotation_milli[3]
            }),
    {
        Packet {
            message: Some(
                PacketMessage::Position(
                    PositionData {
                        index: self.last_position_broadcast_index as u32,
                        position_mm: [position_mm[0], position_mm[1], -position_mm[2]],
                        rotation_milli: [
                            rotation_milli[0],
                            rotation_milli[1],
                            -rotation_milli[2],
                            -rotation_milli[3],
                        ],
                    },
                ),
            ),
        }
    }

    /// Broadcasts position and rotation, unreliably; the sequence number
    /// advances exactly when a connected transport accepted the packet.
    pub fn broadcast_position_and_rotation(
        &mut self,
        position_mm: [i32; 3],
        rotation_milli: [i32; 4],
    ) -> (sent: bool)
        requires
            position_mm[2] > i32::MIN,
            rotation_milli[2] > i32::MIN,
            rotation_milli[3] > i32::MIN,
            old(self).position_index() < u64::MAX,
        ensures
            final(self).conn_str() == old(self).conn_str(),
            final(self).connection() is Connected <==> old(self).connection() is Connected,
            !(old(self).connection() is Connected) ==> !sent && *final(self) == *old(self),
            sent ==> final(self).position_index() == old(self).position_index() + 1,
            !sent ==> final(self).position_index() == old(self).position_index(),
    {
        let packet = self.position_packet(position_mm, rotation_milli);
        let sent = match &mut self.current_connection {
            CommsConnection::Connected(adapter) => adapter.send_rfc4(packet, true),
            _ => false,
        };
        if sent {
            self.last_position_broadcast_index = self.last_position_broadcast_index + 1;
        }
        sent
    }

    /// Builds the chat packet carrying the given text, timestamped zero.
    pub fn chat_packet(text: String) -> (r: Packet)
        ensures
            r.message is Some,
            r.message.unwrap() is Chat,
            r.message.unwrap()->Chat_0.message == text,
            r.message.unwrap()->Chat_0.timestamp_ms == 0,
    {
        Packet { message: Some(PacketMessage::Chat(ChatData { message: text, timestamp_ms: 0 })) }
    }

    /// Hands one chat packet — the given text, timestamp zero, reliably —
    /// to the connected transport; `false` when no transport is connected
    /// or the transport refused it. The connection state survives the send.
    pub fn send_chat(&mut self, text: String) -> (sent: bool)
        ensures
            final(self).conn_str() == old(self).conn_str(),
            final(self).position_index() == old(self).position_index(),
            final(self).connection() is Connected <==> old(self).connection() is Connected,
            !(old(self).connection() is Connected) ==> !sent && *final(self) == *old(self),
    {
        let packet = Self::chat_packet(text);
        match &mut self.current_connection {
            CommsConnection::Connected(adapter) => adapter.send_rfc4(packet, false),
            _ => false,
        }
    }

    /// Broadcasts one voice frame when a connected transport supports voice
    /// and the frame carries any signal.
    pub fn broadcast_voice(&mut self, frame: Vec<i16>, max_value: i16)
        ensures
            final(self).conn_str() == old(self).conn_str(),
            final(self).position_index() == old(self).position_index(),
            final(self).connection() is Connected <==> old(self).connection() is Connected,
            !(old(self).connection() is Connected) ==> *final(self) == *old(self),
    {
        match &mut self.current_connection {
            CommsConnection::Connected(adapter) => {
                if adapter.support_voice_chat() && max_value > 0 {
                    adapter.broadcast_voice(frame);
                }
            },
            _ => {},
        }
    }

    /// Announces a changed player profile to a connected transport.
    pub fn on_profile_changed(&mut self, new_profile: UserProfile)
        ensures
            final(self).conn_str() == old(self).conn_str(),
            final(self).position_index() == old(self).position_index(),
            final(self).connection() is Connected <==> old(self).connection() is Connected,
            !(old(self).connection() is Connected) ==> *final(self) == *old(self),
    {
        match &mut self.current_connection {
            CommsConnection::Connected(adapter) => adapter.change_profile(new_profile),
            _ => {},
        }
    }

    /// Releases the current transport, if any, and forgets the descriptor.
    pub fn clean(&mut self)
        ensures
            final(self).connection() is Disconnected,
            final(self).conn_str() == Seq::<char>::empty(),
            final(self).position_index() == old(self).position_index(),
    {
        match &mut self.current_connection {
            CommsConnection::Connected(adapter) => adapter.clean(),
            _ => {},
        }
        self.current_connection = CommsConnection::Disconnected;
        self.current_connection_str = String::new();
    }

    /// Disconnects; tells the host whether to also sign the session out.
    pub fn disconnect(&mut self, sign_out_session: bool) -> (r: bool)
        ensures
            final(self).connection() is Disconnected,
            final(self).conn_str() == Seq::<char>::empty(),
            final(self).position_index() == old(self).position_index(),
            r == sign_out_session,
    {
        self.clean();
        sign_out_session
    }

    /// The descriptor of the current connection.
    pub fn get_current_adapter_conn_str(&self) -> (r: String)
        ensures
            r@ == self.conn_str(),
    {
        self.current_connection_str.clone()
    }
}

} // verus!
