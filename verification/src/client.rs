//! The decisions of a grid client: reading the login service's answer,
//! the messages it sends to keep the circuit, what it acknowledges, and how
//! it establishes the UDP circuit. Sending, receiving and waiting are done by
//! the caller, which hands the outcome back.

use crate::buffers::{bytes_contents, bytes_len};
use crate::header::{spec_header_parsed, spec_id_end, Header, PacketFrequency};
use crate::messages::{
    message_header, spec_plain_header, AgentCircuitBlock, AgentHeightWidthHeightWidthBlock, AgentHeightWidthPacket,
    AgentSessionBlock, CompleteAgentMovementPacket, CompletePingCheckPacket, PacketAckPacket,
    RegionHandshakeReplyPacket, UseCircuitCodeCircuitCodeBlock, UseCircuitCodePacket,
};
use crate::osd::{
    spec_as_boolean, spec_as_integer, spec_as_string, spec_key_index, spec_real_formatter, OSD, OsdMap,
};
use crate::packets::RegionHandshakePacket;
use crate::text::{string_from_utf8_lossy, utf8_lossy};
use crate::uuid::{spec_is_nil, uuid_parse_str, UUID};
use bytes::Bytes;
use vstd::prelude::*;

verus! {

/// The `CompletePingCheck` answering a `StartPingCheck` with header `ping`
/// and ping number `ping_id`: High 2, unreliable, sequence `sequence`, and
/// when the ping was reliable its sequence number appended as an
/// acknowledgement.
pub fn complete_ping_check(ping: &Header, ping_id: u8, sequence: u32) -> (p: CompletePingCheckPacket)
    ensures
        p.header.frequency == PacketFrequency::High,
        p.header.id == 2,
        !p.header.reliable && !p.header.resent && !p.header.zerocoded,
        p.header.sequence == sequence,
        p.header.appended_acks == ping.reliable,
        p.header.acks@ == (if ping.reliable { seq![ping.sequence] } else { Seq::<u32>::empty() }),
        p.ping_i_d == ping_id,
{
    let mut acks: Vec<u32> = Vec::new();
    if ping.reliable {
        acks.push(ping.sequence);
    }
    let header = Header {
        reliable: false,
        resent: false,
        zerocoded: false,
        appended_acks: acks.len() > 0,
        sequence,
        id: 2,
        frequency: PacketFrequency::High,
        acks,
    };
    CompletePingCheckPacket { header, ping_i_d: ping_id }
}

/// The sequence number an incoming packet asks to be acknowledged: its own,
/// when it is reliable.
pub fn acknowledgement_for(header: &Header) -> (r: Option<u32>)
    ensures
        r == (if header.reliable { Some(header.sequence) } else { None::<u32> }),
{
    if header.reliable {
        Some(header.sequence)
    } else {
        None
    }
}

/// The `PacketAck` (Low 65531, unreliable) acknowledging `acked`.
pub fn packet_ack(sequence: u32, acked: u32) -> (p: PacketAckPacket)
    ensures
        spec_plain_header(p.header, PacketFrequency::Low, 65531, false, sequence),
        p.packets@ == seq![acked],
{
    let mut packets: Vec<u32> = Vec::new();
    packets.push(acked);
    PacketAckPacket { header: message_header(PacketFrequency::Low, 65531, false, sequence), packets }
}

/// Shorter datagrams cannot hold a packet header and are skipped.
pub const MIN_PACKET_LEN: usize = 7;

/// Whether a received datagram is too short to be a packet.
pub fn is_truncated(len: usize) -> (r: bool)
    ensures
        r == (len < MIN_PACKET_LEN),
{
    len < MIN_PACKET_LEN
}

/// What the client makes of a received datagram before dispatching it.
pub enum DatagramVerdict {
    /// Too short to hold a packet header: skipped.
    Truncated,
    /// Its header cannot be read: dropped.
    Malformed,
    /// Its header was read; the acknowledgements it carries settle pending
    /// reliable messages, and `ack`, when present, is the sequence number
    /// to acknowledge with a `PacketAck`.
    Accepted { header: Header, ack: Option<u32> },
}

/// Reads the header of a received datagram (the datagram itself is left
/// as it is): too short, unreadable, or its header with the
/// acknowledgement it asks for.
pub fn inspect_datagram(data: &Bytes) -> (r: DatagramVerdict)
    ensures
        bytes_contents(*data).len() < MIN_PACKET_LEN <==> r is Truncated,
        r is Malformed <==> (bytes_contents(*data).len() >= MIN_PACKET_LEN && spec_id_end(bytes_contents(*data)) is None),
        r matches DatagramVerdict::Accepted { header, ack } ==> {
            &&& exists|body: Seq<u8>| spec_header_parsed(bytes_contents(*data), header, body)
            &&& ack == (if header.reliable { Some(header.sequence) } else { None::<u32> })
        },
{
    if is_truncated(bytes_len(data)) {
        return DatagramVerdict::Truncated;
    }
    let mut header_data = data.clone();
    match Header::deserialize(&mut header_data) {
        Ok(header) => {
            let ack = acknowledgement_for(&header);
            DatagramVerdict::Accepted { header, ack }
        },
        Err(_) => DatagramVerdict::Malformed,
    }
}

/// The avatar's standard height and width, announced after the region
/// handshake.
pub const STANDARD_HEIGHT: u16 = 169;
pub const STANDARD_WIDTH: u16 = 45;

/// The region a handshake announces, as the simulator record keeps it: its
/// name, the bytes decoded as UTF-8 with each invalid sequence replaced,
/// and its identifier.
pub fn region_identity(handshake: &RegionHandshakePacket) -> (r: (String, UUID))
    ensures
        r.0@ == utf8_lossy(handshake.sim_name@),
        r.1 == handshake.region_i_d,
{
    (string_from_utf8_lossy(handshake.sim_name.as_slice()), handshake.region_i_d)
}

/// Whether a region handshake is answered: only once an agent is logged in
/// (its identifier is not all zeros).
pub fn answers_region_handshake(agent_id: &UUID) -> (r: bool)
    ensures
        r == !spec_is_nil(*agent_id),
{
    !agent_id.is_zero()
}

/// What happened last while answering a region handshake.
#[derive(Debug, Clone, Copy, PartialEq, Eq, Structural)]
pub enum HandshakeEvent {
    /// The `RegionHandshake` arrived.
    Received,
    /// Sending `RegionHandshakeReply` succeeded or failed.
    ReplySent(bool),
    /// Sending `AgentHeightWidth` succeeded or failed.
    HeightWidthSent(bool),
}

/// What to do next while answering a region handshake.
#[derive(Debug, Clone, Copy, PartialEq, Eq, Structural)]
pub enum HandshakeAction {
    /// Send `RegionHandshakeReply`.
    SendReply,
    /// Send `AgentHeightWidth`.
    SendHeightWidth,
    /// The region is ready for use.
    Ready,
    /// Nothing more to do; the region is not marked ready.
    Stop,
}

/// The next step of answering a region handshake for agent `agent_id`: a
/// logged-in agent replies, then announces its height and width, and only
/// when both were sent is the region ready; a failed send stops.
pub fn region_handshake_step(agent_id: &UUID, event: HandshakeEvent) -> (r: HandshakeAction)
    ensures
        r == match event {
            HandshakeEvent::Received => if spec_is_nil(*agent_id) {
                HandshakeAction::Stop
            } else {
                HandshakeAction::SendReply
            },
            HandshakeEvent::ReplySent(true) => HandshakeAction::SendHeightWidth,
            HandshakeEvent::HeightWidthSent(true) => HandshakeAction::Ready,
            _ => HandshakeAction::Stop,
        },
{
    match event {
        HandshakeEvent::Received => if answers_region_handshake(agent_id) {
            HandshakeAction::SendReply
        } else {
            HandshakeAction::Stop
        },
        HandshakeEvent::ReplySent(true) => HandshakeAction::SendHeightWidth,
        HandshakeEvent::HeightWidthSent(true) => HandshakeAction::Ready,
        _ => HandshakeAction::Stop,
    }
}

/// What the login service granted: the circuit to open and the agent's
/// session.
pub struct LoginSession {
    pub circuit_code: u32,
    pub session_id: UUID,
    pub agent_id: UUID,
    pub session_id_text: String,
    pub agent_id_text: String,
    pub sim_ip: String,
    pub sim_port: u16,
    pub seed_capability: String,
}

/// The value stored under `k`, if any.
pub open spec fn spec_field(m: OsdMap<OSD>, k: Seq<char>) -> Option<OSD> {
    match spec_key_index(m.spec_entries(), k) {
        Some(i) => Some(m.spec_entries()[i].1),
        None => None,
    }
}

/// A field read as text, or empty when missing or not text-like.
pub open spec fn spec_text_field<F: Fn(u64) -> String>(m: OsdMap<OSD>, k: Seq<char>, f: F) -> Seq<char> {
    match spec_field(m, k) {
        Some(v) => match spec_as_string(v, f) {
            Some(t) => t,
            None => Seq::empty(),
        },
        None => Seq::empty(),
    }
}

/// A field read as an `i32`, or 0 when missing or not a number.
pub open spec fn spec_int_field(m: OsdMap<OSD>, k: Seq<char>) -> i32 {
    match spec_field(m, k) {
        Some(v) => match spec_as_integer(v) {
            Some(i) => i,
            None => 0,
        },
        None => 0,
    }
}

/// An identifier read from text, or all zeros when it does not parse.
pub open spec fn spec_uuid_or_zero(t: Seq<char>) -> Seq<u8> {
    match uuid_parse_str(t) {
        Some(b) => b,
        None => Seq::new(16, |i: int| 0u8),
    }
}

/// `s` is the session a successful login response map describes: the
/// circuit code and port cast from their integers (0 when missing), texts
/// empty when missing, and identifiers zero when their text does not parse.
pub open spec fn spec_session_of<F: Fn(u64) -> String>(m: OsdMap<OSD>, f: F, s: LoginSession) -> bool {
    &&& s.circuit_code == spec_int_field(m, "circuit_code"@) as u32
    &&& s.sim_port == spec_int_field(m, "sim_port"@) as u16
    &&& s.session_id_text@ == spec_text_field(m, "session_id"@, f)
    &&& s.agent_id_text@ == spec_text_field(m, "agent_id"@, f)
    &&& s.sim_ip@ == spec_text_field(m, "sim_ip"@, f)
    &&& s.seed_capability@ == spec_text_field(m, "seed_capability"@, f)
    &&& s.session_id.0@ == spec_uuid_or_zero(s.session_id_text@)
    &&& s.agent_id.0@ == spec_uuid_or_zero(s.agent_id_text@)
}

fn text_field<F: Fn(u64) -> String>(m: &OsdMap<OSD>, k: &str, real_text: &F) -> (r: String)
    requires
        spec_real_formatter(*real_text),
    ensures
        r@ == spec_text_field(*m, k@, *real_text),
{
    match m.get(k) {
        Some(v) => match v.as_string(real_text) {
            Some(t) => t,
            None => String::new(),
        },
        None => String::new(),
    }
}

fn int_field(m: &OsdMap<OSD>, k: &str) -> (r: i32)
    ensures
        r == spec_int_field(*m, k@),
{
    match m.get(k) {
        Some(v) => match v.as_integer() {
            Some(i) => i,
            None => 0,
        },
        None => 0,
    }
}

fn uuid_or_zero(t: &str) -> (r: UUID)
    ensures
        r.0@ == spec_uuid_or_zero(t@),
{
    match UUID::parse(t) {
        Ok(u) => u,
        Err(_) => UUID::default(),
    }
}

/// Reads the login service's response. Not a map: "Invalid login response
/// format". No boolean `login`: "Invalid login response". `login` false:
/// the `message` text, or "Login failed". Otherwise the session it grants;
/// reals are written by `real_text`.
pub fn interpret_login_response<F: Fn(u64) -> String>(response: &OSD, real_text: &F) -> (r: Result<LoginSession, String>)
    requires
        spec_real_formatter(*real_text),
    ensures
        match *response {
            OSD::Dict(m) => match spec_field(m, "login"@) {
                Some(v) => match spec_as_boolean(v) {
                    Some(true) => r is Ok && spec_session_of(m, *real_text, r->Ok_0),
                    Some(false) => r is Err && r->Err_0@ == (match spec_field(m, "message"@) {
                        Some(msg) => match spec_as_string(msg, *real_text) {
                            Some(t) => t,
                            None => "Login failed"@,
                        },
                        None => "Login failed"@,
                    }),
                    None => r is Err && r->Err_0@ == "Invalid login response"@,
                },
                None => r is Err && r->Err_0@ == "Invalid login response"@,
            },
            _ => r is Err && r->Err_0@ == "Invalid login response format"@,
        },
{
    let m = match response.as_map() {
        Some(m) => m,
        None => {
            return Err("Invalid login response format".to_string());
        },
    };
    let login_true = match m.get("login") {
        Some(v) => v.as_boolean(),
        None => None,
    };
    match login_true {
        None => {
            return Err("Invalid login response".to_string());
        },
        Some(false) => {
            let msg = match m.get("message") {
                Some(v) => v.as_string(real_text),
                None => None,
            };
            return Err(
                match msg {
                    Some(t) => t,
                    None => "Login failed".to_string(),
                },
            );
        },
        Some(true) => {},
    }
    let circuit_code = int_field(m, "circuit_code") as u32;
    let session_id_text = text_field(m, "session_id", real_text);
    let agent_id_text = text_field(m, "agent_id", real_text);
    let sim_ip = text_field(m, "sim_ip", real_text);
    let sim_port = int_field(m, "sim_port") as u16;
    let seed_capability = text_field(m, "seed_capability", real_text);
    let session_id = uuid_or_zero(session_id_text.as_str());
    let agent_id = uuid_or_zero(agent_id_text.as_str());
    Ok(LoginSession {
        circuit_code,
        session_id,
        agent_id,
        session_id_text,
        agent_id_text,
        sim_ip,
        sim_port,
        seed_capability,
    })
}

/// How many times `UseCircuitCode` is sent again after the first try.
pub const USE_CIRCUIT_CODE_RETRIES: usize = 3;

/// What happened while waiting for the acknowledgement of `UseCircuitCode`.
#[derive(Debug, Clone, Copy, PartialEq, Eq, Structural)]
pub enum CircuitEvent {
    /// The simulator acknowledged it.
    Acked,
    /// The acknowledgement can no longer arrive.
    Closed,
    /// The wait timed out.
    TimedOut,
}

/// What to do next while establishing the circuit.
#[derive(Debug, Clone, Copy, PartialEq, Eq, Structural)]
pub enum CircuitAction {
    /// Send `UseCircuitCode` again, marked as resent, as attempt `attempt`.
    Resend(usize),
    /// The circuit is confirmed: send `CompleteAgentMovement`.
    Confirmed,
    /// Give up.
    Failed,
}

/// The step after attempt `attempt` (from 0) ended with `event`: an
/// acknowledgement confirms; a closed wait fails; a timeout resends until
/// the retries are spent, then fails.
pub open spec fn spec_circuit_step(attempt: nat, event: CircuitEvent) -> CircuitAction {
    match event {
        CircuitEvent::Acked => CircuitAction::Confirmed,
        CircuitEvent::Closed => CircuitAction::Failed,
        CircuitEvent::TimedOut => if attempt < USE_CIRCUIT_CODE_RETRIES {
            CircuitAction::Resend((attempt + 1) as usize)
        } else {
            CircuitAction::Failed
        },
    }
}

/// Decides what follows attempt `attempt` of `UseCircuitCode`.
pub fn use_circuit_code_step(attempt: usize, event: CircuitEvent) -> (r: CircuitAction)
    requires
        attempt <= USE_CIRCUIT_CODE_RETRIES,
    ensures
        r == spec_circuit_step(attempt as nat, event),
{
    match event {
        CircuitEvent::Acked => CircuitAction::Confirmed,
        CircuitEvent::Closed => CircuitAction::Failed,
        CircuitEvent::TimedOut => if attempt < USE_CIRCUIT_CODE_RETRIES {
            CircuitAction::Resend(attempt + 1)
        } else {
            CircuitAction::Failed
        },
    }
}

/// Feeds `events` to the steps from attempt `attempt` on: the number of
/// `UseCircuitCode` messages sent in all and whether the circuit was
/// confirmed, or `None` when the events ran out first.
pub open spec fn spec_circuit_run(attempt: nat, events: Seq<CircuitEvent>) -> Option<(nat, bool)>
    decreases events.len(),
{
    if events.len() == 0 {
        None
    } else {
        match spec_circuit_step(attempt, events[0]) {
            CircuitAction::Resend(next) => spec_circuit_run(next as nat, events.drop_first()),
            CircuitAction::Confirmed => Some((attempt + 1, true)),
            CircuitAction::Failed => Some((attempt + 1, false)),
        }
    }
}

/// `UseCircuitCode` (Low 3, reliable) for attempt `attempt`, opening
/// circuit `code` for the agent `agent_id` in session `session_id`: every
/// attempt after the first is marked as resent.
pub fn use_circuit_code(sequence: u32, attempt: usize, code: u32, session_id: UUID, agent_id: UUID) -> (p:
    UseCircuitCodePacket)
    ensures
        p.header.frequency == PacketFrequency::Low && p.header.id == 3 && p.header.reliable,
        p.header.sequence == sequence,
        p.header.resent == (attempt > 0),
        !p.header.zerocoded && !p.header.appended_acks && p.header.acks@ == Seq::<u32>::empty(),
        p.circuit_code == (UseCircuitCodeCircuitCodeBlock { code, session_i_d: session_id, i_d: agent_id }),
{
    let mut header = message_header(PacketFrequency::Low, 3, true, sequence);
    header.resent = attempt > 0;
    UseCircuitCodePacket {
        header,
        circuit_code: UseCircuitCodeCircuitCodeBlock { code, session_i_d: session_id, i_d: agent_id },
    }
}

/// `CompleteAgentMovement` (Low 249, reliable), sent once the circuit is
/// confirmed.
pub fn complete_agent_movement(sequence: u32, agent_id: UUID, session_id: UUID, circuit_code: u32) -> (p:
    CompleteAgentMovementPacket)
    ensures
        spec_plain_header(p.header, PacketFrequency::Low, 249, true, sequence),
        p.agent_data == (AgentCircuitBlock { agent_i_d: agent_id, session_i_d: session_id, circuit_code }),
{
    CompleteAgentMovementPacket {
        header: message_header(PacketFrequency::Low, 249, true, sequence),
        agent_data: AgentCircuitBlock { agent_i_d: agent_id, session_i_d: session_id, circuit_code },
    }
}

/// `RegionHandshakeReply` (Low 149, reliable) with no flags.
pub fn region_handshake_reply(sequence: u32, agent_id: UUID, session_id: UUID) -> (p: RegionHandshakeReplyPacket)
    ensures
        spec_plain_header(p.header, PacketFrequency::Low, 149, true, sequence),
        p.agent_data == (AgentSessionBlock { agent_i_d: agent_id, session_i_d: session_id }),
        p.flags == 0,
{
    RegionHandshakeReplyPacket {
        header: message_header(PacketFrequency::Low, 149, true, sequence),
        agent_data: AgentSessionBlock { agent_i_d: agent_id, session_i_d: session_id },
        flags: 0,
    }
}

/// `AgentHeightWidth` (Low 83, reliable) announcing the standard height
/// and width, generation 0.
pub fn agent_height_width(sequence: u32, agent_id: UUID, session_id: UUID, circuit_code: u32) -> (p:
    AgentHeightWidthPacket)
    ensures
        spec_plain_header(p.header, PacketFrequency::Low, 83, true, sequence),
        p.agent_data == (AgentCircuitBlock { agent_i_d: agent_id, session_i_d: session_id, circuit_code }),
        p.height_width_block == (AgentHeightWidthHeightWidthBlock {
            gen_counter: 0,
            height: STANDARD_HEIGHT,
            width: STANDARD_WIDTH,
        }),
{
    AgentHeightWidthPacket {
        header: message_header(PacketFrequency::Low, 83, true, sequence),
        agent_data: AgentCircuitBlock { agent_i_d: agent_id, session_i_d: session_id, circuit_code },
        height_width_block: AgentHeightWidthHeightWidthBlock {
            gen_counter: 0,
            height: STANDARD_HEIGHT,
            width: STANDARD_WIDTH,
        },
    }
}

/// Why logging in failed when the circuit was not confirmed.
pub fn circuit_failure_message() -> (r: String)
    ensures
        r@ == "The simulator did not acknowledge UseCircuitCode after 4 attempts."@,
{
    "The simulator did not acknowledge UseCircuitCode after 4 attempts.".to_string()
}

/// Law: starting from attempt `attempt`, whatever happens while waiting,
/// no more than four `UseCircuitCode` messages are sent in all; the circuit
/// counts as confirmed only when the wait after the last of them was
/// acknowledged; and four timeouts in a row end the login.
pub proof fn lemma_use_circuit_code_attempts(attempt: nat, events: Seq<CircuitEvent>)
    requires
        attempt <= USE_CIRCUIT_CODE_RETRIES,
    ensures
        spec_circuit_run(attempt, events) matches Some((sends, confirmed)) ==> {
            &&& attempt < sends <= USE_CIRCUIT_CODE_RETRIES + 1
            &&& sends - attempt <= events.len()
            &&& confirmed <==> events[sends - attempt - 1] == CircuitEvent::Acked
        },
        attempt == 0 && events.len() >= 4 && (forall|i: int| 0 <= i < 4 ==> events[i] == CircuitEvent::TimedOut)
            ==> spec_circuit_run(attempt, events) == Some((4nat, false)),
    decreases events.len(),
{
    if events.len() > 0 {
        match spec_circuit_step(attempt, events[0]) {
            CircuitAction::Resend(next) => {
                lemma_use_circuit_code_attempts(next as nat, events.drop_first());
                assert forall|i: int| 0 <= i < events.len() - 1 implies events.drop_first()[i] == events[i + 1] by {}
                if attempt == 0 && events.len() >= 4 && (forall|i: int| 0 <= i < 4 ==> events[i] == CircuitEvent::TimedOut) {
                    let e1 = events.drop_first();
                    let e2 = e1.drop_first();
                    let e3 = e2.drop_first();
                    assert(e1[0] == events[1]);
                    assert(e2[0] == events[2]);
                    assert(e3[0] == events[3]);
                    assert(spec_circuit_run(3, e3) == Some((4nat, false)));
                    assert(spec_circuit_run(2, e2) == Some((4nat, false)));
                }
            },
            _ => {},
        }
    }
}

} // verus!
