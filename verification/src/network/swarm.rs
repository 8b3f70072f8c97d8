//! What the swarm of a node is built from.

use super::agent::{
    agent_text, AgentVersion, IDENTITY_AGENT_BASE, IDENTITY_AGENT_CLIENT_TYPE,
    IDENTITY_AGENT_ROLE, IDENTITY_PROTOCOL,
};
use super::configuration::{AutoNATConfig, KademliaMode, LibP2PConfig};
use libp2p::swarm::{Config, InvalidProtocol};
use libp2p::StreamProtocol;
use std::time::Duration;
use vstd::prelude::*;
use vstd::string::*;
use vstd::utf8::{
    decode_utf8, decode_utf8_encode_utf8, encode_utf8, encode_utf8_decode_utf8,
    encode_utf8_valid_utf8, is_ascii_chars, is_ascii_chars_encode_utf8, is_char_boundary,
    is_char_boundary_iff_not_is_continuation_byte, valid_utf8_split,
};

verus! {

/// The configuration of a swarm, as `libp2p` defines it.
#[verifier::external_type_specification]
#[verifier::external_body]
pub struct ExConfig(libp2p::swarm::Config);

/// The name of a protocol, as `libp2p` defines it.
#[verifier::external_type_specification]
#[verifier::external_body]
pub struct ExStreamProtocol(libp2p::StreamProtocol);

/// What `libp2p` says of a text that names no protocol.
#[verifier::external_type_specification]
#[verifier::external_body]
pub struct ExInvalidProtocol(libp2p::swarm::InvalidProtocol);

/// The name that the protocols of the DHT begin with.
pub const KADEMLIA_PROTOCOL_BASE: &'static str = "/avail_kad/id/1.0.0";

/// The number of bytes of the genesis hash that go into the name of a protocol.
pub const GENESIS_HASH_BYTES: usize = 6;

/// The number of events that the node keeps for those who listen to it.
pub const EVENT_CHANNEL_CAPACITY: usize = 1000;

/// `text` without the `0x` that it begins with, however often.
pub open spec fn trimmed(text: Seq<char>) -> Seq<char>
    decreases text.len(),
{
    if text.len() >= 2 && text[0] == '0' && text[1] == 'x' {
        trimmed(text.skip(2))
    } else {
        text
    }
}

/// Whether `text` can be cut behind its first bytes: they end where a character ends.
pub open spec fn can_shorten(text: Seq<char>) -> bool {
    encode_utf8(text).len() > GENESIS_HASH_BYTES ==> is_char_boundary(
        encode_utf8(text),
        GENESIS_HASH_BYTES as int,
    )
}

/// The first bytes of `text`, or all of it if it has no more.
pub open spec fn shortened(text: Seq<char>) -> Seq<char> {
    if encode_utf8(text).len() > GENESIS_HASH_BYTES {
        decode_utf8(encode_utf8(text).take(GENESIS_HASH_BYTES as int))
    } else {
        text
    }
}

/// The name of the DHT protocol of the chain with the genesis hash `genesis_hash`.
pub open spec fn kademlia_protocol(genesis_hash: Seq<char>) -> Seq<char> {
    KADEMLIA_PROTOCOL_BASE@.push('-') + shortened(trimmed(genesis_hash))
}

/// The protocol with the name `name`.
pub uninterp spec fn stream_protocol(name: Seq<char>) -> StreamProtocol;

/// Calls `libp2p::StreamProtocol::try_from_owned`, which takes any text that begins with a slash
/// and no other. The protocol is `stream_protocol` of the text.
#[verifier::external_body]
fn protocol_named(name: String) -> (protocol: Result<StreamProtocol, InvalidProtocol>)
    ensures
        match protocol {
            Ok(protocol) => name@.len() > 0 && name@[0] == '/' && protocol == stream_protocol(name@),
            Err(_) => !(name@.len() > 0 && name@[0] == '/'),
        },
{
    StreamProtocol::try_from_owned(name)
}

/// `text` without the `0x` that it begins with, however often.
fn trim_start(text: &str) -> (rest: &str)
    ensures
        rest@ == trimmed(text@),
{
    let len = text.unicode_len();
    let mut start: usize = 0;
    assert(text@.skip(0) =~= text@);
    while len - start >= 2 && text.get_char(start) == '0' && text.get_char(start + 1) == 'x'
        invariant
            len == text@.len(),
            start <= len,
            trimmed(text@.skip(start as int)) == trimmed(text@),
        ensures
            start <= len,
            trimmed(text@) == text@.skip(start as int),
        decreases len - start,
    {
        assert(text@.skip(start as int).skip(2) =~= text@.skip(start + 2));
        start = start + 2;
    }
    text.substring_char(start, len)
}

/// The first bytes of `text`, or all of it if it has no more.
fn shorten(text: &str) -> (short: &str)
    requires
        can_shorten(text@),
    ensures
        short@ == shortened(text@),
{
    if text.as_bytes().len() > GENESIS_HASH_BYTES {
        let (short, _) = text.split_at(GENESIS_HASH_BYTES);
        proof {
            encode_utf8_decode_utf8(short@);
        }
        short
    } else {
        text
    }
}

/// Whether the genesis hash can be cut where the name of a protocol cuts it.
pub fn names_protocol(genesis_hash: &str) -> (names: bool)
    ensures
        names == can_shorten(trimmed(genesis_hash@)),
{
    let hash = trim_start(genesis_hash);
    hash.as_bytes().len() <= GENESIS_HASH_BYTES || hash.is_char_boundary(GENESIS_HASH_BYTES)
}

/// The name of the DHT protocol of the chain with the genesis hash `genesis_hash`.
pub fn protocol_text(genesis_hash: &str) -> (name: String)
    requires
        can_shorten(trimmed(genesis_hash@)),
    ensures
        name@ == kademlia_protocol(genesis_hash@),
{
    proof {
        reveal_strlit("-");
    }
    let gen_hash = shorten(trim_start(genesis_hash));
    let mut name = KADEMLIA_PROTOCOL_BASE.to_owned();
    name.append("-");
    name.append(gen_hash);
    assert(name@ =~= kademlia_protocol(genesis_hash@));
    name
}

/// The DHT protocol of the chain with the genesis hash `genesis_hash`.
pub fn protocol_name(genesis_hash: &str) -> (protocol: StreamProtocol)
    requires
        can_shorten(trimmed(genesis_hash@)),
    ensures
        protocol == stream_protocol(kademlia_protocol(genesis_hash@)),
{
    let name = protocol_text(genesis_hash);
    proof {
        reveal_strlit("/avail_kad/id/1.0.0");
        assert(name@[0] == '/');
    }
    protocol_named(name).unwrap()
}

/// Of an ASCII genesis hash, the first characters go into the name of the protocol.
pub proof fn law_ascii_hash_is_cut_at_characters(genesis_hash: Seq<char>)
    requires
        is_ascii_chars(genesis_hash),
    ensures
        can_shorten(trimmed(genesis_hash)),
        trimmed(genesis_hash).len() > GENESIS_HASH_BYTES ==> shortened(trimmed(genesis_hash))
            == trimmed(genesis_hash).take(GENESIS_HASH_BYTES as int),
        trimmed(genesis_hash).len() <= GENESIS_HASH_BYTES ==> shortened(trimmed(genesis_hash))
            == trimmed(genesis_hash),
{
    lemma_trimmed_ascii(genesis_hash);
    let text = trimmed(genesis_hash);
    let bytes = encode_utf8(text);
    is_ascii_chars_encode_utf8(text);
    encode_utf8_valid_utf8(text);
    if text.len() > GENESIS_HASH_BYTES {
        let short = text.take(GENESIS_HASH_BYTES as int);
        is_ascii_chars_encode_utf8(short);
        assert(encode_utf8(short) =~= bytes.take(GENESIS_HASH_BYTES as int));
        encode_utf8_decode_utf8(short);
        is_char_boundary_iff_not_is_continuation_byte(bytes, GENESIS_HASH_BYTES as int);
    }
}

/// What is left of an ASCII text is ASCII.
proof fn lemma_trimmed_ascii(text: Seq<char>)
    requires
        is_ascii_chars(text),
    ensures
        is_ascii_chars(trimmed(text)),
    decreases text.len(),
{
    if text.len() >= 2 && text[0] == '0' && text[1] == 'x' {
        lemma_trimmed_ascii(text.skip(2));
    }
}

/// A genesis hash gives the same protocol with the `0x` in front of it and without.
pub proof fn law_prefix_makes_no_difference(genesis_hash: Seq<char>)
    ensures
        kademlia_protocol(seq!['0', 'x'] + genesis_hash) == kademlia_protocol(genesis_hash),
{
    assert((seq!['0', 'x'] + genesis_hash).skip(2) =~= genesis_hash);
}

/// `config` with the time for which an idle connection is kept.
pub uninterp spec fn with_idle_timeout(config: Config, timeout: Duration) -> Config;

/// `config` with the number of inbound streams that may be negotiated at a time.
pub uninterp spec fn with_inbound_streams(config: Config, streams: usize) -> Config;

/// `config` with the number of events that may wait for a connection.
pub uninterp spec fn with_handler_buffer(config: Config, events: usize) -> Config;

/// `config` with the number of addresses that are dialed at a time.
pub uninterp spec fn with_dial_factor(config: Config, factor: u8) -> Config;

/// `config` with the number of events that may wait from a connection.
pub uninterp spec fn with_event_buffer(config: Config, events: usize) -> Config;

/// `libp2p::swarm::Config::with_idle_connection_timeout`, which hands the configuration back with
/// another time for which an idle connection is kept. The result is `with_idle_timeout` of the two.
pub assume_specification[ Config::with_idle_connection_timeout ](
    config: Config,
    timeout: Duration,
) -> (changed: Config)
    ensures
        changed == with_idle_timeout(config, timeout),
;

/// `libp2p::swarm::Config::with_max_negotiating_inbound_streams`, which hands the configuration back
/// with another limit on the inbound streams that are negotiated at a time. The result is
/// `with_inbound_streams` of the two.
pub assume_specification[ Config::with_max_negotiating_inbound_streams ](
    config: Config,
    v: usize,
) -> (changed: Config)
    ensures
        changed == with_inbound_streams(config, v),
;

/// `libp2p::swarm::Config::with_per_connection_event_buffer_size`, which hands the configuration back
/// with another size of the buffer for events from a connection. The result is `with_event_buffer`
/// of the two.
pub assume_specification[ Config::with_per_connection_event_buffer_size ](
    config: Config,
    n: usize,
) -> (changed: Config)
    ensures
        changed == with_event_buffer(config, n),
;

/// Calls `libp2p::swarm::Config::with_notify_handler_buffer_size`, which takes a number other than
/// zero and hands the configuration back with another size of the buffer for events to a connection.
/// The result is `with_handler_buffer` of the two.
#[verifier::external_body]
fn set_handler_buffer(config: Config, events: usize) -> (changed: Config)
    requires
        events > 0,
    ensures
        changed == with_handler_buffer(config, events),
{
    config.with_notify_handler_buffer_size(std::num::NonZeroUsize::new(events).unwrap())
}

/// Calls `libp2p::swarm::Config::with_dial_concurrency_factor`, which takes a number other than zero
/// and hands the configuration back with another number of addresses that are dialed at a time. The
/// result is `with_dial_factor` of the two.
#[verifier::external_body]
fn set_dial_factor(config: Config, factor: u8) -> (changed: Config)
    requires
        factor > 0,
    ensures
        changed == with_dial_factor(config, factor),
{
    config.with_dial_concurrency_factor(std::num::NonZeroU8::new(factor).unwrap())
}

/// Sets what the configuration of the node says of its connections.
pub fn generate_config(config: Config, cfg: &LibP2PConfig) -> (changed: Config)
    requires
        cfg.valid(),
    ensures
        changed == with_event_buffer(
            with_dial_factor(
                with_handler_buffer(
                    with_inbound_streams(
                        with_idle_timeout(config, cfg.connection_idle_timeout),
                        cfg.max_negotiating_inbound_streams,
                    ),
                    cfg.task_command_buffer_size,
                ),
                cfg.dial_concurrency_factor,
            ),
            cfg.per_connection_event_buffer_size,
        ),
{
    let config = config.with_idle_connection_timeout(
        cfg.connection_idle_timeout,
    ).with_max_negotiating_inbound_streams(cfg.max_negotiating_inbound_streams);
    let config = set_handler_buffer(config, cfg.task_command_buffer_size);
    let config = set_dial_factor(config, cfg.dial_concurrency_factor);
    config.with_per_connection_event_buffer_size(cfg.per_connection_event_buffer_size)
}

/// What a node talks over.
#[derive(Debug, Clone, Copy, PartialEq, Eq, Structural)]
pub enum Transport {
    /// WebSocket.
    WebSocket,
    /// TCP, with WebRTC beside it and names resolved by DNS.
    Tcp {
        /// Whether the port of a listener is used to dial from.
        port_reuse: bool,
        /// Whether data are sent at once.
        nodelay: bool,
    },
}

/// What a swarm is built from.
pub struct SwarmPlan {
    /// The protocol under which the node identifies itself.
    pub identify_protocol: String,
    /// The agent version by which it does so.
    pub agent_version: String,
    /// The DHT protocol of the chain.
    pub kad_protocol: StreamProtocol,
    /// The part of the node in the DHT, which does not change while it runs.
    pub operation_mode: KademliaMode,
    pub autonat: AutoNATConfig,
    pub transport: Transport,
}

/// Plans the swarm of a node at the release `version`, on the chain with the genesis hash
/// `genesis_hash`.
pub fn plan_swarm(cfg: &LibP2PConfig, version: &str, genesis_hash: &str) -> (plan: SwarmPlan)
    requires
        can_shorten(trimmed(genesis_hash@)),
    ensures
        plan.identify_protocol@ == IDENTITY_PROTOCOL@,
        plan.agent_version@ == agent_text(
            IDENTITY_AGENT_BASE@,
            IDENTITY_AGENT_ROLE@,
            version@,
            IDENTITY_AGENT_CLIENT_TYPE@,
        ),
        plan.kad_protocol == stream_protocol(kademlia_protocol(genesis_hash@)),
        plan.operation_mode == cfg.kademlia.operation_mode,
        plan.autonat == cfg.autonat,
        plan.transport == if cfg.ws_transport_enable {
            Transport::WebSocket
        } else {
            Transport::Tcp { port_reuse: false, nodelay: false }
        },
{
    SwarmPlan {
        identify_protocol: IDENTITY_PROTOCOL.to_owned(),
        agent_version: AgentVersion::new(version).to_string(),
        kad_protocol: protocol_name(genesis_hash),
        operation_mode: cfg.kademlia.operation_mode,
        autonat: cfg.autonat,
        transport: if cfg.ws_transport_enable {
            Transport::WebSocket
        } else {
            Transport::Tcp { port_reuse: false, nodelay: false }
        },
    }
}

/// Trimming takes away every `0x` that a text begins with, and nothing else.
pub proof fn law_trimming_takes_prefixes_only(text: Seq<char>)
    ensures
        !(text.len() >= 2 && text[0] == '0' && text[1] == 'x') ==> trimmed(text) == text,
        trimmed(seq!['0', 'x'] + text) == trimmed(text),
        !(trimmed(text).len() >= 2 && trimmed(text)[0] == '0' && trimmed(text)[1] == 'x'),
    decreases text.len(),
{
    assert((seq!['0', 'x'] + text).skip(2) =~= text);
    if text.len() >= 2 && text[0] == '0' && text[1] == 'x' {
        law_trimming_takes_prefixes_only(text.skip(2));
    }
}

/// A text can be shortened if it has no more than six bytes, or if its sixth byte is the last one of
/// a character. It is then left with its first six bytes, or with all of them if it has no more.
pub proof fn law_six_bytes_are_left(text: Seq<char>)
    ensures
        can_shorten(text) <==> encode_utf8(text).len() <= 6 || is_char_boundary(
            encode_utf8(text),
            6,
        ),
        encode_utf8(text).len() <= 6 ==> shortened(text) == text,
        can_shorten(text) && encode_utf8(text).len() > 6 ==> encode_utf8(shortened(text))
            == encode_utf8(text).take(6),
{
    let bytes = encode_utf8(text);
    encode_utf8_valid_utf8(text);
    if can_shorten(text) && bytes.len() > 6 {
        valid_utf8_split(bytes, 6);
        assert(bytes.take(6) =~= bytes.subrange(0, 6));
        decode_utf8_encode_utf8(bytes.take(6));
    }
}

/// The name of the DHT protocol is that of the protocols of the DHT, a hyphen, and the first six
/// bytes of the genesis hash without its prefixes, or all of them if it has no more.
pub proof fn law_protocol_name_is_spelled_out(genesis_hash: Seq<char>)
    requires
        can_shorten(trimmed(genesis_hash)),
    ensures
        kademlia_protocol(genesis_hash).len() >= 20,
        kademlia_protocol(genesis_hash).take(20) == "/avail_kad/id/1.0.0-"@,
        encode_utf8(trimmed(genesis_hash)).len() <= 6 ==> kademlia_protocol(genesis_hash).skip(20)
            == trimmed(genesis_hash),
        encode_utf8(trimmed(genesis_hash)).len() > 6 ==> encode_utf8(
            kademlia_protocol(genesis_hash).skip(20),
        ) == encode_utf8(trimmed(genesis_hash)).take(6),
{
    reveal_strlit("/avail_kad/id/1.0.0");
    reveal_strlit("/avail_kad/id/1.0.0-");
    let short = shortened(trimmed(genesis_hash));
    law_six_bytes_are_left(trimmed(genesis_hash));
    assert(kademlia_protocol(genesis_hash).take(20) =~= "/avail_kad/id/1.0.0-"@);
    assert(kademlia_protocol(genesis_hash).skip(20) =~= short);
}

/// Chains have the same DHT protocol exactly if the first six bytes of their genesis hashes, without
/// the prefixes, are the same.
pub proof fn law_first_bytes_tell_chains_apart(genesis_hash: Seq<char>, other: Seq<char>)
    requires
        can_shorten(trimmed(genesis_hash)),
        can_shorten(trimmed(other)),
        encode_utf8(trimmed(genesis_hash)).len() >= 6,
        encode_utf8(trimmed(other)).len() >= 6,
    ensures
        kademlia_protocol(genesis_hash) == kademlia_protocol(other) <==> encode_utf8(
            trimmed(genesis_hash),
        ).take(6) == encode_utf8(trimmed(other)).take(6),
{
    let a = kademlia_protocol(genesis_hash);
    let b = kademlia_protocol(other);
    let x = encode_utf8(trimmed(genesis_hash));
    let y = encode_utf8(trimmed(other));
    law_protocol_name_is_spelled_out(genesis_hash);
    law_protocol_name_is_spelled_out(other);
    assert(x.len() == 6 ==> x.take(6) =~= x);
    assert(y.len() == 6 ==> y.take(6) =~= y);
    encode_utf8_decode_utf8(a.skip(20));
    encode_utf8_decode_utf8(b.skip(20));
    assert(a =~= a.take(20) + a.skip(20));
    assert(b =~= b.take(20) + b.skip(20));
}

} // verus!
