use avail_light_core::network::configuration::{
    AutoNATConfig, KademliaConfig, KademliaMode, LibP2PConfig,
};
use avail_light_core::network::peer_info::BOOTSTRAP_LIST_EMPTY_MESSAGE;
use avail_light_core::network::swarm::{
    generate_config, names_protocol, plan_swarm, protocol_name, protocol_text, Transport,
};
use libp2p::futures::future::poll_fn;
use libp2p::futures::task::noop_waker_ref;
use libp2p::futures::{AsyncRead, AsyncWrite, Future, Stream};
use libp2p::swarm::{dummy, Config, Swarm, SwarmEvent};
use libp2p::{Multiaddr, PeerId};
use std::io;
use std::pin::Pin;
use std::sync::atomic::{AtomicUsize, Ordering};
use std::sync::Arc;
use std::task::{Context, Poll};
use std::time::Duration;

const GENESIS_HASH: &str = "0xb91746b45e0346cc2f815a520b9c6cb4d5c0902af848db0a80f85932d2e8276a";

fn config(ws_transport_enable: bool, operation_mode: KademliaMode) -> LibP2PConfig {
    LibP2PConfig {
        secret_key: None,
        autonat: AutoNATConfig {
            autonat_retry_interval: Duration::from_secs(20),
            autonat_refresh_interval: Duration::from_secs(360),
            autonat_boot_delay: Duration::from_secs(5),
            autonat_throttle: Duration::from_secs(1),
            autonat_only_global_ips: true,
        },
        kademlia: KademliaConfig { kad_record_ttl: Duration::from_secs(86400), operation_mode },
        connection_idle_timeout: Duration::from_secs(30),
        max_negotiating_inbound_streams: 128,
        task_command_buffer_size: 32,
        per_connection_event_buffer_size: 7,
        dial_concurrency_factor: 5,
        ws_transport_enable,
        dht_parallelization_limit: 20,
    }
}

#[test]
fn protocol_carries_the_first_bytes_of_the_genesis_hash() {
    assert!(names_protocol(GENESIS_HASH));
    assert_eq!(protocol_text(GENESIS_HASH), "/avail_kad/id/1.0.0-b91746");
    assert_eq!(protocol_name(GENESIS_HASH).as_ref(), "/avail_kad/id/1.0.0-b91746");
}

#[test]
fn hash_gives_the_same_protocol_without_its_prefix() {
    assert_eq!(protocol_text("b91746b45e"), protocol_text("0xb91746b45e"));
    assert_eq!(protocol_text("0x0xb91746b45e"), protocol_text("b91746b45e"));
    assert_eq!(protocol_name("b91746b45e"), protocol_name("0xb91746b45e"));
}

#[test]
fn short_hashes_are_not_cut() {
    assert_eq!(protocol_text(""), "/avail_kad/id/1.0.0-");
    assert_eq!(protocol_text("0x"), "/avail_kad/id/1.0.0-");
    assert_eq!(protocol_text("0xabc"), "/avail_kad/id/1.0.0-abc");
    assert_eq!(protocol_text("DEV"), "/avail_kad/id/1.0.0-DEV");
    assert_eq!(protocol_text("123456"), "/avail_kad/id/1.0.0-123456");
    assert_eq!(protocol_text("1234567"), "/avail_kad/id/1.0.0-123456");
}

#[test]
fn prefix_counts_only_at_the_beginning() {
    assert_eq!(protocol_text("ab0xcd"), "/avail_kad/id/1.0.0-ab0xcd");
    assert_eq!(protocol_text("0Xab"), "/avail_kad/id/1.0.0-0Xab");
    assert_eq!(protocol_text("x0ab"), "/avail_kad/id/1.0.0-x0ab");
}

#[test]
fn hash_is_cut_between_characters_only() {
    assert!(names_protocol("abcd\u{e9}f"));
    assert_eq!(protocol_text("abcd\u{e9}f"), "/avail_kad/id/1.0.0-abcd\u{e9}");
    assert!(!names_protocol("abcde\u{e9}"));
    assert!(names_protocol("\u{4e2d}\u{6587}"));
    assert!(!names_protocol("0xabcde\u{e9}"));
}

#[test]
fn swarm_is_planned_over_tcp() {
    let plan = plan_swarm(&config(false, KademliaMode::Client), "1.12.4", GENESIS_HASH);
    assert_eq!(plan.identify_protocol, "/avail/light/1.0.0");
    assert_eq!(plan.agent_version, "avail-light-client/light-client/1.12.4/rust-client");
    assert_eq!(plan.kad_protocol.as_ref(), "/avail_kad/id/1.0.0-b91746");
    assert_eq!(plan.operation_mode, KademliaMode::Client);
    assert_eq!(plan.transport, Transport::Tcp { port_reuse: false, nodelay: false });
    assert_eq!(plan.autonat.autonat_retry_interval, Duration::from_secs(20));
    assert_eq!(plan.autonat.autonat_refresh_interval, Duration::from_secs(360));
    assert_eq!(plan.autonat.autonat_boot_delay, Duration::from_secs(5));
    assert_eq!(plan.autonat.autonat_throttle, Duration::from_secs(1));
    assert!(plan.autonat.autonat_only_global_ips);
}

#[test]
fn swarm_is_planned_over_websocket() {
    let plan = plan_swarm(&config(true, KademliaMode::Server), "1.12.4", "DEV");
    assert_eq!(plan.operation_mode, KademliaMode::Server);
    assert_eq!(plan.transport, Transport::WebSocket);
    assert_eq!(plan.kad_protocol.as_ref(), "/avail_kad/id/1.0.0-DEV");
}

/// A stream on which nothing is ever said.
struct SilentStream;

impl AsyncRead for SilentStream {
    fn poll_read(self: Pin<&mut Self>, _: &mut Context<'_>, _: &mut [u8]) -> Poll<io::Result<usize>> {
        Poll::Pending
    }
}

impl AsyncWrite for SilentStream {
    fn poll_write(self: Pin<&mut Self>, _: &mut Context<'_>, _: &[u8]) -> Poll<io::Result<usize>> {
        Poll::Pending
    }

    fn poll_flush(self: Pin<&mut Self>, _: &mut Context<'_>) -> Poll<io::Result<()>> {
        Poll::Ready(Ok(()))
    }

    fn poll_close(self: Pin<&mut Self>, _: &mut Context<'_>) -> Poll<io::Result<()>> {
        Poll::Ready(Ok(()))
    }
}

/// What a remote does: it answers the dials to it or leaves them open, and opens streams, either
/// none or one after another.
#[derive(Clone, Default)]
struct Remote {
    peer: Option<PeerId>,
    opens_streams: bool,
    dials: Arc<AtomicUsize>,
    streams: Arc<AtomicUsize>,
}

impl libp2p::core::muxing::StreamMuxer for Remote {
    type Substream = SilentStream;
    type Error = io::Error;

    fn poll_inbound(self: Pin<&mut Self>, _: &mut Context<'_>) -> Poll<io::Result<SilentStream>> {
        if self.opens_streams {
            self.streams.fetch_add(1, Ordering::SeqCst);
            Poll::Ready(Ok(SilentStream))
        } else {
            Poll::Pending
        }
    }

    fn poll_outbound(self: Pin<&mut Self>, _: &mut Context<'_>) -> Poll<io::Result<SilentStream>> {
        Poll::Pending
    }

    fn poll_close(self: Pin<&mut Self>, _: &mut Context<'_>) -> Poll<io::Result<()>> {
        Poll::Ready(Ok(()))
    }

    fn poll(self: Pin<&mut Self>, _: &mut Context<'_>) -> Poll<io::Result<libp2p::core::muxing::StreamMuxerEvent>> {
        Poll::Pending
    }
}

type Dial = Pin<Box<dyn Future<Output = io::Result<(PeerId, libp2p::core::muxing::StreamMuxerBox)>> + Send>>;

impl libp2p::Transport for Remote {
    type Output = (PeerId, libp2p::core::muxing::StreamMuxerBox);
    type Error = io::Error;
    type ListenerUpgrade = Dial;
    type Dial = Dial;

    fn listen_on(&mut self, _: libp2p::core::transport::ListenerId, addr: Multiaddr) -> Result<(), libp2p::core::transport::TransportError<io::Error>> {
        Err(libp2p::core::transport::TransportError::MultiaddrNotSupported(addr))
    }

    fn remove_listener(&mut self, _: libp2p::core::transport::ListenerId) -> bool {
        false
    }

    fn dial(&mut self, _: Multiaddr, _: libp2p::core::transport::DialOpts) -> Result<Dial, libp2p::core::transport::TransportError<io::Error>> {
        let remote = self.clone();
        Ok(Box::pin(poll_fn(move |_| {
            remote.dials.fetch_add(1, Ordering::SeqCst);
            match remote.peer {
                Some(peer) => Poll::Ready(Ok((peer, libp2p::core::muxing::StreamMuxerBox::new(remote.clone())))),
                None => Poll::Pending,
            }
        })))
    }

    fn poll(
        self: Pin<&mut Self>,
        _: &mut Context<'_>,
    ) -> Poll<libp2p::core::transport::TransportEvent<Dial, io::Error>> {
        Poll::Pending
    }
}

/// What a swarm makes of a remote that it dials under five addresses: whether there was a
/// connection, and whether it was closed.
fn dialed(remote: &Remote, config: Config) -> (bool, bool) {
    let transport = libp2p::Transport::boxed(remote.clone());
    let mut swarm = Swarm::new(transport, dummy::Behaviour, PeerId::random(), config);
    let addresses: Vec<Multiaddr> =
        (1..=5u16).map(|port| format!("/ip4/127.0.0.1/tcp/{port}").parse().unwrap()).collect();
    let peer = remote.peer.unwrap_or_else(PeerId::random);
    let opts = libp2p::swarm::dial_opts::DialOpts::peer_id(peer).addresses(addresses).build();
    swarm.dial(opts).unwrap();
    let (mut established, mut closed) = (false, false);
    let mut context = Context::from_waker(noop_waker_ref());
    for _ in 0..1000 {
        match Stream::poll_next(Pin::new(&mut swarm), &mut context) {
            Poll::Ready(Some(SwarmEvent::ConnectionEstablished { .. })) => established = true,
            Poll::Ready(Some(SwarmEvent::ConnectionClosed { .. })) => closed = true,
            _ => {},
        }
    }
    (established, closed)
}

#[test]
fn idle_connections_are_kept_as_configured() {
    let remote = Remote { peer: Some(PeerId::random()), ..Remote::default() };
    let mut cfg = config(false, KademliaMode::Client);
    cfg.connection_idle_timeout = Duration::from_secs(3600);
    let kept = generate_config(Config::without_executor(), &cfg);
    assert_eq!(dialed(&remote, kept), (true, false));
    cfg.connection_idle_timeout = Duration::ZERO;
    let given_up = generate_config(Config::without_executor(), &cfg);
    assert_eq!(dialed(&remote, given_up), (true, true));
}

#[test]
fn inbound_streams_are_negotiated_as_configured() {
    for streams in [1usize, 3, 40] {
        let remote =
            Remote { peer: Some(PeerId::random()), opens_streams: true, ..Remote::default() };
        let mut cfg = config(false, KademliaMode::Client);
        cfg.max_negotiating_inbound_streams = streams;
        let limited = generate_config(Config::without_executor(), &cfg);
        assert_eq!(dialed(&remote, limited), (true, false));
        assert_eq!(remote.streams.load(Ordering::SeqCst), streams);
    }
}

#[test]
fn addresses_are_dialed_as_configured() {
    for factor in [1u8, 2, 4] {
        let remote = Remote::default();
        let mut cfg = config(false, KademliaMode::Client);
        cfg.dial_concurrency_factor = factor;
        let limited = generate_config(Config::without_executor(), &cfg);
        assert_eq!(dialed(&remote, limited), (false, false));
        assert_eq!(remote.dials.load(Ordering::SeqCst), factor as usize);
    }
}

#[test]
fn empty_bootstrap_list_is_explained_in_two_lines() {
    assert_eq!(
        BOOTSTRAP_LIST_EMPTY_MESSAGE,
        "\nBootstrap node list must not be empty.\nEither use a '--network' flag or add a list of bootstrap nodes in the configuration file.\n"
    );
}
