//! Round-trip-time measurement: wire codecs for ICMP echo and IPv4, the
//! bookkeeping of the raw-socket echo engine, the per-platform parsers of
//! `ping` output and the decisions of each probing strategy.
pub mod echo_engine;
pub mod icmp;
pub mod in_flight;
pub mod ipv4;
pub mod parse;
pub mod pinger;
pub mod region_map;
pub mod ringbuffer;
pub mod target;
pub mod text;

pub use icmp::{EchoReply, EchoRequest, IcmpError, IcmpV4, IcmpV6, Proto, ICMP_HEADER_SIZE};
pub use ipv4::{IpV4Packet, IpV4Protocol, Ipv4Error, MINIMUM_PACKET_SIZE};
pub use ringbuffer::FixedRingBuffer;
pub use region_map::try_host_from_cloud_region;
pub use in_flight::{InFlightTable, IN_FLIGHT_TO_RETAIN};
pub use echo_engine::{EchoEngine, ECHO_REQUEST_BUFFER_SIZE, TOKEN_SIZE};
pub use parse::{parse_bsd, parse_line, parse_linux, parse_windows, Dialect, LineKind, PingResult};
pub use target::{select_address, IPVersion, IpAddress, ResolveError, Target};
pub use pinger::{
    fake_switch_on, select_strategy, BSDPinger, ConnectOutcome, FakePinger, LinuxPinger,
    MacOSPinger, PingCreationError, PingOptions, Platform, StrategyKind, TcpPinger,
    WindowsPinger, DEFAULT_TCP_PORT, FAKE_MAX_MS, FAKE_MIN_MS,
};
