use crate::icmp::{decode_echo_reply, encoded_request, EchoReply, EchoRequest, IcmpV4, IcmpV6};
use crate::in_flight::{after_insert, after_remove, holds_token, token_index, InFlightTable};
use crate::ipv4::{decode_ipv4, IpV4Packet};
use vstd::prelude::*;

verus! {

/// Size of the random token that an echo request carries as its payload.
pub const TOKEN_SIZE: usize = 24;

/// Size of an echo request: header and token.
pub const ECHO_REQUEST_BUFFER_SIZE: usize = 32;

/// Relies on rand::random: a value drawn from the thread-local generator.
/// Nothing is known of the value.
pub assume_specification<T>[ rand::random::<T> ]() -> (r: T)
    where
        rand::distr::StandardUniform: rand::distr::Distribution<T>,
;

/// The echo request that carries `token`, as the engine sends it: sequence
/// number 1, in a buffer of exactly header and token.
pub open spec fn probe_packet(is_v4: bool, ident: u16, token: Seq<u8>) -> Seq<u8> {
    let blank = Seq::new(ECHO_REQUEST_BUFFER_SIZE as nat, |i: int| 0u8);
    if is_v4 {
        encoded_request::<IcmpV4>(blank, ident, 1, token)
    } else {
        encoded_request::<IcmpV6>(blank, ident, 1, token)
    }
}

/// The ICMP message inside a datagram read from a raw socket: IPv4 sockets
/// hand over the IP header too, IPv6 sockets do not.
pub open spec fn icmp_part(is_v4: bool, data: Seq<u8>) -> Option<Seq<u8>> {
    if is_v4 {
        match decode_ipv4(data) {
            Ok(p) => Some(p.1),
            Err(_) => None,
        }
    } else {
        Some(data)
    }
}

/// The token that a datagram answers: the payload of a well-formed echo reply
/// of the engine's ICMP version, if that payload has the size of a token.
pub open spec fn reply_token(is_v4: bool, data: Seq<u8>) -> Option<Seq<u8>> {
    match icmp_part(is_v4, data) {
        None => None,
        Some(m) => {
            let decoded = if is_v4 {
                decode_echo_reply::<IcmpV4>(m)
            } else {
                decode_echo_reply::<IcmpV6>(m)
            };
            match decoded {
                Ok(fields) => if fields.2.len() == TOKEN_SIZE {
                    Some(fields.2)
                } else {
                    None
                },
                Err(_) => None,
            }
        },
    }
}

/// Time from `sent` to `now`, zero if the clock reads earlier.
pub open spec fn elapsed(sent: u64, now: u64) -> u64 {
    if now >= sent {
        (now - sent) as u64
    } else {
        0
    }
}

/// The decisions of the raw-socket echo engine, apart from the socket: when
/// to send, what to send, and which datagrams answer which probe. Times are
/// nanoseconds on one monotonic clock chosen by the caller.
pub struct EchoEngine {
    is_v4: bool,
    interval: u64,
    in_flight: InFlightTable,
    last_send: Option<u64>,
}

impl EchoEngine {
    pub closed spec fn wf(&self) -> bool {
        self.in_flight.wf() && self.interval_ns() > 0
    }

    /// Whether the destination is an IPv4 address (else IPv6).
    pub closed spec fn v4(&self) -> bool {
        self.is_v4
    }

    /// Time between probes, in nanoseconds.
    pub closed spec fn interval_ns(&self) -> u64 {
        self.interval
    }

    /// The probes waiting for a reply, as the in-flight table holds them.
    pub closed spec fn waiting(&self) -> Seq<(Seq<u8>, u64)> {
        self.in_flight@
    }

    /// When the last probe went out, if one did.
    pub closed spec fn last_sent(&self) -> Option<u64> {
        self.last_send
    }

    /// An engine that has sent nothing yet.
    pub fn new(is_v4: bool, interval: u64) -> (r: Self)
        requires
            interval > 0,
        ensures
            r.wf(),
            r.v4() == is_v4,
            r.interval_ns() == interval,
            r.waiting() == Seq::<(Seq<u8>, u64)>::empty(),
            r.last_sent() is None,
    {
        EchoEngine { is_v4, interval, in_flight: InFlightTable::new(), last_send: None }
    }

    /// Whether a probe is due at `now`: none was sent yet, or more than the
    /// interval has passed since the last one.
    pub fn probe_due(&self, now: u64) -> (r: bool)
        ensures
            r == match self.last_sent() {
                None => true,
                Some(t) => now >= t && now - t > self.interval_ns(),
            },
    {
        match self.last_send {
            None => true,
            Some(t) => now >= t && now - t > self.interval,
        }
    }

    /// How long to wait at `now` until an interval has passed since the last
    /// probe, at most `u64::MAX`; zero when no probe was sent or the time has
    /// come.
    pub fn time_until_due(&self, now: u64) -> (r: u64)
        ensures
            r == match self.last_sent() {
                None => 0,
                Some(t) => if t + self.interval_ns() > now + u64::MAX {
                    u64::MAX
                } else if t + self.interval_ns() > now {
                    (t + self.interval_ns() - now) as u64
                } else {
                    0
                },
            },
    {
        match self.last_send {
            None => 0,
            Some(t) => {
                if t > now {
                    if self.interval > u64::MAX - (t - now) {
                        u64::MAX
                    } else {
                        (t - now) + self.interval
                    }
                } else if now - t < self.interval {
                    self.interval - (now - t)
                } else {
                    0
                }
            },
        }
    }

    /// Builds the echo request that carries `token` and notes `now` as the
    /// time of the last send.
    pub fn start_probe(&mut self, now: u64, token: &[u8], ident: u16) -> (r: Vec<u8>)
        requires
            old(self).wf(),
            token@.len() == TOKEN_SIZE,
        ensures
            final(self).wf(),
            r@ == probe_packet(old(self).v4(), ident, token@),
            final(self).last_sent() == Some(now),
            final(self).waiting() == old(self).waiting(),
            final(self).v4() == old(self).v4(),
            final(self).interval_ns() == old(self).interval_ns(),
    {
        self.last_send = Some(now);
        let mut buffer: Vec<u8> = Vec::new();
        let mut i: usize = 0;
        while i < ECHO_REQUEST_BUFFER_SIZE
            invariant
                i <= ECHO_REQUEST_BUFFER_SIZE,
                buffer@ == Seq::new(i as nat, |k: int| 0u8),
            decreases ECHO_REQUEST_BUFFER_SIZE - i,
        {
            buffer.push(0);
            i += 1;
            assert(buffer@ =~= Seq::new(i as nat, |k: int| 0u8));
        }
        let request = EchoRequest { ident, seq_cnt: 1, payload: token };
        let _ = if self.is_v4 {
            request.encode::<IcmpV4>(buffer.as_mut_slice())
        } else {
            request.encode::<IcmpV6>(buffer.as_mut_slice())
        };
        buffer
    }

    /// Draws a fresh random token and identifier and builds the probe that
    /// carries them; returns the token and the packet.
    pub fn new_probe(&mut self, now: u64) -> (r: (Vec<u8>, Vec<u8>))
        requires
            old(self).wf(),
        ensures
            final(self).wf(),
            r.0@.len() == TOKEN_SIZE,
            exists|ident: u16| r.1@ == probe_packet(old(self).v4(), ident, r.0@),
            final(self).last_sent() == Some(now),
            final(self).waiting() == old(self).waiting(),
            final(self).v4() == old(self).v4(),
            final(self).interval_ns() == old(self).interval_ns(),
    {
        let drawn: [u8; TOKEN_SIZE] = rand::random();
        let ident: u16 = rand::random();
        let mut token: Vec<u8> = Vec::new();
        let mut i: usize = 0;
        while i < TOKEN_SIZE
            invariant
                i <= TOKEN_SIZE,
                token@.len() == i,
            decreases TOKEN_SIZE - i,
        {
            token.push(drawn[i]);
            i += 1;
        }
        let packet = self.start_probe(now, token.as_slice(), ident);
        (token, packet)
    }

    /// Records that the probe carrying `token` left at `at`.
    pub fn record_sent(&mut self, token: Vec<u8>, at: u64)
        requires
            old(self).wf(),
        ensures
            final(self).wf(),
            final(self).waiting() == after_insert(old(self).waiting(), token@, at),
            final(self).last_sent() == old(self).last_sent(),
            final(self).v4() == old(self).v4(),
            final(self).interval_ns() == old(self).interval_ns(),
    {
        self.in_flight.insert(token, at);
    }

    /// Handles a datagram read from the socket at `now`. When it is the echo
    /// reply to a probe still waiting, that probe leaves the table and its
    /// round-trip time is returned; anything else is dropped silently.
    pub fn on_datagram(&mut self, data: &[u8], now: u64) -> (r: Option<u64>)
        requires
            old(self).wf(),
        ensures
            final(self).wf(),
            final(self).last_sent() == old(self).last_sent(),
            final(self).v4() == old(self).v4(),
            final(self).interval_ns() == old(self).interval_ns(),
            match reply_token(old(self).v4(), data@) {
                Some(t) => if holds_token(old(self).waiting(), t) {
                    &&& final(self).waiting() == after_remove(old(self).waiting(), t)
                    &&& r == Some(
                        elapsed(old(self).waiting()[token_index(old(self).waiting(), t)].1, now),
                    )
                } else {
                    final(self).waiting() == old(self).waiting() && r is None
                },
                None => final(self).waiting() == old(self).waiting() && r is None,
            },
    {
        let reply = if self.is_v4 {
            match IpV4Packet::decode(data) {
                Ok(packet) => EchoReply::decode::<IcmpV4>(packet.data.as_slice()),
                Err(_) => return None,
            }
        } else {
            EchoReply::decode::<IcmpV6>(data)
        };
        let reply = match reply {
            Ok(reply) => reply,
            Err(_) => return None,
        };
        if reply.payload.len() != TOKEN_SIZE {
            return None;
        }
        match self.in_flight.remove(reply.payload.as_slice()) {
            Some(sent) => {
                if now >= sent {
                    Some(now - sent)
                } else {
                    Some(0)
                }
            },
            None => None,
        }
    }
}

} // verus!
