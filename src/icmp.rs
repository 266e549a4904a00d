use vstd::arithmetic::div_mod::{lemma_add_mod_noop, lemma_fundamental_div_mod};
use vstd::prelude::*;
use vstd::slice::slice_to_vec;

verus! {

/// Size of the ICMP echo header: type, code, checksum, identifier, sequence.
pub const ICMP_HEADER_SIZE: usize = 8;

/// ICMP for IPv4.
pub struct IcmpV4;

/// ICMPv6.
pub struct IcmpV6;

/// The type and code numbers of echo messages of one ICMP version.
pub trait Proto {
    spec fn request_type() -> u8;

    spec fn request_code() -> u8;

    spec fn reply_type() -> u8;

    spec fn reply_code() -> u8;

    fn echo_request_type() -> (r: u8)
        ensures
            r == Self::request_type(),
    ;

    fn echo_request_code() -> (r: u8)
        ensures
            r == Self::request_code(),
    ;

    fn echo_reply_type() -> (r: u8)
        ensures
            r == Self::reply_type(),
    ;

    fn echo_reply_code() -> (r: u8)
        ensures
            r == Self::reply_code(),
    ;
}

impl Proto for IcmpV4 {
    open spec fn request_type() -> u8 {
        8
    }

    open spec fn request_code() -> u8 {
        0
    }

    open spec fn reply_type() -> u8 {
        0
    }

    open spec fn reply_code() -> u8 {
        0
    }

    fn echo_request_type() -> (r: u8) {
        8
    }

    fn echo_request_code() -> (r: u8) {
        0
    }

    fn echo_reply_type() -> (r: u8) {
        0
    }

    fn echo_reply_code() -> (r: u8) {
        0
    }
}

impl Proto for IcmpV6 {
    open spec fn request_type() -> u8 {
        128
    }

    open spec fn request_code() -> u8 {
        0
    }

    open spec fn reply_type() -> u8 {
        129
    }

    open spec fn reply_code() -> u8 {
        0
    }

    fn echo_request_type() -> (r: u8) {
        128
    }

    fn echo_request_code() -> (r: u8) {
        0
    }

    fn echo_reply_type() -> (r: u8) {
        129
    }

    fn echo_reply_code() -> (r: u8) {
        0
    }
}

/// Why an echo message could not be encoded or decoded.
#[derive(Debug, Clone, Copy, PartialEq, Eq, Structural)]
pub enum IcmpError {
    /// The buffer to decode is shorter than the header.
    InvalidSize,
    /// The type or code is not that of an echo reply.
    InvalidPacket,
    /// The buffer to encode into cannot hold the header and the payload.
    BufferTooSmall,
}

/// High byte of a big-endian 16-bit value.
pub open spec fn hi(x: u16) -> u8 {
    (x / 256) as u8
}

/// Low byte of a big-endian 16-bit value.
pub open spec fn lo(x: u16) -> u8 {
    (x % 256) as u8
}

/// The 16-bit value of two big-endian bytes.
pub open spec fn be16(h: u8, l: u8) -> u16 {
    (h as int * 256 + l as int) as u16
}

/// The `k`-th 16-bit big-endian word of `b`; an odd last byte is the high byte
/// of a word whose low byte is zero.
pub open spec fn word(b: Seq<u8>, k: int) -> nat {
    (b[2 * k] as nat) * 256 + if 2 * k + 1 < b.len() {
        b[2 * k + 1] as nat
    } else {
        0nat
    }
}

/// Sum of the first `n` words of `b`.
pub open spec fn word_sum(b: Seq<u8>, n: nat) -> nat
    decreases n,
{
    if n == 0 {
        0
    } else {
        word_sum(b, (n - 1) as nat) + word(b, n - 1)
    }
}

/// Number of 16-bit words that cover `b`.
pub open spec fn word_count(b: Seq<u8>) -> nat {
    ((b.len() + 1) / 2) as nat
}

/// The one's-complement value of `s`: the value in `1..=0xffff` congruent to
/// `s` modulo `0xffff`, or zero for zero. Folding the carries of `s` back in
/// until it fits in 16 bits yields it.
pub open spec fn ones_fold(s: nat) -> nat {
    if s == 0 {
        0
    } else {
        ((s - 1) as nat % 0xffff) + 1
    }
}

/// The internet checksum of `b`: the complement of the folded sum of its
/// words, the sum taken in 32 bits.
pub open spec fn checksum(b: Seq<u8>) -> u16 {
    (0xffff - ones_fold(word_sum(b, word_count(b)) % 0x1_0000_0000)) as u16
}

/// `b` with its checksum stored big-endian at offsets 2 and 3.
pub open spec fn with_checksum(b: Seq<u8>) -> Seq<u8> {
    b.update(2, hi(checksum(b))).update(3, lo(checksum(b)))
}

/// The echo header of protocol `P` with a zero checksum.
pub open spec fn echo_header<P: Proto>(type_: u8, code: u8, ident: u16, seq_cnt: u16) -> Seq<u8> {
    seq![type_, code, 0u8, 0u8, hi(ident), lo(ident), hi(seq_cnt), lo(seq_cnt)]
}

/// What an echo request leaves in a buffer that held `buf`: header, payload,
/// the buffer's remaining bytes, and the checksum over all of it.
pub open spec fn encoded_request<P: Proto>(
    buf: Seq<u8>,
    ident: u16,
    seq_cnt: u16,
    payload: Seq<u8>,
) -> Seq<u8> {
    with_checksum(
        echo_header::<P>(P::request_type(), P::request_code(), ident, seq_cnt) + payload
            + buf.subrange(8 + payload.len() as int, buf.len() as int),
    )
}

/// What decoding `b` as an echo reply of protocol `P` yields: identifier,
/// sequence number and payload, or the error.
pub open spec fn decode_echo_reply<P: Proto>(b: Seq<u8>) -> Result<(u16, u16, Seq<u8>), IcmpError> {
    if b.len() < 8 {
        Err(IcmpError::InvalidSize)
    } else if b[0] != P::reply_type() || b[1] != P::reply_code() {
        Err(IcmpError::InvalidPacket)
    } else {
        Ok((be16(b[4], b[5]), be16(b[6], b[7]), b.subrange(8, b.len() as int)))
    }
}

/// An echo request to send.
pub struct EchoRequest<'a> {
    pub ident: u16,
    pub seq_cnt: u16,
    pub payload: &'a [u8],
}

impl<'a> EchoRequest<'a> {
    /// Writes the request into the front of `buffer` and the checksum over the
    /// whole buffer. A buffer too small for header and payload is left as it
    /// was.
    pub fn encode<P: Proto>(&self, buffer: &mut [u8]) -> (r: Result<(), IcmpError>)
        ensures
            old(buffer)@.len() < 8 + self.payload@.len() ==> r == Err::<(), IcmpError>(
                IcmpError::BufferTooSmall,
            ) && final(buffer)@ == old(buffer)@,
            old(buffer)@.len() >= 8 + self.payload@.len() ==> r is Ok && final(buffer)@
                == encoded_request::<P>(old(buffer)@, self.ident, self.seq_cnt, self.payload@),
    {
        let n = self.payload.len();
        if buffer.len() < ICMP_HEADER_SIZE || buffer.len() - ICMP_HEADER_SIZE < n {
            return Err(IcmpError::BufferTooSmall);
        }
        let ghost old_buf = buffer@;
        buffer[0] = P::echo_request_type();
        buffer[1] = P::echo_request_code();
        buffer[2] = 0;
        buffer[3] = 0;
        buffer[4] = (self.ident / 256) as u8;
        buffer[5] = (self.ident % 256) as u8;
        buffer[6] = (self.seq_cnt / 256) as u8;
        buffer[7] = (self.seq_cnt % 256) as u8;
        let len = buffer.len();
        let mut i: usize = 0;
        while i < n
            invariant
                n == self.payload@.len(),
                i <= n,
                8 + n <= buffer@.len(),
                buffer@.len() == old_buf.len(),
                buffer@.len() == len,
                forall|k: int| 0 <= k < 8 ==> #[trigger] buffer@[k] == echo_header::<P>(
                    P::request_type(),
                    P::request_code(),
                    self.ident,
                    self.seq_cnt,
                )[k],
                forall|k: int| 0 <= k < i ==> #[trigger] buffer@[8 + k] == self.payload@[k],
                forall|k: int| 8 + n <= k < buffer@.len() ==> #[trigger] buffer@[k] == old_buf[k],
            decreases n - i,
        {
            buffer[8 + i] = self.payload[i];
            i += 1;
        }
        let ghost unsummed = echo_header::<P>(
            P::request_type(),
            P::request_code(),
            self.ident,
            self.seq_cnt,
        ) + self.payload@ + old_buf.subrange(8 + n, old_buf.len() as int);
        assert forall|k: int| 0 <= k < buffer@.len() implies #[trigger] buffer@[k] == unsummed[k] by {
            if k < 8 {
            } else if k < 8 + n {
                assert(buffer@[8 + (k - 8)] == self.payload@[k - 8]);
            } else {
                assert(buffer@[k] == old_buf[k]);
            }
        }
        assert(buffer@ =~= unsummed);
        write_checksum(buffer);
        Ok(())
    }
}

/// A decoded echo reply.
pub struct EchoReply {
    pub ident: u16,
    pub seq_cnt: u16,
    pub payload: Vec<u8>,
}

impl EchoReply {
    /// Reads an echo reply of protocol `P`; the payload is everything after
    /// the header.
    pub fn decode<P: Proto>(buffer: &[u8]) -> (r: Result<EchoReply, IcmpError>)
        ensures
            match r {
                Ok(reply) => decode_echo_reply::<P>(buffer@) == Ok::<(u16, u16, Seq<u8>), IcmpError>(
                    (reply.ident, reply.seq_cnt, reply.payload@),
                ),
                Err(e) => decode_echo_reply::<P>(buffer@) == Err::<(u16, u16, Seq<u8>), IcmpError>(e),
            },
    {
        if buffer.len() < ICMP_HEADER_SIZE {
            return Err(IcmpError::InvalidSize);
        }
        let type_ = buffer[0];
        let code = buffer[1];
        if type_ != P::echo_reply_type() || code != P::echo_reply_code() {
            return Err(IcmpError::InvalidPacket);
        }
        let ident = (buffer[4] as u16) * 256 + buffer[5] as u16;
        let seq_cnt = (buffer[6] as u16) * 256 + buffer[7] as u16;
        let payload = slice_to_vec(&buffer[ICMP_HEADER_SIZE..buffer.len()]);
        Ok(EchoReply { ident, seq_cnt, payload })
    }
}

/// An echo request whose buffer holds exactly header and payload, once its
/// type and code are turned into those of a reply, decodes to the identifier,
/// sequence number and payload it was built from.
pub proof fn lemma_echo_round_trip<P: Proto>(
    buf: Seq<u8>,
    ident: u16,
    seq_cnt: u16,
    payload: Seq<u8>,
)
    requires
        buf.len() == 8 + payload.len(),
    ensures
        ({
            let sent = encoded_request::<P>(buf, ident, seq_cnt, payload);
            let answered = sent.update(0, P::reply_type()).update(1, P::reply_code());
            decode_echo_reply::<P>(answered) == Ok::<(u16, u16, Seq<u8>), IcmpError>(
                (ident, seq_cnt, payload),
            )
        }),
{
    let sent = encoded_request::<P>(buf, ident, seq_cnt, payload);
    let answered = sent.update(0, P::reply_type()).update(1, P::reply_code());
    lemma_be16_bytes(ident);
    lemma_be16_bytes(seq_cnt);
    assert(answered.subrange(8, answered.len() as int) =~= payload);
}

/// A receiver that sums the words of a buffer whose checksum was written as
/// `with_checksum` does (its checksum bytes zero before) folds the sum to
/// `0xffff`: the checksum verifies. Holds for buffers up to 64 KiB, where the
/// 32-bit sum cannot wrap.
pub proof fn lemma_checksum_verifies(b: Seq<u8>)
    requires
        4 <= b.len() <= 0x10000,
        b[2] == 0,
        b[3] == 0,
    ensures
        ones_fold(word_sum(with_checksum(b), word_count(b)) % 0x1_0000_0000) == 0xffff,
{
    let n = word_count(b);
    let s = word_sum(b, n);
    lemma_word_sum_bound(b, n);
    assert(s < 0x1_0000_0000);
    let ck = checksum(b);
    let c = with_checksum(b);
    lemma_be16_bytes(ck);
    lemma_word_sum_update(b, hi(ck), lo(ck), n);
    assert(word(b, 1) == 0);
    assert(hi(ck) as nat * 256 + lo(ck) as nat == ck as nat);
    let t = word_sum(c, n);
    assert(t == s + ck);
    lemma_word_sum_bound(c, n);
    assert(t < 0x1_0000_0000);
    if s == 0 {
        assert(t == 0xffff);
    } else {
        let f = ((s - 1) as nat % 0xffff) + 1;
        assert(t == s + 0xffff - f);
        lemma_fundamental_div_mod((s - 1) as int, 0xffff);
        let q = (s - 1) as int / 0xffff;
        assert((s - 1) as int == q * 0xffff + (f - 1));
        assert(t - 1 == q * 0xffff + 0xfffe);
        assert(((t - 1) as nat) % 0xffff == 0xfffe) by {
            vstd::arithmetic::div_mod::lemma_mod_multiples_vanish(q, 0xfffe, 0xffff);
            assert((t - 1) as int == 0xffff * q + 0xfffe) by (nonlinear_arith)
                requires
                    t - 1 == q * 0xffff + 0xfffe,
            ;
        }
    }
}

proof fn lemma_word_sum_bound(b: Seq<u8>, n: nat)
    requires
        2 * n <= b.len() + 1,
    ensures
        word_sum(b, n) <= n * 0xffff,
    decreases n,
{
    if n > 0 {
        lemma_word_sum_bound(b, (n - 1) as nat);
    }
}

proof fn lemma_word_sum_update(b: Seq<u8>, x: u8, y: u8, n: nat)
    requires
        b.len() >= 4,
        2 * n <= b.len() + 1,
    ensures
        n >= 2 ==> word_sum(b.update(2, x).update(3, y), n) + word(b, 1) == word_sum(b, n) + x as nat
            * 256 + y as nat,
        n < 2 ==> word_sum(b.update(2, x).update(3, y), n) == word_sum(b, n),
    decreases n,
{
    let c = b.update(2, x).update(3, y);
    if n > 0 {
        lemma_word_sum_update(b, x, y, (n - 1) as nat);
        let k = n - 1;
        if k != 1 {
            assert(c[2 * k] == b[2 * k]);
            if 2 * k + 1 < b.len() {
                assert(c[2 * k + 1] == b[2 * k + 1]);
            }
            assert(word(c, k) == word(b, k));
        } else {
            assert(word(c, 1) == x as nat * 256 + y as nat);
        }
    }
}

proof fn lemma_be16_bytes(x: u16)
    ensures
        be16(hi(x), lo(x)) == x,
{
    lemma_fundamental_div_mod(x as int, 256);
}

proof fn lemma_fold_step(s: nat)
    requires
        s >= 0x10000,
    ensures
        ones_fold(s % 0x10000 + s / 0x10000) == ones_fold(s),
        s % 0x10000 + s / 0x10000 < s,
        s % 0x10000 + s / 0x10000 > 0,
{
    let q = s / 0x10000;
    let r = s % 0x10000;
    lemma_fundamental_div_mod(s as int, 0x10000);
    assert(q >= 1) by (nonlinear_arith)
        requires
            s >= 0x10000,
            q == s / 0x10000,
    ;
    assert(s == q * 0x10000 + r);
    assert((s - 1) as int == (q + r - 1) + q * 0xffff);
    assert(((q + r - 1) + q * 0xffff) % 0xffff == (q + r - 1) % 0xffff) by {
        vstd::arithmetic::div_mod::lemma_mod_multiples_vanish(q as int, (q + r - 1) as int, 0xffff);
    }
}

/// Stores at offsets 2 and 3 the internet checksum of the whole buffer.
fn write_checksum(buffer: &mut [u8])
    requires
        old(buffer)@.len() >= 4,
    ensures
        final(buffer)@ == with_checksum(old(buffer)@),
{
    let len = buffer.len();
    let words = (len - 1) / 2 + 1;
    assert(words == word_count(buffer@));
    let mut sum: u32 = 0;
    let mut k: usize = 0;
    while k < words
        invariant
            words == word_count(buffer@),
            len == buffer@.len(),
            k <= words,
            sum as nat == word_sum(buffer@, k as nat) % 0x1_0000_0000,
        decreases words - k,
    {
        let mut part: u32 = (buffer[2 * k] as u32) * 256;
        if 2 * k + 1 < len {
            part = part + buffer[2 * k + 1] as u32;
        }
        assert(part as nat == word(buffer@, k as int));
        proof {
            lemma_add_mod_noop(word_sum(buffer@, k as nat) as int, part as int, 0x1_0000_0000);
            lemma_fundamental_div_mod(part as int, 0x1_0000_0000);
        }
        sum = sum.wrapping_add(part);
        k += 1;
    }
    let ghost total = sum as nat;
    while sum >= 0x10000
        invariant
            ones_fold(sum as nat) == ones_fold(total),
            total == 0 ==> sum == 0,
            total > 0 ==> sum > 0,
        decreases sum,
    {
        proof {
            lemma_fold_step(sum as nat);
        }
        sum = (sum % 0x10000) + (sum / 0x10000);
    }
    assert(ones_fold(sum as nat) == sum as nat);
    let ck: u16 = (0xffff - sum) as u16;
    assert(ck == checksum(buffer@));
    buffer[2] = (ck / 256) as u8;
    buffer[3] = (ck % 256) as u8;
}

} // verus!
