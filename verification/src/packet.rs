use vstd::arithmetic::div_mod::{
    lemma_add_mod_noop, lemma_mod_self_0, lemma_mod_twice, lemma_small_mod, lemma_sub_mod_noop,
};
use vstd::prelude::*;

use crate::Ip4;

verus! {

/// Sum, as a plain integer, of the big-endian 16-bit words of a byte string.
/// A trailing odd byte contributes nothing; every buffer summed here has even
/// length.
pub open spec fn word_sum(s: Seq<u8>) -> int
    decreases s.len(),
{
    if s.len() < 2 {
        0
    } else {
        s[0] * 256 + s[1] + word_sum(s.skip(2))
    }
}

/// An even-length byte string carries a correct internet checksum when the
/// one's-complement sum of its 16-bit words folds to the all-ones word: as a
/// plain integer, the word sum is positive and divisible by 0xFFFF.
pub open spec fn checksum_ok(s: Seq<u8>) -> bool {
    word_sum(s) > 0 && word_sum(s) % 0xFFFF == 0
}

/// The UDP-over-IPv4 pseudo-header for a 64-byte segment: source address,
/// destination address, a zero byte, the UDP protocol number and the segment
/// length.
pub open spec fn pseudo_header(src: Ip4, dst: Ip4) -> Seq<u8> {
    seq![src.a, src.b, src.c, src.d, dst.a, dst.b, dst.c, dst.d, 0u8, 17u8, 0u8, 64u8]
}

pub proof fn lemma_word_sum_nonneg(s: Seq<u8>)
    ensures
        word_sum(s) >= 0,
    decreases s.len(),
{
    if s.len() >= 2 {
        lemma_word_sum_nonneg(s.skip(2));
    }
}

/// Replacing the byte at position `i` moves the word sum by the difference,
/// weighted by the byte's place inside its word.
pub proof fn lemma_word_sum_update(s: Seq<u8>, i: int, v: u8)
    requires
        0 <= i < s.len(),
        s.len() % 2 == 0,
    ensures
        word_sum(s.update(i, v)) == word_sum(s) + (v - s[i]) * (if i % 2 == 0 {
            256int
        } else {
            1int
        }),
    decreases i,
{
    let t = s.update(i, v);
    if i == 0 {
        assert(t.skip(2) =~= s.skip(2));
    } else if i == 1 {
        assert(t.skip(2) =~= s.skip(2));
    } else {
        assert(t.skip(2) =~= s.skip(2).update(i - 2, v));
        lemma_word_sum_update(s.skip(2), i - 2, v);
    }
}

/// One's-complement internet checksum of an even-length byte string: the
/// returned word, added to the word sum of the data, yields a positive
/// multiple of 0xFFFF.
pub fn internet_checksum(data: &Vec<u8>) -> (c: u16)
    requires
        data@.len() % 2 == 0,
        data@.len() <= 65534,
    ensures
        (word_sum(data@) + c) % 0xFFFF == 0,
        word_sum(data@) + c > 0,
{
    let ghost total = word_sum(data@);
    let n = data.len();
    let mut sum: u32 = 0;
    let mut i: usize = 0;
    proof {
        assert(data@.skip(0) =~= data@);
    }
    while i < n
        invariant
            i % 2 == 0,
            i <= n,
            n == data@.len(),
            n % 2 == 0,
            n <= 65534,
            total == word_sum(data@),
            sum + word_sum(data@.skip(i as int)) == total,
            sum <= (i as int / 2) * 0xFFFF,
        decreases n - i,
    {
        let hi = data[i];
        let lo = data[i + 1];
        proof {
            let rest = data@.skip(i as int);
            assert(rest.len() >= 2);
            assert(rest[0] == data@[i as int]);
            assert(rest[1] == data@[i as int + 1]);
            assert(rest.skip(2) =~= data@.skip(i as int + 2));
            assert(word_sum(rest) == hi * 256 + lo + word_sum(data@.skip(i as int + 2)));
            assert((i as int + 2) / 2 == i as int / 2 + 1);
            assert((i as int / 2 + 1) * 0xFFFF == (i as int / 2) * 0xFFFF + 0xFFFF);
        }
        sum = sum + (hi as u32) * 256 + (lo as u32);
        i = i + 2;
    }
    proof {
        assert(data@.skip(n as int) =~= Seq::<u8>::empty());
        assert(word_sum(Seq::<u8>::empty()) == 0);
        assert(sum == total);
    }
    // Fold the carries back in until the sum fits one word. Each step keeps
    // the value congruent modulo 0xFFFF and never increases it.
    while sum >= 0x10000
        invariant
            sum as int % 0xFFFF == total % 0xFFFF,
            sum <= total,
            total == word_sum(data@),
        decreases sum,
    {
        proof {
            assert((sum & 0xFFFF) == sum % 0x10000 && (sum >> 16) == sum / 0x10000) by (bit_vector);
            assert(sum >= 0x10000 ==> (sum >> 16) >= 1) by (bit_vector);
        }
        let low: u32 = sum & 0xFFFF;
        let high: u32 = sum >> 16;
        proof {
            vstd::arithmetic::div_mod::lemma_fundamental_div_mod(sum as int, 0x10000);
            assert(low + high == sum - 0xFFFF * (high as int));
            lemma_sub_mod_noop(sum as int, 0xFFFF * (high as int), 0xFFFF);
            lemma_mod_mul_vanish(high as int, 0xFFFF);
            lemma_mod_twice(sum as int, 0xFFFF);
        }
        sum = low + high;
    }
    proof {
        lemma_word_sum_nonneg(data@);
        if sum == 0xFFFF {
            lemma_mod_self_0(0xFFFF);
        } else {
            lemma_small_mod(sum as nat, 0xFFFF);
        }
    }
    let c: u16 = (0xFFFFu32 - sum) as u16;
    proof {
        lemma_add_mod_noop(total, c as int, 0xFFFF);
        lemma_add_mod_noop(sum as int, c as int, 0xFFFF);
        lemma_mod_self_0(0xFFFF);
        lemma_mod_twice(total + c, 0xFFFF);
    }
    c
}

/// A multiple of the modulus vanishes from a remainder.
proof fn lemma_mod_mul_vanish(k: int, m: int)
    requires
        m > 0,
    ensures
        (k * m) % m == 0,
{
    vstd::arithmetic::div_mod::lemma_mod_multiples_basic(k, m);
}

/// The 20-byte IPv4 header of a probe packet: version 4, header length 5,
/// total length 84, don't-fragment, UDP, with the given time-to-live,
/// identification and checksum words.
pub open spec fn header_bytes(src: Ip4, dst: Ip4, ttl: u8, ident: u16, ck: u16) -> Seq<u8> {
    seq![
        0x45u8,
        0u8,
        0u8,
        84u8,
        (ident / 256) as u8,
        (ident % 256) as u8,
        0x40u8,
        0u8,
        ttl,
        17u8,
        (ck / 256) as u8,
        (ck % 256) as u8,
        src.a,
        src.b,
        src.c,
        src.d,
        dst.a,
        dst.b,
        dst.c,
        dst.d,
    ]
}

/// The 64-byte UDP segment of a probe packet: source and destination port,
/// length 64, the given checksum word, and a zero-filled payload.
pub open spec fn udp_bytes(sport: u16, port: u16, ck: u16) -> Seq<u8> {
    seq![
        (sport / 256) as u8,
        (sport % 256) as u8,
        (port / 256) as u8,
        (port % 256) as u8,
        0u8,
        64u8,
        (ck / 256) as u8,
        (ck % 256) as u8,
    ] + Seq::new(56, |i: int| 0u8)
}

/// A well-formed probe packet for the given endpoints, time-to-live and
/// destination port: an IPv4 header as above whose checksum verifies,
/// followed by a UDP segment whose checksum verifies under the pseudo-header
/// algorithm. The identification word and the UDP source port are the two
/// randomized fields and are left unconstrained.
pub open spec fn probe_packet_ok(src: Ip4, dst: Ip4, ttl: u8, port: u16, p: Seq<u8>) -> bool {
    exists|ident: u16, sport: u16, hck: u16, uck: u16|
        {
            &&& p == #[trigger] header_bytes(src, dst, ttl, ident, hck) + #[trigger] udp_bytes(
                sport,
                port,
                uck,
            )
            &&& checksum_ok(p.take(20))
            &&& checksum_ok(pseudo_header(src, dst) + p.skip(20))
        }
}

/// Relies on rand 0.8's rand::random: a value drawn from the thread-local
/// generator. The result is random, so nothing is promised of it.
pub assume_specification<T>[ rand::random::<T> ]() -> (r: T)
    where
        rand::distributions::Standard: rand::distributions::Distribution<T>,
;

/// Builds immutable outbound probe packets for one pair of endpoints.
pub struct PacketBuilder {
    pub source_ip: Ip4,
    pub destination_ip: Ip4,
}

impl PacketBuilder {
    pub fn new(source_ip: Ip4, destination_ip: Ip4) -> (b: PacketBuilder)
        ensures
            b.source_ip == source_ip,
            b.destination_ip == destination_ip,
    {
        PacketBuilder { source_ip, destination_ip }
    }

    /// Build one probe packet at the given time-to-live toward the given
    /// destination port. The UDP source port and the IPv4 identification are
    /// randomized per packet.
    pub fn build_packet(&self, ttl: u8, port: u16) -> (p: Vec<u8>)
        ensures
            probe_packet_ok(self.source_ip, self.destination_ip, ttl, port, p@),
    {
        Self::build_udp_packet(self.source_ip, self.destination_ip, ttl, port)
    }

    /// Create a new UDP probe packet: header and segment assembled byte by
    /// byte, each with its checksum computed over the finished bytes.
    fn build_udp_packet(source_ip: Ip4, destination_ip: Ip4, ttl: u8, port: u16) -> (p: Vec<u8>)
        ensures
            probe_packet_ok(source_ip, destination_ip, ttl, port, p@),
    {
        let ident: u16 = rand::random::<u16>();
        let sport: u16 = rand::random::<u16>();

        // The header with a zero checksum word, then the real one.
        let header0 = push_header(source_ip, destination_ip, ttl, ident, 0);
        let hck = internet_checksum(&header0);
        let header = push_header(source_ip, destination_ip, ttl, ident, hck);
        proof {
            lemma_checksum_insert(header_bytes(source_ip, destination_ip, ttl, ident, 0), 10, hck);
            assert(header_bytes(source_ip, destination_ip, ttl, ident, 0).update(10, (hck
                / 256) as u8).update(11, (hck % 256) as u8) =~= header_bytes(
                source_ip,
                destination_ip,
                ttl,
                ident,
                hck,
            ));
        }
        // The pseudo-header and segment with a zero checksum word, summed as
        // one buffer, then the real segment.
        let mut buf0 = push_pseudo_header(source_ip, destination_ip);
        let seg0 = push_udp(sport, port, 0);
        let mut k: usize = 0;
        while k < 64
            invariant
                k <= 64,
                seg0@ == udp_bytes(sport, port, 0),
                buf0@ == pseudo_header(source_ip, destination_ip) + seg0@.take(k as int),
            decreases 64 - k,
        {
            let b = seg0[k];
            buf0.push(b);
            proof {
                assert(buf0@ =~= pseudo_header(source_ip, destination_ip) + seg0@.take(
                    k as int + 1,
                ));
            }
            k = k + 1;
        }
        proof {
            assert(seg0@.take(64) =~= seg0@);
        }
        let uck = internet_checksum(&buf0);
        let seg = push_udp(sport, port, uck);
        proof {
            lemma_checksum_insert(
                pseudo_header(source_ip, destination_ip) + udp_bytes(sport, port, 0),
                18,
                uck,
            );
            assert((pseudo_header(source_ip, destination_ip) + udp_bytes(sport, port, 0)).update(
                18,
                (uck / 256) as u8,
            ).update(19, (uck % 256) as u8) =~= pseudo_header(source_ip, destination_ip)
                + udp_bytes(sport, port, uck));
        }
        // The packet: header followed by segment.
        let mut p = header;
        let mut k2: usize = 0;
        while k2 < 64
            invariant
                k2 <= 64,
                seg@ == udp_bytes(sport, port, uck),
                p@ == header_bytes(source_ip, destination_ip, ttl, ident, hck) + seg@.take(
                    k2 as int,
                ),
            decreases 64 - k2,
        {
            let b = seg[k2];
            p.push(b);
            proof {
                assert(p@ =~= header_bytes(source_ip, destination_ip, ttl, ident, hck) + seg@.take(
                    k2 as int + 1,
                ));
            }
            k2 = k2 + 1;
        }
        proof {
            assert(seg@.take(64) =~= seg@);
            let h = header_bytes(source_ip, destination_ip, ttl, ident, hck);
            let u = udp_bytes(sport, port, uck);
            assert(p@.take(20) =~= h);
            assert(p@.skip(20) =~= u);
        }
        p
    }
}

/// Inserting a checksum word at an even position where two zero bytes stood
/// adds exactly the word's value to the word sum; a sum that the checksum was
/// computed from therefore verifies afterwards.
proof fn lemma_checksum_insert(s: Seq<u8>, i: int, ck: u16)
    requires
        0 <= i,
        i + 1 < s.len(),
        i % 2 == 0,
        s.len() % 2 == 0,
        s[i] == 0u8,
        s[i + 1] == 0u8,
        (word_sum(s) + ck) % 0xFFFF == 0,
        word_sum(s) + ck > 0,
    ensures
        checksum_ok(s.update(i, (ck / 256) as u8).update(i + 1, (ck % 256) as u8)),
{
    let hi = (ck / 256) as u8;
    let lo = (ck % 256) as u8;
    let t = s.update(i, hi).update(i + 1, lo);
    lemma_word_sum_update(s, i, hi);
    lemma_word_sum_update(s.update(i, hi), i + 1, lo);
    assert(s.update(i, hi)[i + 1] == 0u8);
    assert(word_sum(t) == word_sum(s) + hi * 256 + lo);
    assert(hi * 256 + lo == ck) by {
        assert(ck == 256 * (ck as int / 256) + ck as int % 256);
    }
}

/// The header bytes as an executable vector.
fn push_header(src: Ip4, dst: Ip4, ttl: u8, ident: u16, ck: u16) -> (h: Vec<u8>)
    ensures
        h@ == header_bytes(src, dst, ttl, ident, ck),
{
    let mut h: Vec<u8> = Vec::new();
    h.push(0x45);
    h.push(0);
    h.push(0);
    h.push(84);
    h.push((ident / 256) as u8);
    h.push((ident % 256) as u8);
    h.push(0x40);
    h.push(0);
    h.push(ttl);
    h.push(17);
    h.push((ck / 256) as u8);
    h.push((ck % 256) as u8);
    h.push(src.a);
    h.push(src.b);
    h.push(src.c);
    h.push(src.d);
    h.push(dst.a);
    h.push(dst.b);
    h.push(dst.c);
    h.push(dst.d);
    proof {
        assert(h@ =~= header_bytes(src, dst, ttl, ident, ck));
    }
    h
}

/// The pseudo-header bytes as an executable vector.
fn push_pseudo_header(src: Ip4, dst: Ip4) -> (h: Vec<u8>)
    ensures
        h@ == pseudo_header(src, dst),
{
    let mut h: Vec<u8> = Vec::new();
    h.push(src.a);
    h.push(src.b);
    h.push(src.c);
    h.push(src.d);
    h.push(dst.a);
    h.push(dst.b);
    h.push(dst.c);
    h.push(dst.d);
    h.push(0);
    h.push(17);
    h.push(0);
    h.push(64);
    proof {
        assert(h@ =~= pseudo_header(src, dst));
    }
    h
}

/// The UDP segment bytes as an executable vector.
fn push_udp(sport: u16, port: u16, ck: u16) -> (u: Vec<u8>)
    ensures
        u@ == udp_bytes(sport, port, ck),
{
    let mut u: Vec<u8> = Vec::new();
    u.push((sport / 256) as u8);
    u.push((sport % 256) as u8);
    u.push((port / 256) as u8);
    u.push((port % 256) as u8);
    u.push(0);
    u.push(64);
    u.push((ck / 256) as u8);
    u.push((ck % 256) as u8);
    let mut k: usize = 0;
    while k < 56
        invariant
            k <= 56,
            u@.len() == 8 + k,
            forall|i: int| 0 <= i < u@.len() ==> u@[i] == udp_bytes(sport, port, ck)[i],
        decreases 56 - k,
    {
        u.push(0);
        k = k + 1;
    }
    proof {
        assert(u@ =~= udp_bytes(sport, port, ck));
    }
    u
}

/// Corrupting any byte of a string whose checksum verifies breaks the
/// checksum: the word sum moves by less than the modulus, so it can no longer
/// be a multiple of it.
pub proof fn lemma_corrupt_byte_breaks_checksum(s: Seq<u8>, i: int, v: u8)
    requires
        checksum_ok(s),
        0 <= i < s.len(),
        s.len() % 2 == 0,
        v != s[i],
    ensures
        !checksum_ok(s.update(i, v)),
{
    lemma_word_sum_update(s, i, v);
    let w = if i % 2 == 0 {
        256int
    } else {
        1int
    };
    let d = (v - s[i]) * w;
    assert(d != 0 && -0xFF00 <= d <= 0xFF00) by (nonlinear_arith)
        requires
            w == 256 || w == 1,
            -255 <= v - s[i] <= 255,
            v != s[i],
            d == (v - s[i]) * w,
    ;
    let a = word_sum(s);
    let t = word_sum(s.update(i, v));
    assert(t == a + d);
    if t % 0xFFFF == 0 && t > 0 {
        // Two positive multiples of 0xFFFF within less than 0xFFFF of each
        // other must be equal, yet d is not zero.
        lemma_mod_diff_small(a, t, 0xFFFF);
        assert(false);
    }
}

/// Two multiples of m that lie strictly within m of each other are equal.
proof fn lemma_mod_diff_small(a: int, b: int, m: int)
    requires
        m > 0,
        a % m == 0,
        b % m == 0,
        -m < b - a < m,
    ensures
        a == b,
{
    let qa = a / m;
    let qb = b / m;
    vstd::arithmetic::div_mod::lemma_fundamental_div_mod(a, m);
    vstd::arithmetic::div_mod::lemma_fundamental_div_mod(b, m);
    assert(a == qa * m && b == qb * m);
    assert(-m < qb * m - qa * m < m ==> qa * m == qb * m) by (nonlinear_arith)
        requires
            m > 0,
    ;
}

} // verus!
