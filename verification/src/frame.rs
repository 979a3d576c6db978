//! The packets of the device protocol: a header of fixed size, then a body.
//!
//! The header holds the protocol mark (8 bytes), the session (4), the request (4) and twice the
//! length of the body (8 each), all of them with the low byte first.

use vstd::prelude::*;
use vstd::slice::slice_subrange;

verus! {

/// The mark at the beginning of each packet.
pub const DAHUA_PROTO_DHIP: u64 = 0x5049484400000020;

pub const HEADER_SIZE: usize = 32;

/// The `width` low bytes of `n`, the lowest first.
pub open spec fn le_bytes(n: nat, width: nat) -> Seq<u8>
    decreases width,
{
    if width == 0 {
        Seq::empty()
    } else {
        seq![(n % 256) as u8] + le_bytes(n / 256, (width - 1) as nat)
    }
}

/// The number whose bytes these are, the lowest first.
pub open spec fn le_value(s: Seq<u8>) -> nat
    decreases s.len(),
{
    if s.len() == 0 {
        0
    } else {
        s[0] as nat + 256 * le_value(s.drop_first())
    }
}

pub open spec fn header(session: u32, request: u32, body_len: nat) -> Seq<u8> {
    le_bytes(DAHUA_PROTO_DHIP as nat, 8) + le_bytes(session as nat, 4) + le_bytes(
        request as nat,
        4,
    ) + le_bytes(body_len, 8) + le_bytes(body_len, 8)
}

/// A packet as it is sent.
pub open spec fn packet(session: u32, request: u32, body: Seq<u8>) -> Seq<u8> {
    header(session, request, body.len()) + body
}

/// The protocol mark that the received bytes begin with.
pub open spec fn mark_of(chunk: Seq<u8>) -> nat {
    le_value(chunk.subrange(0, 8))
}

/// The body's length by the header, as the machine counts lengths.
pub open spec fn body_len_of(chunk: Seq<u8>) -> usize {
    (le_value(chunk.subrange(24, 32)) as u64) as usize
}

/// What received bytes begin with.
pub enum Decoded {
    /// No whole packet yet.
    Incomplete,
    /// Bytes of some other protocol.
    Foreign,
    /// A packet with this body, which the first `tail` bytes make up. Where exactly one header's
    /// worth of bytes follows the packet, those bytes belong to it.
    Packet { body: Seq<u8>, tail: int },
}

pub open spec fn decoded(chunk: Seq<u8>) -> Decoded {
    if chunk.len() < HEADER_SIZE {
        Decoded::Incomplete
    } else if mark_of(chunk) != DAHUA_PROTO_DHIP {
        Decoded::Foreign
    } else {
        let end = HEADER_SIZE + body_len_of(chunk);
        if chunk.len() < end {
            Decoded::Incomplete
        } else {
            Decoded::Packet {
                body: chunk.subrange(HEADER_SIZE as int, end),
                tail: if chunk.len() - end == HEADER_SIZE {
                    end + HEADER_SIZE
                } else {
                    end
                },
            }
        }
    }
}

/// The end of the packet that the header announces can be counted.
pub open spec fn countable(chunk: Seq<u8>) -> bool {
    chunk.len() >= HEADER_SIZE && mark_of(chunk) == DAHUA_PROTO_DHIP ==> HEADER_SIZE + body_len_of(
        chunk,
    ) <= usize::MAX
}

/// 256 to the power of `k`.
pub open spec fn pow256(k: nat) -> nat
    decreases k,
{
    if k == 0 {
        1
    } else {
        256 * pow256((k - 1) as nat)
    }
}

pub proof fn lemma_le(n: nat, width: nat)
    requires
        n < pow256(width),
    ensures
        le_bytes(n, width).len() == width,
        le_value(le_bytes(n, width)) == n,
    decreases width,
{
    if width > 0 {
        let rest = le_bytes(n / 256, (width - 1) as nat);
        lemma_le(n / 256, (width - 1) as nat);
        assert(le_bytes(n, width).drop_first() =~= rest);
    }
}

proof fn lemma_le_len(n: nat, width: nat)
    ensures
        le_bytes(n, width).len() == width,
    decreases width,
{
    if width > 0 {
        lemma_le_len(n / 256, (width - 1) as nat);
    }
}

proof fn lemma_pow256()
    ensures
        pow256(4) == 0x1_0000_0000,
        pow256(8) == 0x1_0000_0000_0000_0000,
{
    reveal_with_fuel(pow256, 9);
}

pub proof fn lemma_header_len(session: u32, request: u32, body_len: nat)
    ensures
        header(session, request, body_len).len() == HEADER_SIZE,
{
    lemma_le_len(DAHUA_PROTO_DHIP as nat, 8);
    lemma_le_len(session as nat, 4);
    lemma_le_len(request as nat, 4);
    lemma_le_len(body_len, 8);
}

proof fn lemma_le_value_bound(s: Seq<u8>)
    ensures
        le_value(s) < pow256(s.len()),
    decreases s.len(),
{
    if s.len() > 0 {
        lemma_le_value_bound(s.drop_first());
    }
}

fn put_le(out: &mut Vec<u8>, n: u64, width: usize)
    ensures
        final(out)@ == old(out)@ + le_bytes(n as nat, width as nat),
{
    let ghost before = out@;
    let mut rest: u64 = n;
    let mut i: usize = 0;
    assert(before + le_bytes(n as nat, width as nat) =~= out@ + le_bytes(n as nat, width as nat));
    while i < width
        invariant
            i <= width,
            before + le_bytes(n as nat, width as nat) == out@ + le_bytes(
                rest as nat,
                (width - i) as nat,
            ),
        decreases width - i,
    {
        let ghost so_far = out@;
        let ghost following = le_bytes((rest / 256) as nat, (width - i - 1) as nat);
        out.push((rest % 256) as u8);
        assert(out@ + following =~= so_far + (seq![(rest % 256) as u8] + following));
        rest = rest / 256;
        i += 1;
    }
    assert(out@ + le_bytes(rest as nat, 0) =~= out@);
}

fn get_le(s: &[u8]) -> (n: u64)
    requires
        s@.len() == 8,
    ensures
        n == le_value(s@),
{
    let mut n: u64 = 0;
    let mut i: usize = 8;
    proof {
        lemma_pow256();
        assert(s@.skip(8).len() == 0);
    }
    while i > 0
        invariant
            i <= 8,
            s@.len() == 8,
            n == le_value(s@.skip(i as int)),
        decreases i,
    {
        i -= 1;
        proof {
            let rest = s@.skip(i as int);
            assert(rest.drop_first() =~= s@.skip(i + 1));
            lemma_le_value_bound(rest);
            reveal_with_fuel(pow256, 9);
        }
        n = s[i] as u64 + 256 * n;
    }
    assert(s@.skip(0) =~= s@);
    n
}

/// The header of a packet.
pub fn make_header(session: u32, request: u32, body_len: usize) -> (r: Vec<u8>)
    ensures
        r@ == header(session, request, body_len as nat),
        r@.len() == HEADER_SIZE,
{
    let mut r: Vec<u8> = Vec::new();
    put_le(&mut r, DAHUA_PROTO_DHIP, 8);
    put_le(&mut r, session as u64, 4);
    put_le(&mut r, request as u64, 4);
    put_le(&mut r, body_len as u64, 8);
    put_le(&mut r, body_len as u64, 8);
    proof {
        lemma_header_len(session, request, body_len as nat);
        assert(r@ =~= header(session, request, body_len as nat));
    }
    r
}

/// A received packet: its body, and how many of the received bytes it makes up.
#[derive(Debug)]
pub struct Packet {
    pub body: Vec<u8>,
    pub tail: usize,
}

/// Whether the end of the packet that the header announces can be counted.
pub fn is_countable(chunk: &Vec<u8>) -> (r: bool)
    ensures
        r == countable(chunk@),
{
    if chunk.len() < HEADER_SIZE {
        return true;
    }
    let bytes = chunk.as_slice();
    if get_le(slice_subrange(bytes, 0, 8)) != DAHUA_PROTO_DHIP {
        return true;
    }
    let len = get_le(slice_subrange(bytes, 24, 32)) as usize;
    len <= usize::MAX - HEADER_SIZE
}

/// The packet that received bytes begin with: `None` where it is not whole yet, an error where
/// the bytes are of some other protocol.
pub fn next_packet(chunk: &Vec<u8>) -> (r: Result<Option<Packet>, ()>)
    requires
        countable(chunk@),
    ensures
        match decoded(chunk@) {
            Decoded::Incomplete => r == Ok::<Option<Packet>, ()>(None),
            Decoded::Foreign => r is Err,
            Decoded::Packet { body, tail } => r matches Ok(Some(p)) && p.body@ == body && p.tail
                == tail,
        },
{
    if chunk.len() < HEADER_SIZE {
        return Ok(None);
    }
    let bytes = chunk.as_slice();
    let mark = get_le(slice_subrange(bytes, 0, 8));
    if mark != DAHUA_PROTO_DHIP {
        return Err(());
    }
    let len = get_le(slice_subrange(bytes, 24, 32)) as usize;
    let end = HEADER_SIZE + len;
    if chunk.len() < end {
        return Ok(None);
    }
    let body = copy_bytes(slice_subrange(bytes, HEADER_SIZE, end));
    let tail = if chunk.len() - end == HEADER_SIZE {
        end + HEADER_SIZE
    } else {
        end
    };
    Ok(Some(Packet { body, tail }))
}

fn copy_bytes(s: &[u8]) -> (r: Vec<u8>)
    ensures
        r@ == s@,
{
    let mut r: Vec<u8> = Vec::new();
    let mut i: usize = 0;
    while i < s.len()
        invariant
            i <= s.len(),
            r@ == s@.take(i as int),
        decreases s.len() - i,
    {
        r.push(s[i]);
        assert(s@.take(i + 1) =~= s@.take(i as int).push(s@[i as int]));
        i += 1;
    }
    assert(s@.take(i as int) =~= s@);
    r
}

/// Drops the bytes of a packet that has been dealt with.
pub fn drop_packet(chunk: &mut Vec<u8>, tail: usize)
    requires
        tail <= old(chunk)@.len(),
    ensures
        final(chunk)@ == old(chunk)@.skip(tail as int),
{
    let rest = copy_bytes(slice_subrange(chunk.as_slice(), tail, chunk.len()));
    assert(rest@ =~= chunk@.skip(tail as int));
    *chunk = rest;
}

proof fn lemma_packet_parts(session: u32, request: u32, body: Seq<u8>, rest: Seq<u8>)
    requires
        body.len() <= usize::MAX,
    ensures
        (packet(session, request, body) + rest).len() == HEADER_SIZE + body.len() + rest.len(),
        mark_of(packet(session, request, body) + rest) == DAHUA_PROTO_DHIP,
        body_len_of(packet(session, request, body) + rest) == body.len(),
        (packet(session, request, body) + rest).subrange(
            HEADER_SIZE as int,
            HEADER_SIZE + body.len(),
        ) == body,
        (packet(session, request, body) + rest).skip(HEADER_SIZE + body.len()) == rest,
{
    let chunk = packet(session, request, body) + rest;
    let n = body.len();
    let mark = le_bytes(DAHUA_PROTO_DHIP as nat, 8);
    let len = le_bytes(n, 8);
    lemma_pow256();
    lemma_header_len(session, request, n);
    lemma_le(DAHUA_PROTO_DHIP as nat, 8);
    lemma_le_len(session as nat, 4);
    lemma_le_len(request as nat, 4);
    lemma_le(n, 8);
    assert(chunk.subrange(0, 8) =~= mark);
    assert(chunk.subrange(24, 32) =~= len);
    assert(chunk.subrange(32, 32 + body.len() as int) =~= body);
    assert(chunk.skip(32 + body.len() as int) =~= rest);
}

/// A packet that was sent is read back, and what follows it is left over. What follows is not
/// exactly as long as a header: that much is dropped.
pub proof fn sent_packet_reads_back(session: u32, request: u32, body: Seq<u8>, rest: Seq<u8>)
    requires
        body.len() <= usize::MAX,
        rest.len() != HEADER_SIZE,
    ensures
        decoded(packet(session, request, body) + rest) == (Decoded::Packet {
            body,
            tail: HEADER_SIZE + body.len(),
        }),
        (packet(session, request, body) + rest).skip(HEADER_SIZE + body.len()) == rest,
{
    lemma_packet_parts(session, request, body, rest);
}

/// After a packet, bytes of exactly a header's length are dropped with it.
pub proof fn lone_header_is_dropped(session: u32, request: u32, body: Seq<u8>, rest: Seq<u8>)
    requires
        body.len() <= usize::MAX,
        rest.len() == HEADER_SIZE,
    ensures
        decoded(packet(session, request, body) + rest) == (Decoded::Packet {
            body,
            tail: (packet(session, request, body) + rest).len() as int,
        }),
{
    lemma_packet_parts(session, request, body, rest);
}

/// While bytes of a packet are still missing, nothing is read.
pub proof fn partial_packet_waits(session: u32, request: u32, body: Seq<u8>, n: int)
    requires
        body.len() <= usize::MAX,
        0 <= n < packet(session, request, body).len(),
    ensures
        decoded(packet(session, request, body).take(n)) == Decoded::Incomplete,
{
    let whole = packet(session, request, body);
    let none = Seq::<u8>::empty();
    lemma_packet_parts(session, request, body, none);
    assert(whole + none =~= whole);
    let part = whole.take(n);
    if n >= HEADER_SIZE {
        assert(part.subrange(0, 8) =~= whole.subrange(0, 8));
        assert(part.subrange(24, 32) =~= whole.subrange(24, 32));
    }
}

/// The bodies of the packets that received bytes begin with, one after the other.
pub open spec fn bodies(chunk: Seq<u8>) -> Seq<Seq<u8>>
    decreases chunk.len(),
{
    match decoded(chunk) {
        Decoded::Packet { body, tail } => if 0 < tail <= chunk.len() {
            seq![body] + bodies(chunk.skip(tail))
        } else {
            Seq::empty()
        },
        _ => Seq::empty(),
    }
}

/// The bytes of packets sent one after the other; of each its session, request and body.
pub open spec fn sent(packets: Seq<(u32, u32, Seq<u8>)>) -> Seq<u8>
    decreases packets.len(),
{
    if packets.len() == 0 {
        Seq::empty()
    } else {
        packet(packets[0].0, packets[0].1, packets[0].2) + sent(packets.drop_first())
    }
}

/// Packets that were sent one after the other and have all arrived are read back in order. No
/// body is empty: a packet without a body is no more than a header.
pub proof fn sent_packets_read_back(packets: Seq<(u32, u32, Seq<u8>)>)
    requires
        forall|i: int| 0 <= i < packets.len() ==> 0 < (#[trigger] packets[i]).2.len() <= usize::MAX,
    ensures
        bodies(sent(packets)) == Seq::new(packets.len(), |i: int| packets[i].2),
    decreases packets.len(),
{
    let expected = Seq::new(packets.len(), |i: int| packets[i].2);
    if packets.len() == 0 {
        assert(bodies(sent(packets)) =~= expected);
    } else {
        let rest = packets.drop_first();
        assert forall|i: int| 0 <= i < rest.len() implies 0 < (#[trigger] rest[i]).2.len()
            <= usize::MAX by {
            assert(rest[i] == packets[i + 1]);
        }
        sent_packets_read_back(rest);
        let (session, request, body) = packets[0];
        if rest.len() > 0 {
            assert(rest[0].2.len() > 0);
            lemma_header_len(rest[0].0, rest[0].1, rest[0].2.len());
        }
        sent_packet_reads_back(session, request, body, sent(rest));
        lemma_header_len(session, request, body.len());
        assert(bodies(sent(packets)) =~= expected);
    }
}

} // verus!
