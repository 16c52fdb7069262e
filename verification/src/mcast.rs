use vstd::prelude::*;
use crate::bytes::{H, L, high_byte, low_byte};

verus! {

/// Length of the header of a multicast packet.
pub const HEADER_LENGTH: usize = 32;

/// The two bytes of `v`, most significant first.
pub open spec fn be16(v: u16) -> Seq<u8> {
    seq![high_byte(v), low_byte(v)]
}

/// A multicast packet: start code, total length (modulo 2^16), sequence number
/// and process (each 16-bit big-endian), factory device id, vendor string and
/// opcode (8 bytes each), then the content.
pub open spec fn packet_bytes(
    start_code: u16,
    seqnum: u16,
    process: u16,
    factory_device_id: Seq<u8>,
    vendor: Seq<u8>,
    opcode: Seq<u8>,
    content: Seq<u8>,
) -> Seq<u8> {
    let total = ((content.len() + HEADER_LENGTH) % 65536) as u16;
    be16(start_code) + be16(total) + be16(seqnum) + be16(process) + factory_device_id + vendor + opcode
        + content
}

/// Write `bytes` into `buffer` from `pos`.
fn put_bytes(buffer: &mut [u8], pos: usize, bytes: &[u8])
    requires
        pos + bytes@.len() <= old(buffer)@.len(),
    ensures
        final(buffer)@.len() == old(buffer)@.len(),
        forall|j: int| 0 <= j < pos ==> final(buffer)@[j] == old(buffer)@[j],
        forall|j: int| pos + bytes@.len() <= j < final(buffer)@.len() ==> final(buffer)@[j] == old(buffer)@[j],
        final(buffer)@.subrange(pos as int, pos + bytes@.len()) == bytes@,
{
    let n = bytes.len();
    let blen = buffer.len();
    let mut i: usize = 0;
    while i < n
        invariant
            blen == buffer@.len(),
            n == bytes@.len(),
            i <= n,
            pos + n <= buffer@.len(),
            buffer@.len() == old(buffer)@.len(),
            forall|j: int| 0 <= j < pos ==> buffer@[j] == old(buffer)@[j],
            forall|j: int| pos + n <= j < buffer@.len() ==> buffer@[j] == old(buffer)@[j],
            forall|j: int| pos <= j < pos + i ==> buffer@[j] == bytes@[j - pos],
        decreases n - i,
    {
        buffer[pos + i] = bytes[i];
        i = i + 1;
    }
    assert(buffer@.subrange(pos as int, pos + n) =~= bytes@);
}

/// Write a multicast packet at the start of `buffer` and return the written part.
pub fn make_packet<'a>(
    buffer: &'a mut [u8],
    start_code: u16,
    seqnum: u16,
    process: u16,
    factory_device_id: [u8; 8],
    vendor_str: [u8; 8],
    opcode: [u8; 8],
    content: &[u8],
) -> (r: &'a [u8])
    requires
        content@.len() + HEADER_LENGTH <= 65536,
        content@.len() + HEADER_LENGTH <= old(buffer)@.len(),
    ensures
        r@ == packet_bytes(start_code, seqnum, process, factory_device_id@, vendor_str@, opcode@, content@),
{
    let total_len = content.len() + HEADER_LENGTH;
    let total16: u16 = if total_len == 65536 { 0 } else { total_len as u16 };
    let header: [u8; 8] = [
        H(start_code), L(start_code), H(total16), L(total16),
        H(seqnum), L(seqnum), H(process), L(process),
    ];
    put_bytes(buffer, 0, header.as_slice());
    put_bytes(buffer, 8, factory_device_id.as_slice());
    put_bytes(buffer, 16, vendor_str.as_slice());
    put_bytes(buffer, 24, opcode.as_slice());
    put_bytes(buffer, 32, content);
    let ghost written = buffer@;
    let out: &'a [u8] = buffer;
    let r = &out[0..total_len];
    proof {
        assert(written.subrange(0, 8) == header@);
        assert(written.subrange(8, 16) == factory_device_id@);
        assert(written.subrange(16, 24) == vendor_str@);
        assert(written.subrange(24, 32) == opcode@);
        assert(written.subrange(32, total_len as int) == content@);
        assert(total16 == ((content@.len() + HEADER_LENGTH) % 65536) as u16);
        assert(r@ =~= packet_bytes(start_code, seqnum, process, factory_device_id@, vendor_str@, opcode@, content@));
    }
    r
}

/// A message for the multicast control channel.
pub struct MulticastMessage {
    pub start_code: u16,
    pub opcode: [u8; 8],
    pub content: Vec<u8>,
}

/// Whether bit `c` of `x` is set.
pub open spec fn bit_set(x: u8, c: nat) -> bool {
    (x >> (c as u8)) & 1u8 == 1u8
}

/// The number of bytes of a channel mask that covers `channels` (at least one).
pub open spec fn mask_len(channels: Seq<usize>) -> nat
    decreases channels.len(),
{
    if channels.len() == 0 {
        1
    } else {
        let rest = mask_len(channels.drop_last());
        let need = (channels.last() / 8 + 1) as nat;
        if need > rest { need } else { rest }
    }
}

/// `content` is a channel mask for `channels`: the mask length (16-bit big-endian)
/// followed by the mask, in which bit `c` of byte `k` is set exactly when channel
/// `8 * k + c` is among `channels`.
pub open spec fn is_channel_mask(content: Seq<u8>, channels: Seq<usize>) -> bool {
    let m = mask_len(channels);
    &&& content.len() == m + 2
    &&& m <= u16::MAX
    &&& content[0] == high_byte(m as u16)
    &&& content[1] == low_byte(m as u16)
    &&& forall|j: int, c: nat| 2 <= j < m + 2 && c < 8 ==>
        (#[trigger] bit_set(content[j], c) <==> channels.contains((8 * (j - 2) + c) as usize))
}

proof fn lemma_bit_of_or(x: u8, b: u8, c: u8)
    requires
        b < 8,
        c < 8,
    ensures
        ((x | (1u8 << b)) >> c) & 1u8 == if b == c { 1u8 } else { (x >> c) & 1u8 },
{
    assert(((x | (1u8 << b)) >> c) & 1u8 == if b == c { 1u8 } else { (x >> c) & 1u8 }) by (bit_vector)
        requires
            b < 8,
            c < 8,
    ;
}

proof fn lemma_zero_bits(c: u8)
    requires
        c < 8,
    ensures
        (0u8 >> c) & 1u8 == 0u8,
{
    assert((0u8 >> c) & 1u8 == 0u8) by (bit_vector);
}

proof fn lemma_mask_len(s: Seq<usize>)
    ensures
        mask_len(s) >= 1,
        forall|w: int| 0 <= w < s.len() ==> #[trigger] s[w] / 8 < mask_len(s),
    decreases s.len(),
{
    if s.len() > 0 {
        lemma_mask_len(s.drop_last());
        assert forall|w: int| 0 <= w < s.len() implies #[trigger] s[w] / 8 < mask_len(s) by {
            if w < s.len() - 1 {
                assert(s[w] == s.drop_last()[w]);
            }
        }
    }
}

proof fn lemma_contains_push(prev: Seq<usize>, ch: usize, v: usize)
    ensures
        prev.push(ch).contains(v) <==> (prev.contains(v) || v == ch),
{
    let next = prev.push(ch);
    if prev.contains(v) {
        let w = choose|w: int| 0 <= w < prev.len() && prev[w] == v;
        assert(next[w] == prev[w]);
    }
    if v == ch {
        assert(next[prev.len() as int] == ch);
    }
    if next.contains(v) && !prev.contains(v) {
        let w = choose|w: int| 0 <= w < next.len() && next[w] == v;
        if w < prev.len() {
            assert(prev[w] == next[w]);
        }
    }
}

/// The notification that the given channels changed: start code 0xffff, opcode
/// `07 2a 01 02 00 00 00 00` and a channel mask as content.
pub fn make_channel_change_notification(channel_indices: &Vec<usize>) -> (msg: MulticastMessage)
    requires
        forall|i: int| 0 <= i < channel_indices@.len() ==> #[trigger] channel_indices@[i] / 8 < u16::MAX,
    ensures
        msg.start_code == 0xffff,
        msg.opcode@ == seq![0x07u8, 0x2au8, 1u8, 2u8, 0u8, 0u8, 0u8, 0u8],
        is_channel_mask(msg.content@, channel_indices@),
{
    let mut content: Vec<u8> = vec![0u8, 0u8, 0u8];
    let offset: usize = 2;
    let n = channel_indices.len();
    let mut i: usize = 0;
    proof {
        assert forall|j: int, c: nat| 2 <= j < content@.len() && c < 8 implies
            (#[trigger] bit_set(content@[j], c)
                <==> channel_indices@.take(0).contains((8 * (j - 2) + c) as usize)) by {
            lemma_zero_bits(c as u8);
        }
    }
    while i < n
        invariant
            n == channel_indices@.len(),
            i <= n,
            forall|j: int| 0 <= j < n ==> #[trigger] channel_indices@[j] / 8 < u16::MAX,
            content@.len() == mask_len(channel_indices@.take(i as int)) + 2,
            content@.len() >= 3,
            offset == 2,
            mask_len(channel_indices@.take(i as int)) <= u16::MAX,
            content@[0] == 0,
            content@[1] == 0,
            forall|j: int, c: nat| 2 <= j < content@.len() && c < 8 ==>
                (#[trigger] bit_set(content@[j], c)
                    <==> channel_indices@.take(i as int).contains((8 * (j - 2) + c) as usize)),
        decreases n - i,
    {
        let ch = channel_indices[i];
        let byte = ch / 8;
        let bit = ch % 8;
        let ghost before = content@;
        let ghost prev = channel_indices@.take(i as int);
        let ghost next = channel_indices@.take(i + 1);
        assert(next.drop_last() =~= prev);
        assert(next.last() == ch);
        if byte >= content.len() - offset {
            content.resize(byte + offset + 1, 0);
            assert forall|j: int, c: nat| before.len() <= j < content@.len() && c < 8 implies
                !#[trigger] bit_set(content@[j], c) by {
                lemma_zero_bits(c as u8);
            }
        }
        let ghost mid = content@;
        let old_byte = content[byte + offset];
        content.set(byte + offset, old_byte | (1u8 << (bit as u8)));
        i = i + 1;
        proof {
            assert forall|j: int, c: nat| 2 <= j < content@.len() && c < 8 implies
                (#[trigger] bit_set(content@[j], c)
                    <==> next.contains((8 * (j - 2) + c) as usize)) by {
                let v = (8 * (j - 2) + c) as usize;
                lemma_mask_len(prev);
                assert(next =~= prev.push(ch));
                lemma_contains_push(prev, ch, v);
                assert(ch == 8 * byte + bit);
                assert(v / 8 == j - 2 && v % 8 == c);
                // what the old byte says
                if j < before.len() {
                    assert(mid[j] == before[j]);
                    assert(bit_set(before[j], c) <==> prev.contains(v));
                } else {
                    assert(!bit_set(mid[j], c));
                    if prev.contains(v) {
                        let w = choose|w: int| 0 <= w < prev.len() && prev[w] == v;
                        assert(prev[w] / 8 < mask_len(prev));
                        assert(false);
                    }
                }
                assert(bit_set(mid[j], c) <==> prev.contains(v));
                if j == byte + 2 {
                    lemma_bit_of_or(old_byte, bit as u8, c as u8);
                    assert(content@[j] == old_byte | (1u8 << (bit as u8)));
                    assert(old_byte == mid[j]);
                    if c == bit {
                        assert(v == ch);
                    } else {
                        assert(v != ch);
                    }
                } else {
                    assert(content@[j] == mid[j]);
                    assert(v != ch);
                }
            }
        }
    }
    assert(channel_indices@.take(n as int) =~= channel_indices@);
    let mask_len = content.len() - 2;
    let mask16 = mask_len as u16;
    content.set(0, H(mask16));
    content.set(1, L(mask16));
    MulticastMessage { start_code: 0xffff, opcode: [0x07, 0x2a, 1, 2, 0, 0, 0, 0], content }
}

} // verus!
