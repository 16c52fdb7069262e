use vstd::prelude::*;
use bytebuffer::ByteBuffer;
use std::str::Utf8Error;
use vstd::string::StringSliceAdditionalSpecFns;

verus! {

/// The high byte of `u`.
pub open spec fn high_byte(u: u16) -> u8 {
    (u / 256) as u8
}

/// The low byte of `u`.
pub open spec fn low_byte(u: u16) -> u8 {
    (u % 256) as u8
}

/// The 16-bit value with high byte `h` and low byte `l`.
pub open spec fn u16_from_bytes(h: u8, l: u8) -> u16 {
    (h * 256 + l) as u16
}

/// High byte of a 16-bit value.
#[allow(non_snake_case)]
pub fn H(u: u16) -> (r: u8)
    ensures
        r == high_byte(u),
{
    assert((u >> 8u16) as u8 == (u / 256) as u8) by (bit_vector);
    (u >> 8) as u8
}

/// Low byte of a 16-bit value.
#[allow(non_snake_case)]
pub fn L(u: u16) -> (r: u8)
    ensures
        r == low_byte(u),
{
    assert(u as u8 == (u % 256) as u8) by (bit_vector);
    u as u8
}

/// Assemble a 16-bit value from its high and low bytes.
pub fn make_u16(h: u8, l: u8) -> (r: u16)
    ensures
        r == u16_from_bytes(h, l),
{
    assert(((h as u16) << 8u16) | (l as u16) == (h * 256 + l) as u16) by (bit_vector);
    ((h as u16) << 8) | (l as u16)
}

/// Splitting a value into bytes and joining them again gives the value back,
/// and joining two bytes and splitting the result gives the bytes back.
pub proof fn lemma_bytes_roundtrip(v: u16, h: u8, l: u8)
    ensures
        u16_from_bytes(high_byte(v), low_byte(v)) == v,
        high_byte(u16_from_bytes(h, l)) == h,
        low_byte(u16_from_bytes(h, l)) == l,
{
}

/// `buffer` with the bytes at `offset .. offset + data.len()` replaced by `data`.
pub open spec fn splice(buffer: Seq<u8>, offset: int, data: Seq<u8>) -> Seq<u8> {
    buffer.subrange(0, offset) + data + buffer.subrange(offset + data.len(), buffer.len() as int)
}

/// The number of bytes of `s` that `write_str_to_buffer` copies.
pub open spec fn copied_len(max_len: usize, s: &str) -> int {
    if max_len < s.spec_bytes().len() { max_len as int } else { s.spec_bytes().len() as int }
}

/// The bytes of `s` that `write_str_to_buffer` copies.
pub open spec fn copied_bytes(max_len: usize, s: &str) -> Seq<u8> {
    s.spec_bytes().subrange(0, copied_len(max_len, s))
}

/// Copy the first `min(max_len, s.len())` bytes of `s` into `buffer` at `offset`.
pub fn write_str_to_buffer(buffer: &mut [u8], offset: usize, max_len: usize, s: &str)
    requires
        offset + copied_len(max_len, s) <= old(buffer)@.len(),
    ensures
        final(buffer)@ == splice(old(buffer)@, offset as int, copied_bytes(max_len, s)),
{
    let src = s.as_bytes();
    let len = if max_len < src.len() { max_len } else { src.len() };
    let blen = buffer.len();
    let mut i: usize = 0;
    while i < len
        invariant
            blen == buffer@.len(),
            len == copied_len(max_len, s),
            src@ == s.spec_bytes(),
            i <= len,
            offset + len <= buffer@.len(),
            buffer@.len() == old(buffer)@.len(),
            forall|j: int|
                0 <= j < buffer@.len() && !(offset <= j < offset + i) ==> buffer@[j] == old(buffer)@[j],
            forall|j: int| offset <= j < offset + i ==> buffer@[j] == src@[j - offset],
        decreases len - i,
    {
        buffer[offset + i] = src[i];
        i = i + 1;
    }
    assert(buffer@ =~= splice(old(buffer)@, offset as int, s.spec_bytes().subrange(0, len as int)));
}

/// Why a zero-terminated string could not be read from a buffer.
#[derive(Debug, PartialEq, Eq)]
pub enum ReadStrError {
    /// The offset lies at or beyond the end of the buffer.
    UnexpectedEof,
    /// The bytes before the terminator are not valid UTF-8.
    InvalidUtf8,
}

/// Index of the first zero byte of `s`, or `s.len()` when there is none.
pub open spec fn terminator_index(s: Seq<u8>) -> int
    decreases s.len(),
{
    if s.len() == 0 {
        0
    } else if s[0] == 0 {
        0
    } else {
        1 + terminator_index(s.drop_first())
    }
}

/// The bytes of `buffer` from `offset` up to (not including) the first zero byte
/// after it, or up to the end of the buffer.
pub open spec fn terminated_bytes(buffer: Seq<u8>, offset: int) -> Seq<u8> {
    let rest = buffer.subrange(offset, buffer.len() as int);
    rest.subrange(0, terminator_index(rest))
}

proof fn lemma_terminator_index(s: Seq<u8>)
    ensures
        0 <= terminator_index(s) <= s.len(),
        forall|j: int| 0 <= j < terminator_index(s) ==> s[j] != 0,
        terminator_index(s) < s.len() ==> s[terminator_index(s)] == 0,
    decreases s.len(),
{
    if s.len() > 0 && s[0] != 0 {
        lemma_terminator_index(s.drop_first());
        assert forall|j: int| 0 <= j < terminator_index(s) implies s[j] != 0 by {
            if j > 0 {
                assert(s[j] == s.drop_first()[j - 1]);
            }
        }
    }
}

/// The first index `i` in `s` with `s[i] == 0` is `terminator_index(s)`.
proof fn lemma_terminator_index_unique(s: Seq<u8>, i: int)
    requires
        0 <= i <= s.len(),
        forall|j: int| 0 <= j < i ==> s[j] != 0,
        i < s.len() ==> s[i] == 0,
    ensures
        terminator_index(s) == i,
    decreases s.len(),
{
    if s.len() > 0 && s[0] != 0 {
        lemma_terminator_index_unique(s.drop_first(), i - 1);
    }
}

/// The error type of `std::str::from_utf8`.
#[verifier::external_type_specification]
#[verifier::external_body]
pub struct ExUtf8Error(Utf8Error);

/// `std::str::from_utf8`: the slice as a string slice when it is valid UTF-8,
/// an error otherwise.
#[verifier::external_body]
fn str_from_utf8(v: &[u8]) -> (r: Result<&str, Utf8Error>)
    ensures
        (r is Ok) <==> vstd::utf8::valid_utf8(v@),
        (r matches Ok(s) ==> s.spec_bytes() == v@),
{
    std::str::from_utf8(v)
}

/// `offset` lies inside `buffer` and the string found there is not valid UTF-8.
pub open spec fn invalid_at(buffer: Seq<u8>, offset: usize) -> bool {
    offset < buffer.len() && !vstd::utf8::valid_utf8(terminated_bytes(buffer, offset as int))
}

/// Read the zero-terminated UTF-8 string that starts at `offset` in `buffer`.
/// A string without terminator runs to the end of the buffer.
pub fn read_0term_str_from_buffer(buffer: &[u8], offset: usize) -> (r: Result<&str, ReadStrError>)
    ensures
        offset >= buffer@.len() <==> r == Err::<&str, ReadStrError>(ReadStrError::UnexpectedEof),
        r == Err::<&str, ReadStrError>(ReadStrError::InvalidUtf8) <==> invalid_at(buffer@, offset),
        (r matches Ok(s) ==> s.spec_bytes() == terminated_bytes(buffer@, offset as int)),
{
    if offset >= buffer.len() {
        return Err(ReadStrError::UnexpectedEof);
    }
    let rest = &buffer[offset..buffer.len()];
    let mut ntpos: usize = 0;
    while ntpos < rest.len() && rest[ntpos] != 0
        invariant
            ntpos <= rest@.len(),
            forall|j: int| 0 <= j < ntpos ==> rest@[j] != 0,
        decreases rest@.len() - ntpos,
    {
        ntpos = ntpos + 1;
    }
    proof {
        lemma_terminator_index_unique(rest@, ntpos as int);
    }
    match str_from_utf8(&rest[0..ntpos]) {
        Ok(s) => Ok(s),
        Err(_) => Err(ReadStrError::InvalidUtf8),
    }
}

/// The growable byte buffer of the `bytebuffer` crate.
#[verifier::external_type_specification]
#[verifier::external_body]
pub struct ExByteBuffer(ByteBuffer);

/// The bytes that a `ByteBuffer` holds.
pub uninterp spec fn bytebuffer_data(b: ByteBuffer) -> Seq<u8>;

/// The write cursor of a `ByteBuffer`.
pub uninterp spec fn bytebuffer_wpos(b: ByteBuffer) -> nat;

/// Whether a `ByteBuffer` has a partly written byte from bit-level writes, which
/// the next byte-level write skips over.
pub uninterp spec fn bytebuffer_bits_pending(b: ByteBuffer) -> bool;

/// Where the next byte-level write into `b` starts.
pub open spec fn write_start(b: ByteBuffer) -> nat {
    bytebuffer_wpos(b) + if bytebuffer_bits_pending(b) { 1nat } else { 0nat }
}

/// The data of a buffer after `bytes` were written at `start`: the old data, grown
/// with zeros where needed, with `bytes` at `start .. start + bytes.len()`.
pub open spec fn written_data(old_data: Seq<u8>, start: int, bytes: Seq<u8>) -> Seq<u8> {
    let end = start + bytes.len();
    let len = if end > old_data.len() { end } else { old_data.len() as int };
    Seq::new(len as nat, |i: int|
        if start <= i < end { bytes[i - start] }
        else if i < old_data.len() { old_data[i] }
        else { 0u8 })
}

/// `ByteBuffer::get_wpos`: the write cursor.
#[verifier::external_body]
fn bytebuffer_get_wpos(b: &ByteBuffer) -> (r: usize)
    ensures
        r == bytebuffer_wpos(*b),
{
    b.get_wpos()
}

/// `ByteBuffer::write_bytes`: write `bytes` at the write cursor (after skipping a
/// partly written byte), growing the buffer as needed, and advance the cursor.
#[verifier::external_body]
fn bytebuffer_write_bytes(b: &mut ByteBuffer, bytes: &[u8])
    requires
        write_start(*old(b)) + bytes@.len() <= usize::MAX,
    ensures
        bytebuffer_data(*final(b)) == written_data(bytebuffer_data(*old(b)), write_start(*old(b)) as int, bytes@),
        bytebuffer_wpos(*final(b)) == write_start(*old(b)) + bytes@.len(),
        !bytebuffer_bits_pending(*final(b)),
{
    b.write_bytes(bytes)
}

/// `ByteBuffer::write_u8`: write one byte at the write cursor, as `write_bytes` does.
#[verifier::external_body]
fn bytebuffer_write_u8(b: &mut ByteBuffer, val: u8)
    requires
        write_start(*old(b)) + 1 <= usize::MAX,
    ensures
        bytebuffer_data(*final(b)) == written_data(bytebuffer_data(*old(b)), write_start(*old(b)) as int, seq![val]),
        bytebuffer_wpos(*final(b)) == write_start(*old(b)) + 1,
        !bytebuffer_bits_pending(*final(b)),
{
    b.write_u8(val)
}

/// The write cursor of `bytes`, against which a caller can test what the writes
/// below require (a byte-level write starts at most one byte after it).
pub fn write_cursor(bytes: &ByteBuffer) -> (r: usize)
    ensures
        r == bytebuffer_wpos(*bytes),
        write_start(*bytes) <= r + 1,
{
    bytebuffer_get_wpos(bytes)
}

/// Append `s` and a zero terminator to `bytes`; return the offset where `s` starts.
pub fn write_0term_str_to_bytebuffer(bytes: &mut ByteBuffer, s: &str) -> (offset: u16)
    requires
        bytebuffer_wpos(*old(bytes)) <= u16::MAX,
        write_start(*old(bytes)) + s.spec_bytes().len() + 1 <= usize::MAX,
    ensures
        offset == bytebuffer_wpos(*old(bytes)),
        bytebuffer_data(*final(bytes)) == written_data(
            bytebuffer_data(*old(bytes)), write_start(*old(bytes)) as int, s.spec_bytes().push(0u8)),
        bytebuffer_wpos(*final(bytes)) == write_start(*old(bytes)) + s.spec_bytes().len() + 1,
        !bytebuffer_bits_pending(*final(bytes)),
{
    let offset = bytebuffer_get_wpos(bytes);
    let ghost start = write_start(*bytes);
    let ghost data0 = bytebuffer_data(*bytes);
    bytebuffer_write_bytes(bytes, s.as_bytes());
    bytebuffer_write_u8(bytes, 0);
    assert(bytebuffer_data(*bytes) =~= written_data(data0, start as int, s.spec_bytes().push(0u8)));
    offset as u16
}

/// `write_0term_str_to_bytebuffer` where its offset fits in 16 bits: `None`, with
/// the buffer unchanged, when the write cursor is past `u16::MAX` (or the string
/// is too long to be written after it at all).
pub fn try_write_0term_str_to_bytebuffer(bytes: &mut ByteBuffer, s: &str) -> (r: Option<u16>)
    ensures
        r is None <==> bytebuffer_wpos(*old(bytes)) > u16::MAX || s.spec_bytes().len() > usize::MAX - 0x1_0001,
        r is None ==> *final(bytes) == *old(bytes),
        (r matches Some(offset) ==> {
            &&& offset == bytebuffer_wpos(*old(bytes))
            &&& bytebuffer_data(*final(bytes)) == written_data(
                bytebuffer_data(*old(bytes)), write_start(*old(bytes)) as int, s.spec_bytes().push(0u8))
            &&& bytebuffer_wpos(*final(bytes)) == write_start(*old(bytes)) + s.spec_bytes().len() + 1
            &&& !bytebuffer_bits_pending(*final(bytes))
        }),
{
    if bytebuffer_get_wpos(bytes) > u16::MAX as usize || s.as_bytes().len() > usize::MAX - 0x1_0001 {
        None
    } else {
        Some(write_0term_str_to_bytebuffer(bytes, s))
    }
}

/// Like `write_0term_str_to_bytebuffer` for `Some(s)`; writes nothing and returns 0
/// for `None`.
pub fn write_0term_str_or_0_to_bytebuffer(bytes: &mut ByteBuffer, s: Option<&str>) -> (offset: u16)
    requires
        s is Some ==> bytebuffer_wpos(*old(bytes)) <= u16::MAX,
        s is Some ==> write_start(*old(bytes)) + s->0.spec_bytes().len() + 1 <= usize::MAX,
    ensures
        s is None ==> offset == 0 && *final(bytes) == *old(bytes),
        s is Some ==> offset == bytebuffer_wpos(*old(bytes)),
        s is Some ==> bytebuffer_data(*final(bytes)) == written_data(
            bytebuffer_data(*old(bytes)), write_start(*old(bytes)) as int, s->0.spec_bytes().push(0u8)),
        s is Some ==> bytebuffer_wpos(*final(bytes)) == write_start(*old(bytes)) + s->0.spec_bytes().len() + 1,
        s is Some ==> !bytebuffer_bits_pending(*final(bytes)),
{
    match s {
        Some(s) => write_0term_str_to_bytebuffer(bytes, s),
        None => 0,
    }
}

/// The smallest multiple of `alignment` that is at least `x`.
pub open spec fn round_up(x: nat, alignment: nat) -> nat
    recommends
        alignment > 0,
{
    if x % alignment == 0 { x } else { (x + (alignment - x % alignment)) as nat }
}

proof fn lemma_round_up(x: nat, a: nat)
    requires
        a > 0,
    ensures
        round_up(x, a) % a == 0,
        x <= round_up(x, a) < x + a,
        forall|k: nat| x <= k < round_up(x, a) ==> #[trigger] (k % a) != 0,
{
    let q = x / a;
    let r = x % a;
    vstd::arithmetic::div_mod::lemma_fundamental_div_mod(x as int, a as int);
    if r != 0 {
        assert(x + (a - r) == (q + 1) * a) by (nonlinear_arith)
            requires
                x == a * q + r,
        ;
        vstd::arithmetic::div_mod::lemma_mod_multiples_basic((q + 1) as int, a as int);
        assert forall|k: nat| x <= k < round_up(x, a) implies #[trigger] (k % a) != 0 by {
            assert(k == q * a + (r + (k - x))) by (nonlinear_arith)
                requires
                    x == a * q + r,
            ;
            vstd::arithmetic::div_mod::lemma_fundamental_div_mod_converse(
                k as int, a as int, q as int, r + (k - x));
        }
    }
}

/// Write zero bytes until the write cursor is a multiple of `alignment`.
pub fn align_wpos(bytes: &mut ByteBuffer, alignment: usize)
    requires
        alignment > 0,
        write_start(*old(bytes)) + alignment + 1 <= usize::MAX,
    ensures
        bytebuffer_wpos(*old(bytes)) % (alignment as nat) == 0 ==> *final(bytes) == *old(bytes),
        bytebuffer_wpos(*old(bytes)) % (alignment as nat) != 0 ==> {
            let start = write_start(*old(bytes));
            let end = round_up(start + 1, alignment as nat);
            &&& bytebuffer_wpos(*final(bytes)) == end
            &&& bytebuffer_data(*final(bytes)) == written_data(
                bytebuffer_data(*old(bytes)), start as int, Seq::new((end - start) as nat, |i: int| 0u8))
            &&& !bytebuffer_bits_pending(*final(bytes))
        },
        bytebuffer_wpos(*final(bytes)) % (alignment as nat) == 0,
{
    let ghost start = write_start(*bytes);
    let ghost data0 = bytebuffer_data(*bytes);
    let ghost end = round_up(start + 1, alignment as nat);
    if bytebuffer_get_wpos(bytes) % alignment == 0 {
        return;
    }
    bytebuffer_write_u8(bytes, 0);
    proof {
        lemma_round_up(start + 1, alignment as nat);
    }
    while bytebuffer_get_wpos(bytes) % alignment != 0
        invariant
            alignment > 0,
            start + 1 <= bytebuffer_wpos(*bytes) <= end,
            end <= start + alignment,
            end % (alignment as nat) == 0,
            forall|k: nat| start + 1 <= k < end ==> #[trigger] (k % (alignment as nat)) != 0,
            end + 1 <= usize::MAX,
            !bytebuffer_bits_pending(*bytes),
            bytebuffer_data(*bytes) == written_data(
                data0, start as int, Seq::new((bytebuffer_wpos(*bytes) - start) as nat, |i: int| 0u8)),
        decreases end - bytebuffer_wpos(*bytes),
    {
        let ghost w = bytebuffer_wpos(*bytes);
        bytebuffer_write_u8(bytes, 0);
        assert(bytebuffer_data(*bytes) =~= written_data(
            data0, start as int, Seq::new((w + 1 - start) as nat, |i: int| 0u8)));
    }
}

} // verus!
