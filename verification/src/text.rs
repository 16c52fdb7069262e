use vstd::prelude::*;
use vstd::string::StringSliceAdditionalSpecFns;

verus! {

// ---------------------------------------------------------------------------
// Rendering numbers as text
// ---------------------------------------------------------------------------

/// The ASCII decimal digit for `d` (`0 <= d < 10`).
pub open spec fn digit_char(d: nat) -> char {
    ((d + 48) as u8) as char
}

/// The decimal representation of `n`, without sign or leading zeros.
pub open spec fn decimal_text(n: nat) -> Seq<char>
    decreases n,
{
    if n < 10 {
        seq![digit_char(n)]
    } else {
        decimal_text(n / 10).push(digit_char(n % 10))
    }
}

/// The lower-case hexadecimal digit for `d` (`0 <= d < 16`).
pub open spec fn hex_digit_char(d: nat) -> char {
    if d < 10 {
        ((d + 48) as u8) as char
    } else {
        ((d - 10 + 97) as u8) as char
    }
}

/// The lowest `width` hexadecimal digits of `n`, most significant first.
pub open spec fn hex_padded_text(n: nat, width: nat) -> Seq<char>
    decreases width,
{
    if width == 0 {
        Seq::empty()
    } else {
        hex_padded_text(n / 16, (width - 1) as nat).push(hex_digit_char(n % 16))
    }
}

/// Two lower-case hexadecimal digits per byte, as the `hex` crate encodes.
pub open spec fn hex_text(bytes: Seq<u8>) -> Seq<char>
    decreases bytes.len(),
{
    if bytes.len() == 0 {
        Seq::empty()
    } else {
        seq![hex_digit_char((bytes[0] / 16) as nat), hex_digit_char((bytes[0] % 16) as nat)]
            + hex_text(bytes.drop_first())
    }
}

/// `String::push`: append one character.
#[verifier::external_body]
pub(crate) fn push_char(s: &mut String, c: char)
    ensures
        final(s)@ == old(s)@.push(c),
{
    s.push(c)
}

/// Append the decimal representation of `n` to `s`.
pub fn push_decimal(s: &mut String, n: u64)
    ensures
        final(s)@ == old(s)@ + decimal_text(n as nat),
    decreases n,
{
    if n >= 10 {
        push_decimal(s, n / 10);
    }
    let d = (n % 10) as u8;
    push_char(s, (d + 48) as char);
    assert(final(s)@ =~= old(s)@ + decimal_text(n as nat)) by {
        if n < 10 {
            assert(decimal_text(n as nat) == seq![digit_char(n as nat)]);
        }
    };
}

/// The decimal representation of `n` as a new string.
pub fn decimal_string(n: u64) -> (r: String)
    ensures
        r@ == decimal_text(n as nat),
{
    let mut s = String::new();
    push_decimal(&mut s, n);
    assert(s@ =~= decimal_text(n as nat));
    s
}

/// The character for hexadecimal digit `d`.
fn hex_digit(d: u8) -> (c: char)
    requires
        d < 16,
    ensures
        c == hex_digit_char(d as nat),
{
    if d < 10 {
        (d + 48) as char
    } else {
        (d - 10 + 97) as char
    }
}

/// Append the lowest `width` hexadecimal digits of `n`, zero-padded.
pub fn push_hex_padded(s: &mut String, n: u64, width: usize)
    ensures
        final(s)@ == old(s)@ + hex_padded_text(n as nat, width as nat),
    decreases width,
{
    if width > 0 {
        push_hex_padded(s, n / 16, width - 1);
        let d = (n % 16) as u8;
        push_char(s, hex_digit(d));
        assert(final(s)@ =~= old(s)@ + hex_padded_text(n as nat, width as nat));
    } else {
        assert(final(s)@ =~= old(s)@ + hex_padded_text(n as nat, width as nat));
    }
}

/// `hex::encode`: two lower-case hexadecimal digits per byte.
#[verifier::external_body]
pub(crate) fn hex_encode(data: &[u8]) -> (r: String)
    ensures
        r@ == hex_text(data@),
{
    hex::encode(data)
}

/// The value of a hexadecimal digit character, either case.
pub open spec fn hex_char_value(c: u8) -> Option<u8> {
    if 48 <= c <= 57 {
        Some((c - 48) as u8)
    } else if 97 <= c <= 102 {
        Some((c - 97 + 10) as u8)
    } else if 65 <= c <= 70 {
        Some((c - 65 + 10) as u8)
    } else {
        None
    }
}

/// The byte encoded by the two hexadecimal characters at `2 * i` in `text`.
pub open spec fn hex_pair_value(text: Seq<u8>, i: int) -> Option<u8> {
    match (hex_char_value(text[2 * i]), hex_char_value(text[2 * i + 1])) {
        (Some(h), Some(l)) => Some((h * 16 + l) as u8),
        _ => None,
    }
}

/// The number of leading character pairs of `text` (at most `n`) that are valid
/// hexadecimal.
pub open spec fn hex_valid_prefix(text: Seq<u8>, n: nat) -> nat
    decreases n,
{
    if n == 0 {
        0
    } else if hex_valid_prefix(text, (n - 1) as nat) == n - 1 && hex_pair_value(text, n - 1) is Some {
        n
    } else {
        hex_valid_prefix(text, (n - 1) as nat)
    }
}

/// The contents of an 8-byte output after decoding `text` into it: unchanged when
/// the length does not match, else the bytes of the leading valid pairs written.
pub open spec fn hex_decoded_into(text: Seq<u8>, out: Seq<u8>) -> Seq<u8> {
    if text.len() != 16 {
        out
    } else {
        Seq::new(8, |i: int|
            if i < hex_valid_prefix(text, 8) { hex_pair_value(text, i)->0 } else { out[i] })
    }
}

/// `hex::decode_to_slice`: decode `text` into exactly `out.len()` bytes.
/// It fails without writing when the length does not match; otherwise it writes
/// the bytes of the leading valid pairs and fails at the first invalid pair.
#[verifier::external_body]
pub(crate) fn hex_decode_to_slice(text: &str, out: &mut [u8; 8]) -> (r: bool)
    ensures
        r == (text.spec_bytes().len() == 16 && hex_valid_prefix(text.spec_bytes(), 8) == 8),
        final(out)@ == hex_decoded_into(text.spec_bytes(), old(out)@),
{
    hex::decode_to_slice(text, out).is_ok()
}

// ---------------------------------------------------------------------------
// Parsing text
// ---------------------------------------------------------------------------

/// The value of an ASCII digit in the given radix (digits, then letters of either case).
pub open spec fn digit_value(c: char, radix: nat) -> Option<nat> {
    let u = c as u32;
    let v: int = if 48 <= u <= 57 {
        u - 48
    } else if 97 <= u <= 122 {
        u - 97 + 10
    } else if 65 <= u <= 90 {
        u - 65 + 10
    } else {
        radix as int
    };
    if v < radix { Some(v as nat) } else { None }
}

/// The value of a non-empty run of digits in `radix`, most significant first.
pub open spec fn digits_value(s: Seq<char>, radix: nat) -> Option<nat>
    decreases s.len(),
{
    if s.len() == 0 {
        None
    } else if s.len() == 1 {
        digit_value(s[0], radix)
    } else {
        match (digits_value(s.drop_last(), radix), digit_value(s.last(), radix)) {
            (Some(h), Some(l)) => Some(h * radix + l),
            _ => None,
        }
    }
}

/// The value of an unsigned integer in text: an optional `+` followed by one
/// or more digits of `radix`.
pub open spec fn unsigned_text_value(s: Seq<char>, radix: nat) -> Option<nat> {
    if s.len() > 0 && s[0] == '+' {
        digits_value(s.drop_first(), radix)
    } else {
        digits_value(s, radix)
    }
}

/// `v` when it is at most `max`.
pub open spec fn within(v: Option<nat>, max: nat) -> Option<nat> {
    match v {
        Some(x) => if x <= max { Some(x) } else { None },
        None => None,
    }
}

/// `<u16 as FromStr>::from_str`: an optional `+` and decimal digits, in range.
#[verifier::external_body]
pub(crate) fn parse_u16(s: &str) -> (r: Option<u16>)
    ensures
        (r matches Some(v) ==> within(unsigned_text_value(s@, 10), u16::MAX as nat) == Some(v as nat)),
        (r is None ==> within(unsigned_text_value(s@, 10), u16::MAX as nat) is None),
{
    s.parse::<u16>().ok()
}

/// `<u32 as FromStr>::from_str`: an optional `+` and decimal digits, in range.
#[verifier::external_body]
pub(crate) fn parse_u32(s: &str) -> (r: Option<u32>)
    ensures
        (r matches Some(v) ==> within(unsigned_text_value(s@, 10), u32::MAX as nat) == Some(v as nat)),
        (r is None ==> within(unsigned_text_value(s@, 10), u32::MAX as nat) is None),
{
    s.parse::<u32>().ok()
}

/// `<usize as FromStr>::from_str`: an optional `+` and decimal digits, in range.
#[verifier::external_body]
pub(crate) fn parse_usize(s: &str) -> (r: Option<usize>)
    ensures
        (r matches Some(v) ==> within(unsigned_text_value(s@, 10), usize::MAX as nat) == Some(v as nat)),
        (r is None ==> within(unsigned_text_value(s@, 10), usize::MAX as nat) is None),
{
    s.parse::<usize>().ok()
}

/// `u32::from_str_radix(s, 16)`: an optional `+` and hexadecimal digits, in range.
#[verifier::external_body]
pub(crate) fn parse_u32_hex(s: &str) -> (r: Option<u32>)
    ensures
        (r matches Some(v) ==> within(unsigned_text_value(s@, 16), u32::MAX as nat) == Some(v as nat)),
        (r is None ==> within(unsigned_text_value(s@, 16), u32::MAX as nat) is None),
{
    u32::from_str_radix(s, 16).ok()
}

/// The value of a signed integer in text: an optional `+` or `-` followed by
/// one or more decimal digits.
pub open spec fn signed_text_value(s: Seq<char>) -> Option<int> {
    if s.len() > 0 && s[0] == '-' {
        match digits_value(s.drop_first(), 10) {
            Some(v) => Some(-v),
            None => None,
        }
    } else {
        match unsigned_text_value(s, 10) {
            Some(v) => Some(v as int),
            None => None,
        }
    }
}

/// `v` when it lies in the range of `i64`.
pub open spec fn within_i64(v: Option<int>) -> Option<int> {
    match v {
        Some(x) => if i64::MIN <= x <= i64::MAX { Some(x) } else { None },
        None => None,
    }
}

/// `<i64 as FromStr>::from_str`: an optional sign and decimal digits, in range.
#[verifier::external_body]
pub(crate) fn parse_i64(s: &str) -> (r: Option<i64>)
    ensures
        (r matches Some(v) ==> within_i64(signed_text_value(s@)) == Some(v as int)),
        (r is None ==> within_i64(signed_text_value(s@)) is None),
{
    s.parse::<i64>().ok()
}

/// The decimal representation of a signed number: a `-` before negative ones.
pub open spec fn signed_decimal_text(x: int) -> Seq<char> {
    if x < 0 { seq!['-'] + decimal_text((-x) as nat) } else { decimal_text(x as nat) }
}

/// The decimal representation of `x` as a new string, as `to_string` gives it.
pub fn i64_string(x: i64) -> (r: String)
    ensures
        r@ == signed_decimal_text(x as int),
{
    let mut s = String::new();
    if x < 0 {
        push_char(&mut s, '-');
        let m: u64 = (-(x as i128)) as u64;
        push_decimal(&mut s, m);
    } else {
        push_decimal(&mut s, x as u64);
    }
    assert(s@ =~= signed_decimal_text(x as int));
    s
}

proof fn lemma_decimal_text_nonempty(n: nat)
    ensures
        decimal_text(n).len() >= 1,
        decimal_text(n)[0] != '-',
        decimal_text(n)[0] != '+',
    decreases n,
{
    if n >= 10 {
        lemma_decimal_text_nonempty(n / 10);
        assert(decimal_text(n)[0] == decimal_text(n / 10)[0]);
    }
}

/// Reading back the decimal representation of a number gives the number.
pub proof fn lemma_decimal_roundtrip(n: nat)
    ensures
        digits_value(decimal_text(n), 10) == Some(n),
    decreases n,
{
    if n >= 10 {
        lemma_decimal_roundtrip(n / 10);
        lemma_decimal_text_nonempty(n / 10);
        let t = decimal_text(n);
        assert(t.drop_last() =~= decimal_text(n / 10));
        assert(t.last() == digit_char(n % 10));
    }
}

/// Reading back the signed decimal representation of a number gives the number.
pub proof fn lemma_signed_decimal_roundtrip(x: int)
    ensures
        signed_text_value(signed_decimal_text(x)) == Some(x),
{
    if x < 0 {
        lemma_decimal_roundtrip((-x) as nat);
        assert(signed_decimal_text(x).drop_first() =~= decimal_text((-x) as nat));
    } else {
        lemma_decimal_roundtrip(x as nat);
        lemma_decimal_text_nonempty(x as nat);
    }
}

/// The value of `"true"` and `"false"`.
pub open spec fn bool_text_value(s: Seq<char>) -> Option<bool> {
    if s == seq!['t', 'r', 'u', 'e'] {
        Some(true)
    } else if s == seq!['f', 'a', 'l', 's', 'e'] {
        Some(false)
    } else {
        None
    }
}

/// `<bool as FromStr>::from_str`: exactly `"true"` or `"false"`.
#[verifier::external_body]
pub(crate) fn parse_bool(s: &str) -> (r: Option<bool>)
    ensures
        r == bool_text_value(s@),
{
    s.parse::<bool>().ok()
}

/// Index of the first `'.'` in `s`, or `s.len()` when there is none.
pub open spec fn dot_index(s: Seq<char>) -> int
    decreases s.len(),
{
    if s.len() == 0 {
        0
    } else if s[0] == '.' {
        0
    } else {
        1 + dot_index(s.drop_first())
    }
}

/// The value of one octet of a dotted-quad address: one to three decimal digits
/// without a leading zero (unless the octet is `0` itself), at most 255.
pub open spec fn octet_value(t: Seq<char>) -> Option<nat> {
    if t.len() == 0 || (t.len() > 1 && t[0] == '0') {
        None
    } else {
        within(digits_value(t, 10), 255)
    }
}

/// The `k` octets of `s`, each ended by a dot except the last, which ends `s`.
pub open spec fn octets_value(s: Seq<char>, k: nat) -> Option<Seq<u8>>
    decreases k,
{
    let i = dot_index(s);
    match octet_value(s.take(i)) {
        None => None,
        Some(v) => if k <= 1 {
            if i == s.len() { Some(seq![v as u8]) } else { None }
        } else if i < s.len() {
            match octets_value(s.skip(i + 1), (k - 1) as nat) {
                Some(rest) => Some(seq![v as u8] + rest),
                None => None,
            }
        } else {
            None
        },
    }
}

/// The address written in dot-decimal notation: exactly four octets separated by
/// dots, without octal (leading zero) or hexadecimal forms, as `Ipv4Addr` parses it.
pub open spec fn ipv4_text_value(s: Seq<char>) -> Option<Seq<u8>> {
    octets_value(s, 4)
}

/// A successfully read address has `k` octets.
pub(crate) proof fn lemma_octets_len(s: Seq<char>, k: nat)
    requires
        k >= 1,
    ensures
        (octets_value(s, k) matches Some(v) ==> v.len() == k),
    decreases k,
{
    if k > 1 {
        let i = dot_index(s);
        if i < s.len() {
            lemma_octets_len(s.skip(i + 1), (k - 1) as nat);
        }
    }
}

/// Hexadecimal text has two ASCII characters per byte.
pub(crate) proof fn lemma_hex_text_ascii(bytes: Seq<u8>)
    ensures
        hex_text(bytes).len() == 2 * bytes.len(),
        vstd::utf8::is_ascii_chars(hex_text(bytes)),
    decreases bytes.len(),
{
    if bytes.len() > 0 {
        lemma_hex_text_ascii(bytes.drop_first());
        let h = hex_text(bytes);
        let first = seq![hex_digit_char((bytes[0] / 16) as nat), hex_digit_char((bytes[0] % 16) as nat)];
        let rest = hex_text(bytes.drop_first());
        assert(h == first + rest);
        assert forall|i: int| 0 <= i < h.len() implies '\0' <= #[trigger] h[i] <= '\u{7f}' by {
            if i >= 2 {
                assert(h[i] == rest[i - 2]);
            }
        }
    }
}

proof fn lemma_dot_index(s: Seq<char>)
    ensures
        0 <= dot_index(s) <= s.len(),
        forall|j: int| 0 <= j < dot_index(s) ==> s[j] != '.',
        dot_index(s) < s.len() ==> s[dot_index(s)] == '.',
    decreases s.len(),
{
    if s.len() > 0 && s[0] != '.' {
        lemma_dot_index(s.drop_first());
        assert forall|j: int| 0 <= j < dot_index(s) implies s[j] != '.' by {
            if j > 0 {
                assert(s[j] == s.drop_first()[j - 1]);
            }
        }
    }
}

proof fn lemma_dot_index_unique(s: Seq<char>, i: int)
    requires
        0 <= i <= s.len(),
        forall|j: int| 0 <= j < i ==> s[j] != '.',
        i < s.len() ==> s[i] == '.',
    ensures
        dot_index(s) == i,
    decreases s.len(),
{
    if s.len() > 0 && s[0] != '.' {
        lemma_dot_index_unique(s.drop_first(), i - 1);
    }
}

/// Decimal digit value of `c`, when it is an ASCII digit.
fn decimal_digit(c: char) -> (r: Option<u32>)
    ensures
        r matches Some(d) ==> digit_value(c, 10) == Some(d as nat),
        r is None ==> digit_value(c, 10) is None,
{
    let u = c as u32;
    if 48 <= u && u <= 57 {
        Some(u - 48)
    } else {
        proof {
            let u = c as u32;
            assert(!(48 <= u <= 57));
        }
        None
    }
}

/// Parse the octet in `chars[start..end]` (no dots inside).
fn parse_octet(chars: &Vec<char>, start: usize, end: usize) -> (r: Option<u8>)
    requires
        start <= end <= chars@.len(),
    ensures
        r matches Some(v) ==> octet_value(chars@.subrange(start as int, end as int)) == Some(v as nat),
        r is None ==> octet_value(chars@.subrange(start as int, end as int)) is None,
{
    let ghost t = chars@.subrange(start as int, end as int);
    if start == end || (end - start > 1 && chars[start] == '0') {
        return None;
    }
    let mut value: u32 = 0;
    let mut i = start;
    while i < end
        invariant
            start < i <= end || (i == start && start < end),
            end <= chars@.len(),
            t == chars@.subrange(start as int, end as int),
            i > start ==> digits_value(t.take(i - start), 10) == Some(value as nat),
            i == start ==> value == 0,
            value <= 255,
        decreases end - i,
    {
        match decimal_digit(chars[i]) {
            None => {
                proof {
                    assert(t.take(i - start + 1).last() == chars@[i as int]);
                    lemma_digits_prefix_none(t, (i - start + 1) as nat, end - start);
                }
                return None;
            }
            Some(d) => {
                let next = value * 10 + d;
                proof {
                    let k = i - start;
                    assert(t.take(k + 1).last() == chars@[i as int]);
                    if k == 0 {
                        assert(t.take(1)[0] == chars@[i as int]);
                        assert(digits_value(t.take(1), 10) == Some(next as nat));
                    } else {
                        assert(t.take(k + 1).drop_last() =~= t.take(k));
                        assert(digits_value(t.take(k + 1), 10) == Some(next as nat));
                    }
                }
                if next > 255 {
                    proof {
                        lemma_digits_prefix_large(t, (i - start + 1) as nat, end - start);
                    }
                    return None;
                }
                value = next;
                i = i + 1;
            }
        }
    }
    assert(t.take(end - start) =~= t);
    Some(value as u8)
}

/// When a prefix of `t` is not all digits, `t` is not either.
proof fn lemma_digits_prefix_none(t: Seq<char>, k: nat, n: int)
    requires
        1 <= k <= t.len(),
        n == t.len(),
        digit_value(t.take(k as int).last(), 10) is None,
    ensures
        digits_value(t, 10) is None,
    decreases t.len(),
{
    if t.len() > k {
        assert(t.drop_last().take(k as int) =~= t.take(k as int));
        lemma_digits_prefix_none(t.drop_last(), k, n - 1);
    } else {
        assert(t.take(k as int) =~= t);
    }
}

/// Appending digits never makes a decimal value smaller; once a prefix exceeds
/// 255, so does `t`.
proof fn lemma_digits_prefix_large(t: Seq<char>, k: nat, n: int)
    requires
        1 <= k <= t.len(),
        n == t.len(),
        match digits_value(t.take(k as int), 10) {
            Some(v) => v > 255,
            None => true,
        },
    ensures
        within(digits_value(t, 10), 255) is None,
    decreases t.len(),
{
    if t.len() > k {
        assert(t.drop_last().take(k as int) =~= t.take(k as int));
        lemma_digits_prefix_large(t.drop_last(), k, n - 1);
    } else {
        assert(t.take(k as int) =~= t);
    }
}

/// The characters of `s`, one by one.
pub fn chars_of(s: &str) -> (r: Vec<char>)
    ensures
        r@ == s@,
{
    let n = s.unicode_len();
    let mut v: Vec<char> = Vec::new();
    let mut i: usize = 0;
    while i < n
        invariant
            n == s@.len(),
            i <= n,
            v@ == s@.take(i as int),
        decreases n - i,
    {
        v.push(s.get_char(i));
        i = i + 1;
        assert(v@ =~= s@.take(i as int));
    }
    assert(s@.take(n as int) =~= s@);
    v
}

/// Parse an IPv4 address in dot-decimal notation into its four octets.
pub fn parse_ipv4(s: &str) -> (r: Option<[u8; 4]>)
    ensures
        r matches Some(a) ==> ipv4_text_value(s@) == Some(a@),
        r is None ==> ipv4_text_value(s@) is None,
{
    let chars = chars_of(s);
    let n = chars.len();
    let mut octets: [u8; 4] = [0u8; 4];
    let mut pos: usize = 0;
    let mut k: usize = 0;
    assert(s@.skip(0) =~= s@);
    assert forall|r: Seq<u8>| octets@.take(0) + r == r by {
        assert(octets@.take(0) + r =~= r);
    }
    while k < 4
        invariant
            chars@ == s@,
            n == chars@.len(),
            k <= 4,
            pos <= n,
            k < 4 ==> octets_value(s@, 4) == match octets_value(s@.skip(pos as int), (4 - k) as nat) {
                Some(rest) => Some(octets@.take(k as int) + rest),
                None => None,
            },
            k == 4 ==> octets_value(s@, 4) == Some(octets@),
        decreases 4 - k,
    {
        let ghost rest = s@.skip(pos as int);
        let mut end = pos;
        while end < n && chars[end] != '.'
            invariant
                pos <= end <= n,
                n == chars@.len(),
                forall|j: int| pos <= j < end ==> chars@[j] != '.',
            decreases n - end,
        {
            end = end + 1;
        }
        proof {
            assert forall|j: int| 0 <= j < end - pos implies rest[j] != '.' by {
                assert(rest[j] == chars@[pos + j]);
            }
            lemma_dot_index_unique(rest, end - pos);
            assert(rest.take(end - pos) =~= chars@.subrange(pos as int, end as int));
        }
        let v = parse_octet(&chars, pos, end);
        match v {
            None => {
                return None;
            }
            Some(v) => {
                octets[k] = v;
                if k == 3 {
                    if end != n {
                        return None;
                    }
                    k = 4;
                    proof {
                        assert(octets@ =~= octets@.take(3) + seq![v]);
                    }
                } else {
                    if end == n {
                        return None;
                    }
                    proof {
                        assert(rest.skip(end - pos + 1) =~= s@.skip(end + 1));
                        assert(octets@.take(k + 1) =~= octets@.take(k as int) + seq![v]);
                    }
                    pos = end + 1;
                    k = k + 1;
                }
            }
        }
    }
    Some(octets)
}

// ---------------------------------------------------------------------------
// Other string operations
// ---------------------------------------------------------------------------

/// The ASCII upper-case form of `c`; other characters are unchanged.
pub open spec fn ascii_upper(c: char) -> char {
    if 'a' <= c <= 'z' {
        ((c as u32) - 32) as char
    } else {
        c
    }
}

/// `str::to_ascii_uppercase`: ASCII letters `a`..`z` upper-cased, all else unchanged.
#[verifier::external_body]
pub(crate) fn to_ascii_uppercase(s: &str) -> (r: String)
    ensures
        r@ == s@.map_values(|c: char| ascii_upper(c)),
{
    s.to_ascii_uppercase()
}

/// `str::strip_prefix`: the rest of `s` after `prefix`, when `s` starts with it.
#[verifier::external_body]
pub(crate) fn strip_prefix<'a>(s: &'a str, prefix: &str) -> (r: Option<&'a str>)
    ensures
        (r is Some <==> (prefix@.len() <= s@.len() && s@.subrange(0, prefix@.len() as int) == prefix@)),
        (r matches Some(rest) ==> rest@ == s@.subrange(prefix@.len() as int, s@.len() as int)),
{
    s.strip_prefix(prefix)
}

/// `s` with every leading occurrence of `p` removed, repeatedly.
pub open spec fn trim_start_all(s: Seq<char>, p: Seq<char>) -> Seq<char>
    decreases s.len(),
{
    if p.len() > 0 && p.len() <= s.len() && s.subrange(0, p.len() as int) == p {
        trim_start_all(s.subrange(p.len() as int, s.len() as int), p)
    } else {
        s
    }
}

/// `str::trim_start_matches` with a string pattern: all leading occurrences removed.
#[verifier::external_body]
pub(crate) fn trim_start_matches<'a>(s: &'a str, p: &str) -> (r: &'a str)
    ensures
        r@ == trim_start_all(s@, p@),
{
    s.trim_start_matches(p)
}

/// `needle` occurs somewhere in `hay`.
pub open spec fn contains_text(hay: Seq<char>, needle: Seq<char>) -> bool {
    exists|i: int| 0 <= i && i + needle.len() <= hay.len() && #[trigger] hay.subrange(i, i + needle.len()) == needle
}

/// `str::contains` with a string pattern: `needle` occurs in `hay`.
#[verifier::external_body]
pub(crate) fn str_contains(hay: &str, needle: &str) -> (r: bool)
    ensures
        r == contains_text(hay@, needle@),
{
    hay.contains(needle)
}

/// `<str as PartialEq>::eq`: the two strings hold the same characters.
#[verifier::external_body]
pub(crate) fn str_eq(a: &str, b: &str) -> (r: bool)
    ensures
        r == (a@ == b@),
{
    a == b
}

} // verus!
