use vstd::prelude::*;

verus! {

/// Why an NTLM challenge yielded no domain name.
#[derive(Debug, Clone, Copy, PartialEq, Eq, Structural)]
pub enum NtlmError {
    /// The challenge is not valid base64.
    DecodeError,
    /// The header is cut short, or the target-name field runs past the buffer.
    MalformedChallenge,
    /// The target-name field is empty.
    NoTargetName,
    /// The target name is not valid UTF-16LE.
    InvalidEncoding,
}

/// What base64's standard engine decodes `s` to, if `s` is valid base64.
pub uninterp spec fn base64_standard_decode(s: Seq<char>) -> Option<Seq<u8>>;

/// Relies on base64's `Engine::decode` with the `STANDARD` engine: the decoded
/// bytes, or an error when `s` is not base64; the outcome depends on `s` alone.
#[verifier::external_body]
fn decode_base64(s: &str) -> (r: Option<Vec<u8>>)
    ensures
        match r {
            Some(v) => base64_standard_decode(s@) == Some(v@),
            None => base64_standard_decode(s@) is None,
        },
{
    base64::Engine::decode(&base64::engine::general_purpose::STANDARD, s).ok()
}

pub open spec fn is_high_surrogate(u: u16) -> bool {
    0xD800 <= u <= 0xDBFF
}

pub open spec fn is_low_surrogate(u: u16) -> bool {
    0xDC00 <= u <= 0xDFFF
}

/// The scalar value of a surrogate pair.
pub open spec fn surrogate_pair(h: u16, l: u16) -> u32 {
    (0x10000 + (h - 0xD800) * 0x400 + (l - 0xDC00)) as u32
}

/// The Unicode scalar values that UTF-16 code units `u` encode, or `None` when
/// a surrogate stands unpaired.
pub open spec fn utf16_scalars(u: Seq<u16>) -> Option<Seq<u32>>
    decreases u.len(),
{
    if u.len() == 0 {
        Some(Seq::empty())
    } else if u.len() >= 2 && is_high_surrogate(u[0]) && is_low_surrogate(u[1]) {
        match utf16_scalars(u.subrange(2, u.len() as int)) {
            Some(rest) => Some(seq![surrogate_pair(u[0], u[1])] + rest),
            None => None,
        }
    } else if is_high_surrogate(u[0]) || is_low_surrogate(u[0]) {
        None
    } else {
        match utf16_scalars(u.subrange(1, u.len() as int)) {
            Some(rest) => Some(seq![u[0] as u32] + rest),
            None => None,
        }
    }
}

/// The scalar values of the characters of `s`.
pub open spec fn scalars_of(s: Seq<char>) -> Seq<u32> {
    s.map_values(|c: char| c as u32)
}

/// Relies on `String::from_utf16`: decodes UTF-16 and fails on an unpaired surrogate.
#[verifier::external_body]
fn string_from_utf16(units: &[u16]) -> (r: Option<String>)
    ensures
        match r {
            Some(s) => utf16_scalars(units@) == Some(scalars_of(s@)),
            None => utf16_scalars(units@) is None,
        },
{
    String::from_utf16(units).ok()
}

/// Little-endian 16-bit value at `i`.
pub open spec fn le16(b: Seq<u8>, i: int) -> nat {
    (b[i] + 256 * b[i + 1]) as nat
}

/// Little-endian 32-bit value at `i`.
pub open spec fn le32(b: Seq<u8>, i: int) -> nat {
    (b[i] + 256 * b[i + 1] + 65536 * b[i + 2] + 16777216 * b[i + 3]) as nat
}

/// Length of the target-name field of a challenge.
pub open spec fn target_len(raw: Seq<u8>) -> nat {
    le16(raw, 12)
}

/// Offset of the target-name field of a challenge.
pub open spec fn target_offset(raw: Seq<u8>) -> nat {
    le32(raw, 16)
}

/// Bytes read pairwise as little-endian 16-bit code units.
pub open spec fn le_units(b: Seq<u8>) -> Seq<u16> {
    Seq::new(b.len() / 2, |k: int| (b[2 * k] + 256 * b[2 * k + 1]) as u16)
}

/// The code units of the target-name field.
pub open spec fn target_units(raw: Seq<u8>) -> Seq<u16> {
    le_units(raw.subrange(target_offset(raw) as int, (target_offset(raw) + target_len(raw)) as int))
}

/// The error that a decoded challenge `raw` yields, if any.
pub open spec fn challenge_error(raw: Seq<u8>) -> Option<NtlmError> {
    if raw.len() < 20 || target_offset(raw) + target_len(raw) > raw.len() {
        Some(NtlmError::MalformedChallenge)
    } else if target_len(raw) == 0 {
        Some(NtlmError::NoTargetName)
    } else if target_len(raw) % 2 == 1 || utf16_scalars(target_units(raw)) is None {
        Some(NtlmError::InvalidEncoding)
    } else {
        None
    }
}

/// What a decoded challenge says: the domain's scalar values, or the error.
pub open spec fn challenge_meets(raw: Seq<u8>, r: Result<String, NtlmError>) -> bool {
    match r {
        Ok(s) => challenge_error(raw) is None && utf16_scalars(target_units(raw)) == Some(
            scalars_of(s@),
        ),
        Err(e) => challenge_error(raw) == Some(e),
    }
}

/// The target name (the authentication domain) of a decoded NTLM challenge message.
pub fn parse_challenge(raw: &Vec<u8>) -> (r: Result<String, NtlmError>)
    ensures
        challenge_meets(raw@, r),
{
    if raw.len() < 20 {
        return Err(NtlmError::MalformedChallenge);
    }
    let len: u64 = raw[12] as u64 + 256 * raw[13] as u64;
    let off: u64 = raw[16] as u64 + 256 * raw[17] as u64 + 65536 * raw[18] as u64 + 16777216
        * raw[19] as u64;
    assert(len == target_len(raw@) && off == target_offset(raw@));
    if off + len > raw.len() as u64 {
        return Err(NtlmError::MalformedChallenge);
    }
    if len == 0 {
        return Err(NtlmError::NoTargetName);
    }
    if len % 2 == 1 {
        return Err(NtlmError::InvalidEncoding);
    }
    let start = off as usize;
    let half = (len / 2) as usize;
    let ghost field = raw@.subrange(off as int, off + len);
    let mut units: Vec<u16> = Vec::new();
    let mut k: usize = 0;
    while k < half
        invariant
            raw@.len() >= off + len,
            start == off,
            half == len / 2,
            2 * half == len,
            len % 2 == 0,
            field == raw@.subrange(off as int, off + len),
            k <= half,
            units@.len() == k,
            forall|j: int| 0 <= j < k ==> units@[j] == le_units(field)[j],
        decreases half - k,
    {
        assert(2 * k + 2 <= len);
        assert(start + 2 * k + 2 <= raw.len());
        let at: usize = start + k + k;
        let lo = raw[at];
        let hi = raw[at + 1];
        units.push(lo as u16 + 256 * hi as u16);
        k = k + 1;
    }
    assert(units@ =~= target_units(raw@));
    match string_from_utf16(units.as_slice()) {
        Some(s) => Ok(s),
        None => Err(NtlmError::InvalidEncoding),
    }
}

/// The outcome of decoding base64 text `s` and reading it as a challenge.
pub open spec fn domain_meets(s: Seq<char>, r: Result<String, NtlmError>) -> bool {
    match base64_standard_decode(s) {
        None => r == Err::<String, NtlmError>(NtlmError::DecodeError),
        Some(raw) => challenge_meets(raw, r),
    }
}

/// Decoding of NTLM challenge messages.
#[derive(Debug)]
pub struct NTLM;

impl NTLM {
    /// The domain named by a base64-encoded NTLM challenge (Type 2 message).
    pub fn parse_domain(ntlm_response: &str) -> (r: Result<String, NtlmError>)
        ensures
            domain_meets(ntlm_response@, r),
    {
        match decode_base64(ntlm_response) {
            None => Err(NtlmError::DecodeError),
            Some(raw) => parse_challenge(&raw),
        }
    }
}

/// The UTF-16 code units of scalar value `c`.
pub open spec fn utf16_of(c: u32) -> Seq<u16> {
    if c < 0x10000 {
        seq![c as u16]
    } else {
        seq![(0xD800 + (c - 0x10000) / 0x400) as u16, (0xDC00 + (c - 0x10000) % 0x400) as u16]
    }
}

/// The UTF-16 encoding of the scalar values `cs`.
pub open spec fn utf16_encode(cs: Seq<u32>) -> Seq<u16>
    decreases cs.len(),
{
    if cs.len() == 0 {
        Seq::empty()
    } else {
        utf16_of(cs[0]) + utf16_encode(cs.subrange(1, cs.len() as int))
    }
}

/// Code units laid out as little-endian bytes.
pub open spec fn le_bytes(u: Seq<u16>) -> Seq<u8> {
    Seq::new(2 * u.len(), |k: int| if k % 2 == 0 { (u[k / 2] % 256) as u8 } else { (u[k / 2] / 256) as u8 })
}

/// The UTF-16LE bytes of a string.
pub open spec fn utf16le_of(s: Seq<char>) -> Seq<u8> {
    le_bytes(utf16_encode(scalars_of(s)))
}

pub open spec fn is_scalar(c: u32) -> bool {
    c < 0xD800 || (0xE000 <= c && c <= 0x10FFFF)
}

proof fn decode_encoded(cs: Seq<u32>)
    requires
        forall|i: int| 0 <= i < cs.len() ==> is_scalar(#[trigger] cs[i]),
    ensures
        utf16_scalars(utf16_encode(cs)) == Some(cs),
    decreases cs.len(),
{
    if cs.len() > 0 {
        let c = cs[0];
        let rest = cs.subrange(1, cs.len() as int);
        assert(is_scalar(c));
        decode_encoded(rest);
        let u = utf16_encode(cs);
        let head = utf16_of(c);
        assert(u == head + utf16_encode(rest));
        if c < 0x10000 {
            assert(u[0] == c as u16);
            assert(u.subrange(1, u.len() as int) =~= utf16_encode(rest));
        } else {
            let h = (0xD800 + (c - 0x10000) / 0x400) as u16;
            let l = (0xDC00 + (c - 0x10000) % 0x400) as u16;
            assert((c - 0x10000) / 0x400 <= 0x3FF);
            assert(u[0] == h && u[1] == l);
            assert(surrogate_pair(h, l) == c) by {
                let x = (c - 0x10000) as int;
                assert(x == 0x400 * (x / 0x400) + x % 0x400);
            }
            assert(u.subrange(2, u.len() as int) =~= utf16_encode(rest));
        }
        assert(seq![c] + rest =~= cs);
    }
}

proof fn char_scalar(c: char, d: char)
    ensures
        is_scalar(c as u32),
        (c as u32) == (d as u32) ==> c == d,
{
}

proof fn units_of_bytes(u: Seq<u16>)
    ensures
        le_units(le_bytes(u)) =~= u,
{
    let b = le_bytes(u);
    assert forall|k: int| 0 <= k < u.len() implies #[trigger] le_units(b)[k] == u[k] by {
        assert((2 * k) / 2 == k && (2 * k) % 2 == 0);
        assert((2 * k + 1) / 2 == k && (2 * k + 1) % 2 == 1);
        assert(u[k] == u[k] % 256 + 256 * (u[k] / 256));
    }
}

/// A challenge whose target-name field, fully inside the buffer and not empty,
/// holds the UTF-16LE bytes of `name` is read back as exactly `name`.
pub proof fn challenge_round_trip(raw: Seq<u8>, name: Seq<char>, r: Result<String, NtlmError>)
    requires
        raw.len() >= 20,
        name.len() > 0,
        target_len(raw) == utf16le_of(name).len(),
        target_offset(raw) + target_len(raw) <= raw.len(),
        raw.subrange(target_offset(raw) as int, (target_offset(raw) + target_len(raw)) as int) == utf16le_of(name),
        challenge_meets(raw, r),
    ensures
        r is Ok,
        r->Ok_0@ == name,
{
    let cs = scalars_of(name);
    assert forall|i: int| 0 <= i < cs.len() implies is_scalar(#[trigger] cs[i]) by {
        char_scalar(name[i], name[i]);
    }
    decode_encoded(cs);
    units_of_bytes(utf16_encode(cs));
    assert(target_units(raw) == utf16_encode(cs));
    assert(utf16_encode(cs).len() > 0) by {
        assert(utf16_of(cs[0]).len() > 0);
        assert(utf16_encode(cs) == utf16_of(cs[0]) + utf16_encode(cs.subrange(1, cs.len() as int)));
    }
    assert(target_len(raw) % 2 == 0);
    match r {
        Ok(d) => {
            assert(scalars_of(d@) == cs);
            assert(d@.len() == name.len());
            assert forall|i: int| 0 <= i < name.len() implies d@[i] == name[i] by {
                assert(scalars_of(d@)[i] == cs[i]);
                char_scalar(d@[i], name[i]);
            }
            assert(d@ =~= name);
        },
        Err(_) => {},
    }
}

/// A challenge whose target-name field runs past the end of the buffer, or
/// whose header is cut short, is rejected as malformed, whatever its offset
/// and length.
pub proof fn out_of_bounds_is_malformed(raw: Seq<u8>, r: Result<String, NtlmError>)
    requires
        raw.len() < 20 || target_offset(raw) + target_len(raw) > raw.len(),
        challenge_meets(raw, r),
    ensures
        r == Err::<String, NtlmError>(NtlmError::MalformedChallenge),
{
}

} // verus!
