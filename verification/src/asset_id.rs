//! Immich asset ids: reading them from preview file names and writing them
//! as text, through the `uuid` and `regex` crates.

use vstd::prelude::*;

use crate::error::ImageAnalysisError;

verus! {

/// The id of an Immich asset: the 16 bytes of its UUID.
pub struct AssetId {
    pub bytes: [u8; 16],
}

#[verifier::external_type_specification]
#[verifier::external_body]
pub struct ExUuidError(uuid::Error);

/// The pattern of a UUID as Immich writes it (lower-case hexadecimal in
/// groups of 8, 4, 4, 4 and 12), as capture group 1.
pub const UUID_PATTERN: &'static str = "([0-9a-f]{8}-[0-9a-f]{4}-[0-9a-f]{4}-[0-9a-f]{4}-[0-9a-f]{12})";

/// The same pattern, followed by `-preview` as in Immich's preview file names.
pub const PREVIEW_UUID_PATTERN: &'static str =
    "([0-9a-f]{8}-[0-9a-f]{4}-[0-9a-f]{4}-[0-9a-f]{4}-[0-9a-f]{12})-preview";

/// The text that follows the UUID in a preview file name.
pub open spec fn preview_suffix() -> Seq<char> {
    seq!['-', 'p', 'r', 'e', 'v', 'i', 'e', 'w']
}

/// A lower-case hexadecimal digit, as `[0-9a-f]` matches it.
pub open spec fn is_lower_hex(c: char) -> bool {
    ('0' <= c && c <= '9') || ('a' <= c && c <= 'f')
}

/// The positions of the hyphens in a hyphenated UUID.
pub open spec fn is_hyphen_position(i: int) -> bool {
    i == 8 || i == 13 || i == 18 || i == 23
}

/// `s` is a UUID as the patterns above match it.
pub open spec fn uuid_shaped(s: Seq<char>) -> bool {
    &&& s.len() == 36
    &&& forall|i: int|
        0 <= i < 36 ==> if is_hyphen_position(i) {
            s[i] == '-'
        } else {
            is_lower_hex(#[trigger] s[i])
        }
}

/// At position `i` of `hay` stands a UUID followed by `suffix`.
pub open spec fn uuid_match_at(hay: Seq<char>, suffix: Seq<char>, i: int) -> bool {
    &&& 0 <= i
    &&& i + 36 + suffix.len() <= hay.len()
    &&& uuid_shaped(hay.subrange(i, i + 36))
    &&& hay.subrange(i + 36, i + 36 + suffix.len()) == suffix
}

/// The first position at or after `from` where a UUID followed by `suffix`
/// stands in `hay`.
pub open spec fn first_uuid_match(hay: Seq<char>, suffix: Seq<char>, from: nat) -> Option<nat>
    decreases hay.len() + 1 - from,
{
    if from + 36 + suffix.len() > hay.len() {
        None
    } else if uuid_match_at(hay, suffix, from as int) {
        Some(from)
    } else {
        first_uuid_match(hay, suffix, from + 1)
    }
}

/// The UUID of the leftmost match of "a UUID followed by `suffix`" in `hay`:
/// capture group 1 of the first match of the pattern.
pub open spec fn uuid_capture(hay: Seq<char>, suffix: Seq<char>) -> Option<Seq<char>> {
    match first_uuid_match(hay, suffix, 0) {
        Some(i) => Some(hay.subrange(i as int, i + 36int)),
        None => None,
    }
}

/// The value of a hexadecimal digit of either case.
pub open spec fn hex_value(c: char) -> Option<u8> {
    if '0' <= c && c <= '9' {
        Some((c as u32 - '0' as u32) as u8)
    } else if 'a' <= c && c <= 'f' {
        Some((c as u32 - 'a' as u32 + 10) as u8)
    } else if 'A' <= c && c <= 'F' {
        Some((c as u32 - 'A' as u32 + 10) as u8)
    } else {
        None
    }
}

/// The bytes that pairs of hexadecimal digits stand for, high digit first.
pub open spec fn hex_decode(s: Seq<char>) -> Option<Seq<u8>>
    decreases s.len(),
{
    if s.len() == 0 {
        Some(Seq::empty())
    } else if s.len() < 2 {
        None
    } else {
        match (hex_value(s[0]), hex_value(s[1]), hex_decode(s.skip(2))) {
            (Some(h), Some(l), Some(rest)) => Some(seq![(h * 16 + l) as u8] + rest),
            _ => None,
        }
    }
}

/// The 32 digits of a hyphenated UUID text, without its hyphens.
pub open spec fn hyphenated_digits(s: Seq<char>) -> Seq<char> {
    s.subrange(0, 8) + s.subrange(9, 13) + s.subrange(14, 18) + s.subrange(19, 23) + s.subrange(
        24,
        36,
    )
}

/// The bytes of a hyphenated UUID text (36 characters, hyphens at 8, 13, 18
/// and 23, hexadecimal digits of either case elsewhere).
pub open spec fn hyphenated_value(s: Seq<char>) -> Option<Seq<u8>> {
    if s.len() == 36 && s[8] == '-' && s[13] == '-' && s[18] == '-' && s[23] == '-' {
        hex_decode(hyphenated_digits(s))
    } else {
        None
    }
}

/// `s` with ASCII capitals in lower case.
pub open spec fn ascii_lowercase(s: Seq<char>) -> Seq<char> {
    s.map_values(|c: char| if 'A' <= c && c <= 'Z' { (c as u32 + 32) as char } else { c })
}

/// The prefix of a UUID written as a URN.
pub open spec fn urn_prefix() -> Seq<char> {
    seq!['u', 'r', 'n', ':', 'u', 'u', 'i', 'd', ':']
}

/// The bytes of a UUID text in any of the forms that `uuid` reads: 32 digits,
/// hyphenated, hyphenated in braces, or hyphenated after `urn:uuid:` (of
/// either case); `None` for any other text.
pub open spec fn uuid_text_value(s: Seq<char>) -> Option<Seq<u8>> {
    if s.len() == 32 {
        hex_decode(s)
    } else if s.len() == 36 {
        hyphenated_value(s)
    } else if s.len() == 38 && s[0] == '{' && s[37] == '}' {
        hyphenated_value(s.subrange(1, 37))
    } else if s.len() == 45 && ascii_lowercase(s.take(9)) == urn_prefix() {
        hyphenated_value(s.skip(9))
    } else {
        None
    }
}

/// The lower-case hexadecimal digit for `n < 16`.
pub open spec fn hex_digit(n: nat) -> char {
    if n < 10 {
        ('0' as u32 + n) as char
    } else {
        ('a' as u32 + n - 10) as char
    }
}

/// Each byte as two lower-case hexadecimal digits, high digit first.
pub open spec fn hex_encode(b: Seq<u8>) -> Seq<char>
    decreases b.len(),
{
    if b.len() == 0 {
        Seq::empty()
    } else {
        seq![hex_digit(b[0] as nat / 16), hex_digit(b[0] as nat % 16)] + hex_encode(b.skip(1))
    }
}

/// The hyphenated lower-case text of a UUID's 16 bytes, as `Uuid`'s
/// `Display` writes it.
pub open spec fn hyphenated_text(b: Seq<u8>) -> Seq<char> {
    hex_encode(b.subrange(0, 4)) + seq!['-'] + hex_encode(b.subrange(4, 6)) + seq!['-']
        + hex_encode(b.subrange(6, 8)) + seq!['-'] + hex_encode(b.subrange(8, 10)) + seq!['-']
        + hex_encode(b.subrange(10, 16))
}

/// `Regex::new` followed by `Regex::captures` and `Captures::get(1)`: the
/// text of capture group 1 of the first (leftmost) match of one of the two
/// UUID patterns above in `haystack`. For a pattern of fixed length such as
/// these, the first match is the one that starts earliest.
#[verifier::external_body]
fn first_capture_group(pattern: &str, haystack: &str) -> (r: Option<String>)
    requires
        pattern@ == UUID_PATTERN@ || pattern@ == PREVIEW_UUID_PATTERN@,
    ensures
        pattern@ == UUID_PATTERN@ ==> match r {
            Some(c) => uuid_capture(haystack@, Seq::empty()) == Some(c@),
            None => uuid_capture(haystack@, Seq::empty()) is None,
        },
        pattern@ == PREVIEW_UUID_PATTERN@ ==> match r {
            Some(c) => uuid_capture(haystack@, preview_suffix()) == Some(c@),
            None => uuid_capture(haystack@, preview_suffix()) is None,
        },
{
    let re = match regex::Regex::new(pattern) {
        Ok(re) => re,
        Err(_) => return None,
    };
    let captures = re.captures(haystack)?;
    let group = captures.get(1)?;
    Some(group.as_str().to_string())
}

/// `Uuid::from_str` (which is `Uuid::parse_str`): the bytes of the UUID that
/// `text` writes in one of the forms of `uuid_text_value`, or the crate's
/// error for any other text.
#[verifier::external_body]
fn parse_uuid_text(text: &str) -> (r: Result<[u8; 16], uuid::Error>)
    ensures
        match r {
            Ok(b) => uuid_text_value(text@) == Some(b@),
            Err(_) => uuid_text_value(text@) is None,
        },
{
    match <uuid::Uuid as std::str::FromStr>::from_str(text) {
        Ok(id) => Ok(*id.as_bytes()),
        Err(e) => Err(e),
    }
}

/// `Uuid::from_bytes` followed by `to_string`: the hyphenated lower-case
/// text of the UUID with these bytes.
#[verifier::external_body]
fn uuid_text(bytes: &[u8; 16]) -> (r: String)
    ensures
        r@ == hyphenated_text(bytes@),
{
    uuid::Uuid::from_bytes(*bytes).to_string()
}

/// The hyphenated lower-case text of an asset id, as `Uuid::to_string` gives it.
pub fn asset_id_text(id: &AssetId) -> (r: String)
    ensures
        r@ == hyphenated_text(id.bytes@),
{
    uuid_text(&id.bytes)
}

/// All characters of `s` are hexadecimal digits and there is an even number
/// of them: then they decode.
proof fn lemma_hex_decode_some(s: Seq<char>)
    requires
        s.len() % 2 == 0,
        forall|i: int| 0 <= i < s.len() ==> is_lower_hex(#[trigger] s[i]),
    ensures
        hex_decode(s) is Some,
        hex_decode(s)->0.len() == s.len() / 2,
    decreases s.len(),
{
    if s.len() >= 2 {
        assert forall|i: int| 0 <= i < s.skip(2).len() implies is_lower_hex(#[trigger] s.skip(2)[i]) by {
            assert(s.skip(2)[i] == s[i + 2]);
        }
        lemma_hex_decode_some(s.skip(2));
        assert(is_lower_hex(s[0]) && is_lower_hex(s[1]));
    }
}

/// A UUID as the patterns match it is read by `uuid` as its 32 digits.
proof fn lemma_uuid_shaped_value(s: Seq<char>)
    requires
        uuid_shaped(s),
    ensures
        uuid_text_value(s) == hex_decode(hyphenated_digits(s)),
        uuid_text_value(s) is Some,
        uuid_text_value(s)->0.len() == 16,
{
    assert(is_hyphen_position(8) && is_hyphen_position(13) && is_hyphen_position(18)
        && is_hyphen_position(23));
    assert(s[8] == '-' && s[13] == '-' && s[18] == '-' && s[23] == '-');
    let d = hyphenated_digits(s);
    assert forall|i: int| 0 <= i < d.len() implies is_lower_hex(#[trigger] d[i]) by {
        if i < 8 {
            assert(d[i] == s[i] && !is_hyphen_position(i));
        } else if i < 12 {
            assert(d[i] == s[i + 1] && !is_hyphen_position(i + 1));
        } else if i < 16 {
            assert(d[i] == s[i + 2] && !is_hyphen_position(i + 2));
        } else if i < 20 {
            assert(d[i] == s[i + 3] && !is_hyphen_position(i + 3));
        } else {
            assert(d[i] == s[i + 4] && !is_hyphen_position(i + 4));
        }
    }
    lemma_hex_decode_some(d);
}

/// Reads the asset id out of `text` when it is a UUID as the patterns match it.
fn id_from_capture(text: &str, filename: &str) -> (r: Result<AssetId, ImageAnalysisError>)
    requires
        uuid_shaped(text@),
    ensures
        r matches Ok(id) && uuid_text_value(text@) == Some(id.bytes@),
{
    proof {
        lemma_uuid_shaped_value(text@);
    }
    match parse_uuid_text(text) {
        Ok(bytes) => Ok(AssetId { bytes }),
        Err(_) => Err(ImageAnalysisError::InvalidUuid { filename: filename.to_owned() }),
    }
}

/// Extract the asset id from a preview file name (Immich names them
/// `<uuid>-preview.<ext>`). The first UUID followed by `-preview` wins; without
/// one, the first UUID anywhere in the name; without any, the name is refused.
pub fn extract_uuid_from_preview_filename(filename: &str) -> (r: Result<
    AssetId,
    ImageAnalysisError,
>)
    ensures
        match uuid_capture(filename@, preview_suffix()) {
            Some(c) => r matches Ok(id) && uuid_text_value(c) == Some(id.bytes@),
            None => match uuid_capture(filename@, Seq::empty()) {
                Some(c) => r matches Ok(id) && uuid_text_value(c) == Some(id.bytes@),
                None => r matches Err(ImageAnalysisError::InvalidUuid { filename: f }) && f@
                    == filename@,
            },
        },
{
    if let Some(capture) = first_capture_group(PREVIEW_UUID_PATTERN, filename) {
        proof {
            lemma_capture_is_uuid(filename@, preview_suffix());
        }
        return id_from_capture(capture.as_str(), filename);
    }
    if let Some(capture) = first_capture_group(UUID_PATTERN, filename) {
        proof {
            lemma_capture_is_uuid(filename@, Seq::empty());
        }
        return id_from_capture(capture.as_str(), filename);
    }
    Err(ImageAnalysisError::InvalidUuid { filename: filename.to_owned() })
}

/// What the search finds is a UUID.
proof fn lemma_first_match_is_match(hay: Seq<char>, suffix: Seq<char>, from: nat)
    ensures
        first_uuid_match(hay, suffix, from) matches Some(i) ==> uuid_match_at(hay, suffix, i as int),
    decreases hay.len() + 1 - from,
{
    if from + 36 + suffix.len() <= hay.len() && !uuid_match_at(hay, suffix, from as int) {
        lemma_first_match_is_match(hay, suffix, from + 1);
    }
}

/// A captured UUID is shaped as one.
proof fn lemma_capture_is_uuid(hay: Seq<char>, suffix: Seq<char>)
    ensures
        uuid_capture(hay, suffix) matches Some(c) ==> uuid_shaped(c),
{
    lemma_first_match_is_match(hay, suffix, 0);
}

/// A hexadecimal digit reads back as its value.
proof fn lemma_hex_digit(n: nat)
    requires
        n < 16,
    ensures
        is_lower_hex(hex_digit(n)),
        hex_value(hex_digit(n)) == Some(n as u8),
{
}

/// Hexadecimal text of bytes is twice as long and made of digits.
proof fn lemma_hex_encode_digits(b: Seq<u8>)
    ensures
        hex_encode(b).len() == 2 * b.len(),
        forall|i: int| 0 <= i < hex_encode(b).len() ==> is_lower_hex(#[trigger] hex_encode(b)[i]),
    decreases b.len(),
{
    if b.len() > 0 {
        lemma_hex_encode_digits(b.skip(1));
        lemma_hex_digit(b[0] as nat / 16);
        lemma_hex_digit(b[0] as nat % 16);
        let head = seq![hex_digit(b[0] as nat / 16), hex_digit(b[0] as nat % 16)];
        assert forall|i: int| 0 <= i < hex_encode(b).len() implies is_lower_hex(
            #[trigger] hex_encode(b)[i],
        ) by {
            if i >= 2 {
                assert(hex_encode(b)[i] == hex_encode(b.skip(1))[i - 2]);
            }
        }
    }
}

/// Hexadecimal text of two byte strings is the text of each, one after the other.
proof fn lemma_hex_encode_append(x: Seq<u8>, y: Seq<u8>)
    ensures
        hex_encode(x + y) == hex_encode(x) + hex_encode(y),
    decreases x.len(),
{
    if x.len() == 0 {
        assert(x + y =~= y);
    } else {
        assert((x + y).skip(1) =~= x.skip(1) + y);
        lemma_hex_encode_append(x.skip(1), y);
        assert((x + y)[0] == x[0]);
    }
}

/// Decoding hexadecimal text gives back the bytes.
proof fn lemma_hex_roundtrip(b: Seq<u8>)
    ensures
        hex_decode(hex_encode(b)) == Some(b),
    decreases b.len(),
{
    if b.len() > 0 {
        let t = hex_encode(b);
        lemma_hex_encode_digits(b);
        lemma_hex_roundtrip(b.skip(1));
        let x = b[0] as nat;
        lemma_hex_digit(x / 16);
        lemma_hex_digit(x % 16);
        assert(t.skip(2) =~= hex_encode(b.skip(1)));
        assert(((x / 16) as u8 * 16 + (x % 16) as u8) as u8 == b[0]) by {
            assert(x == (x / 16) * 16 + x % 16);
        }
        assert(seq![b[0]] + b.skip(1) =~= b);
    }
}

/// The text of a UUID is shaped as the patterns match it, and reads back as
/// the same bytes.
pub proof fn lemma_hyphenated_text(b: Seq<u8>)
    requires
        b.len() == 16,
    ensures
        uuid_shaped(hyphenated_text(b)),
        uuid_text_value(hyphenated_text(b)) == Some(b),
{
    let p0 = hex_encode(b.subrange(0, 4));
    let p1 = hex_encode(b.subrange(4, 6));
    let p2 = hex_encode(b.subrange(6, 8));
    let p3 = hex_encode(b.subrange(8, 10));
    let p4 = hex_encode(b.subrange(10, 16));
    lemma_hex_encode_digits(b.subrange(0, 4));
    lemma_hex_encode_digits(b.subrange(4, 6));
    lemma_hex_encode_digits(b.subrange(6, 8));
    lemma_hex_encode_digits(b.subrange(8, 10));
    lemma_hex_encode_digits(b.subrange(10, 16));
    let t = hyphenated_text(b);
    let dash = seq!['-'];
    assert(t == p0 + dash + p1 + dash + p2 + dash + p3 + dash + p4);
    assert forall|i: int| 0 <= i < 36 implies (if is_hyphen_position(i) {
        t[i] == '-'
    } else {
        is_lower_hex(#[trigger] t[i])
    }) by {
        if i < 8 {
            assert(t[i] == p0[i]);
        } else if i == 8 {
        } else if i < 13 {
            assert(t[i] == p1[i - 9]);
        } else if i == 13 {
        } else if i < 18 {
            assert(t[i] == p2[i - 14]);
        } else if i == 18 {
        } else if i < 23 {
            assert(t[i] == p3[i - 19]);
        } else if i == 23 {
        } else {
            assert(t[i] == p4[i - 24]);
        }
    }
    assert(uuid_shaped(t));
    lemma_uuid_shaped_value(t);
    assert(hyphenated_digits(t) =~= p0 + p1 + p2 + p3 + p4);
    lemma_hex_encode_append(b.subrange(0, 4), b.subrange(4, 6));
    lemma_hex_encode_append(b.subrange(0, 4) + b.subrange(4, 6), b.subrange(6, 8));
    lemma_hex_encode_append(b.subrange(0, 4) + b.subrange(4, 6) + b.subrange(6, 8), b.subrange(8, 10));
    lemma_hex_encode_append(
        b.subrange(0, 4) + b.subrange(4, 6) + b.subrange(6, 8) + b.subrange(8, 10),
        b.subrange(10, 16),
    );
    assert(b.subrange(0, 4) + b.subrange(4, 6) + b.subrange(6, 8) + b.subrange(8, 10)
        + b.subrange(10, 16) =~= b);
    lemma_hex_roundtrip(b);
}

/// Immich's preview file names give back the asset id they were made from:
/// in `<uuid>-preview<rest>` the search finds the UUID written at the start,
/// and it reads back as the same 16 bytes.
pub proof fn lemma_preview_name_yields_id(b: Seq<u8>, rest: Seq<char>)
    requires
        b.len() == 16,
    ensures
        uuid_capture(hyphenated_text(b) + preview_suffix() + rest, preview_suffix()) == Some(
            hyphenated_text(b),
        ),
        uuid_text_value(hyphenated_text(b)) == Some(b),
{
    let t = hyphenated_text(b);
    let name = t + preview_suffix() + rest;
    lemma_hyphenated_text(b);
    assert(name.subrange(0, 36) =~= t);
    assert(name.subrange(36, 44) =~= preview_suffix());
    assert(uuid_match_at(name, preview_suffix(), 0));
}

} // verus!
