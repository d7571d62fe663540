//! The parts of `tonic` (and of `http`, on which its metadata is built) that
//! the carrier calls: each is a trusted item whose contract is read off the
//! source of `tonic` 0.8.3 and `http` 0.2.12.

use vstd::prelude::*;
use tonic::metadata::MetadataMap as GrpcMetadata;
use crate::text::all_header_value_bytes;
use vstd::utf8::encode_utf8;

verus! {

#[verifier::external_type_specification]
#[verifier::external_body]
pub struct ExGrpcMetadata(GrpcMetadata);

/// What a `tonic` metadata map holds: for each key, ASCII or binary (a
/// lower-case header name), the stored bytes of every value under it, in the
/// order in which they were stored.
pub uninterp spec fn metadata_values(m: GrpcMetadata) -> Map<Seq<char>, Seq<Seq<u8>>>;

/// The model of a metadata map.
pub type Values = Map<Seq<char>, Seq<Seq<u8>>>;

/// The most keys a map may hold before a write: below this many keys the
/// hash table of `http::HeaderMap` (at most `1 << 15` slots, grown early, at a
/// fifth full, when its probes run long) never has to grow past its limit,
/// where `insert` panics with "size overflows MAX_SIZE".
pub const METADATA_KEY_LIMIT: usize = 6554;

/// The map has room for one more key.
pub open spec fn has_room(values: Values) -> bool {
    values.dom().len() < METADATA_KEY_LIMIT
}

/// What `HEADER_CHARS` in `http` makes of a byte of a header name: ASCII
/// letters lower-cased, digits and ``!"#$%&'*+-.^_`|~`` kept, and every other
/// byte mapped to 0, which refuses the name.
pub open spec fn header_name_byte(b: u8) -> u8 {
    if 65 <= b <= 90 {
        (b + 32) as u8
    } else if (97 <= b <= 122) || (48 <= b <= 57) || (33 <= b <= 39) || b == 42 || b == 43
        || b == 45 || b == 46 || b == 94 || b == 95 || b == 96 || b == 124 || b == 126 {
        b
    } else {
        0
    }
}

/// A header name may hold exactly the ASCII letters, which it lower-cases, the
/// digits, and ``!"#$%&'*+-.^_`|~``; every other byte (space, control bytes,
/// DEL, `(),/:;<=>?@[\]{}` and every byte from 128 up) refuses it.
pub proof fn lemma_header_name_bytes(b: u8)
    ensures
        (65 <= b <= 90) ==> header_name_byte(b) == b + 32,
        (97 <= b <= 122 || 48 <= b <= 57 || b == 33 || b == 34 || b == 35 || b == 36 || b == 37
            || b == 38 || b == 39 || b == 42 || b == 43 || b == 45 || b == 46 || b == 94 || b == 95
            || b == 96 || b == 124 || b == 126) ==> header_name_byte(b) == b,
        (b <= 32 || b == 40 || b == 41 || b == 44 || b == 47 || (58 <= b <= 64) || b == 91
            || b == 92 || b == 93 || b == 123 || b == 125 || b >= 127) ==> header_name_byte(b) == 0,
{
}

/// The header name that `http::HeaderName::from_bytes` makes of the UTF-8
/// bytes of `key`: between 1 and 65535 bytes, each one mapped by
/// `header_name_byte`, none of them to 0; `None` where it refuses them.
pub open spec fn header_name(key: Seq<char>) -> Option<Seq<char>> {
    let bytes = encode_utf8(key);
    if 1 <= bytes.len() <= 65535 && forall|i: int|
        0 <= i < bytes.len() ==> header_name_byte(#[trigger] bytes[i]) != 0 {
        Some(Seq::new(bytes.len(), |i: int| header_name_byte(bytes[i]) as char))
    } else {
        None
    }
}

/// The key ends in `-bin`, the mark of a binary metadata key.
pub open spec fn ends_with_bin(s: Seq<char>) -> bool {
    s.len() >= 4 && s.subrange(s.len() - 4, s.len() as int) == seq!['-', 'b', 'i', 'n']
}

/// `http::HeaderName::from_bytes(key.as_bytes())`, turned into the name's
/// text, which is `header_name(key)`.
#[verifier::external_body]
pub(crate) fn header_name_of(key: &str) -> (r: Option<String>)
    ensures
        match r {
            Some(n) => header_name(key@) == Some(n@),
            None => header_name(key@) is None,
        },
{
    http::HeaderName::from_bytes(key.as_bytes()).ok().map(|n| n.as_str().to_owned())
}

/// `tonic::metadata::MetadataValue::<Ascii>::from_str(value)` succeeds exactly
/// when every byte of `value` may stand in a header value (`HeaderValue::from_str`
/// scans the bytes with `is_valid`).
#[verifier::external_body]
#[allow(deprecated)]
pub(crate) fn header_value_accepts(value: &str) -> (r: bool)
    ensures
        r == all_header_value_bytes(encode_utf8(value@)),
{
    tonic::metadata::MetadataValue::<tonic::metadata::Ascii>::from_str(value).is_ok()
}

/// `MetadataMap::insert` with the key made by `MetadataKey::<Ascii>::from_bytes`
/// and the value made by `MetadataValue::<Ascii>::from_str`. Under the
/// `requires` neither conversion fails nor panics (`from_bytes` panics on a
/// valid name that ends in `-bin`), and the map has room, so the hash table
/// need not grow past its limit; `insert` then drops every value the key had
/// and stores the new one, whose bytes are those of `value`. Other keys keep
/// their values. What the allocator does when memory runs out is not stated.
#[verifier::external_body]
#[allow(deprecated)]
pub(crate) fn metadata_insert(map: &mut GrpcMetadata, key: &str, value: &str)
    requires
        header_name(key@) matches Some(n) && !ends_with_bin(n),
        all_header_value_bytes(encode_utf8(value@)),
        has_room(metadata_values(*old(map))),
    ensures
        metadata_values(*final(map)) == metadata_values(*old(map)).insert(
            header_name(key@)->Some_0,
            seq![encode_utf8(value@)],
        ),
{
    let k = tonic::metadata::MetadataKey::<tonic::metadata::Ascii>::from_bytes(key.as_bytes());
    let v = tonic::metadata::MetadataValue::<tonic::metadata::Ascii>::from_str(value);
    if let (Ok(k), Ok(v)) = (k, v) {
        map.insert(k, v);
    }
}

/// `MetadataMap::keys_len`: the number of keys, each counted once.
#[verifier::external_body]
pub(crate) fn metadata_keys_len(map: &GrpcMetadata) -> (r: usize)
    ensures
        r == metadata_values(*map).dom().len(),
{
    map.keys_len()
}

/// `MetadataMap::get(key)` with the value's bytes (`as_bytes`) handed out.
/// For a `&str` key `tonic` answers `None` when the key as given ends in
/// `-bin`; otherwise `http` looks the key up by its image
/// (`header_key_image`), a key without one finds nothing, and a key found
/// answers its first value.
#[verifier::external_body]
pub(crate) fn metadata_get<'a>(map: &'a GrpcMetadata, key: &str) -> (r: Option<&'a [u8]>)
    ensures
        r matches Some(b) ==> Some(b@) == metadata_lookup(metadata_values(*map), key@),
        r is None ==> metadata_lookup(metadata_values(*map), key@) is None,
{
    map.get(key).map(|v| v.as_bytes())
}

/// What `http` looks a `&str` key up by. A key of 64 bytes or fewer is
/// checked: it is its header name, or nothing. A longer key (up to 65535
/// bytes) is not checked: it is compared by its image under `HEADER_CHARS`,
/// in which every refused byte becomes NUL, and a map built through
/// `MetadataMap::from_headers` may hold such an image as a key.
pub open spec fn header_key_image(key: Seq<char>) -> Option<Seq<char>> {
    let bytes = encode_utf8(key);
    if 1 <= bytes.len() <= 64 {
        header_name(key)
    } else if 65 <= bytes.len() <= 65535 {
        Some(Seq::new(bytes.len(), |i: int| header_name_byte(bytes[i]) as char))
    } else {
        None
    }
}

/// Where `MetadataMap::get` looks for a `&str` key: the first value stored
/// under the key's image.
pub open spec fn metadata_lookup(values: Values, key: Seq<char>) -> Option<Seq<u8>> {
    if ends_with_bin(key) {
        None
    } else {
        match header_key_image(key) {
            Some(n) => if values.contains_key(n) && values[n].len() > 0 {
                Some(values[n][0])
            } else {
                None
            },
            None => None,
        }
    }
}

/// `MetadataMap::keys()`, each key turned into its text whether it is an ASCII
/// or a binary key. `http` yields every key once, in an order that its source
/// fixes but does not promise. Each key is its own image: a stored key of 64
/// bytes or fewer is a valid header name, and a longer one holds only bytes
/// that `HEADER_CHARS` maps to themselves (NUL among them). Each holds at
/// least one value.
#[verifier::external_body]
pub(crate) fn metadata_keys<'a>(map: &'a GrpcMetadata) -> (r: Vec<&'a str>)
    ensures
        forall|i: int, j: int| 0 <= i < j < r@.len() ==> r@[i]@ != r@[j]@,
        forall|i: int| 0 <= i < r@.len() ==> metadata_values(*map).contains_key(#[trigger] r@[i]@),
        forall|k: Seq<char>| #[trigger] metadata_values(*map).contains_key(k)
            ==> exists|i: int| 0 <= i < r@.len() && r@[i]@ == k,
        forall|i: int| 0 <= i < r@.len() ==> header_key_image(#[trigger] r@[i]@) == Some(r@[i]@),
        forall|i: int| 0 <= i < r@.len() ==> metadata_values(*map)[#[trigger] r@[i]@].len() > 0,
{
    map.keys()
        .map(|k| match k {
            tonic::metadata::KeyRef::Ascii(v) => v.as_str(),
            tonic::metadata::KeyRef::Binary(v) => v.as_str(),
        })
        .collect()
}

} // verus!
