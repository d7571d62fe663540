//! The carrier through which trace context travels in gRPC metadata: it
//! writes a field only where both the key and the value are valid ASCII
//! metadata, and reads a field only where its value is visible ASCII.

use vstd::prelude::*;
use vstd::utf8::{decode_utf8, encode_utf8, encode_utf8_decode_utf8, is_ascii_chars};
use tonic::metadata::MetadataMap as GrpcMetadata;
use crate::grpc::{
    ends_with_bin, has_room, header_key_image, header_name, header_name_byte, header_name_of,
    header_value_accepts, metadata_get, metadata_insert, metadata_keys, metadata_keys_len,
    metadata_lookup, metadata_values, Values,
};
use crate::text::{all_header_value_bytes, all_visible_ascii, visible_ascii_text};

verus! {

/// The key names an ASCII metadata key: it is a header name, and that name
/// does not end in `-bin`.
pub open spec fn ascii_key(key: Seq<char>) -> bool {
    header_name(key) matches Some(n) && !ends_with_bin(n)
}

/// What writing `value` under `key` makes of the map: the key's header name
/// now holds exactly one value, the bytes of `value`, when the key is an ASCII
/// metadata key and every byte of the value may stand in metadata; otherwise
/// nothing changes. Every other key keeps all of its values.
pub open spec fn spec_set(values: Values, key: Seq<char>, value: Seq<char>) -> Values {
    if ascii_key(key) && all_header_value_bytes(encode_utf8(value)) {
        values.insert(header_name(key)->Some_0, seq![encode_utf8(value)])
    } else {
        values
    }
}

/// What reading `key` answers: the text of the first value found under the
/// key, when there is one and it is visible ASCII.
pub open spec fn spec_get(values: Values, key: Seq<char>) -> Option<Seq<char>> {
    match metadata_lookup(values, key) {
        Some(bytes) => if all_visible_ascii(bytes) { Some(decode_utf8(bytes)) } else { None },
        None => None,
    }
}

/// A value written under an ASCII key reads back under the same key: as the
/// same text when it is visible ASCII, and as nothing otherwise.
pub proof fn lemma_get_after_set(values: Values, key: Seq<char>, value: Seq<char>)
    requires
        ascii_key(key),
        !ends_with_bin(key),
        all_header_value_bytes(encode_utf8(value)),
    ensures
        spec_get(spec_set(values, key, value), key) == (if all_visible_ascii(encode_utf8(value)) {
            Some(value)
        } else {
            None
        }),
{
    lemma_image_of_name(key);
    encode_utf8_decode_utf8(value);
}

/// A key that is a header name is looked up by that name.
pub proof fn lemma_image_of_name(key: Seq<char>)
    requires
        header_name(key) is Some,
    ensures
        header_key_image(key) == header_name(key),
{
}

/// A write whose key is no ASCII metadata key (not a header name, or one that
/// ends in `-bin`), or whose value holds a byte that metadata may not hold,
/// changes nothing.
pub proof fn lemma_set_rejects_invalid(values: Values, key: Seq<char>, value: Seq<char>)
    requires
        !ascii_key(key) || !all_header_value_bytes(encode_utf8(value)),
    ensures
        spec_set(values, key, value) == values,
{
}

/// An accepted write leaves its key with exactly the new value, whatever the
/// key held before, and every other key with all the values it had.
pub proof fn lemma_set_replaces_values(values: Values, key: Seq<char>, value: Seq<char>)
    requires
        ascii_key(key),
        all_header_value_bytes(encode_utf8(value)),
    ensures
        spec_set(values, key, value)[header_name(key)->Some_0] == seq![encode_utf8(value)],
        forall|other: Seq<char>| other != header_name(key)->Some_0 ==> (
            #[trigger] spec_set(values, key, value).contains_key(other) == values.contains_key(other)
            && spec_set(values, key, value)[other] == values[other]),
{
}

/// A write under one key leaves what every key with another header name
/// reads.
pub proof fn lemma_set_keeps_other_keys(
    values: Values,
    key: Seq<char>,
    value: Seq<char>,
    other: Seq<char>,
)
    requires
        header_key_image(other) != header_name(key),
    ensures
        spec_get(spec_set(values, key, value), other) == spec_get(values, other),
{
}

/// Writing under a key twice leaves only the second value: a later write
/// replaces every earlier one.
pub proof fn lemma_last_set_wins(
    values: Values,
    key: Seq<char>,
    first: Seq<char>,
    second: Seq<char>,
)
    requires
        all_header_value_bytes(encode_utf8(second)),
    ensures
        spec_set(spec_set(values, key, first), key, second) == spec_set(values, key, second),
{
    if ascii_key(key) {
        assert(spec_set(spec_set(values, key, first), key, second) =~= spec_set(values, key, second));
    }
}

/// After a write that is accepted, the key's header name is among the keys
/// that the carrier lists, and no other key is added.
pub proof fn lemma_set_lists_key(values: Values, key: Seq<char>, value: Seq<char>)
    requires
        ascii_key(key),
        all_header_value_bytes(encode_utf8(value)),
    ensures
        spec_set(values, key, value).contains_key(header_name(key)->Some_0),
        spec_set(values, key, value).dom() == values.dom().insert(header_name(key)->Some_0),
{
}

/// An accepted write adds one key to the carrier's count when its header name
/// was new, and none when the name was there already.
pub proof fn lemma_set_counts_key(values: Values, key: Seq<char>, value: Seq<char>)
    requires
        values.dom().finite(),
        ascii_key(key),
        all_header_value_bytes(encode_utf8(value)),
    ensures
        spec_set(values, key, value).dom().finite(),
        spec_set(values, key, value).dom().len() == values.dom().len() + (if values.contains_key(
            header_name(key)->Some_0,
        ) {
            0int
        } else {
            1int
        }),
{
    let n = header_name(key)->Some_0;
    assert(spec_set(values, key, value).dom() =~= values.dom().insert(n));
}

/// Every ASCII key that the carrier lists answers a read with the text of its
/// first value, when that value is visible ASCII: what `keys` offers, `get`
/// can fetch.
pub proof fn lemma_listed_key_reads_back(values: Values, key: Seq<char>)
    requires
        values.contains_key(key),
        values[key].len() > 0,
        header_key_image(key) == Some(key),
        !ends_with_bin(key),
    ensures
        spec_get(values, key) == (if all_visible_ascii(values[key][0]) {
            Some(decode_utf8(values[key][0]))
        } else {
            None
        }),
{
}

/// A header name is ASCII text: every byte that `HEADER_CHARS` keeps is below
/// 128.
proof fn lemma_header_name_ascii(key: Seq<char>)
    requires
        header_name(key) is Some,
    ensures
        is_ascii_chars(header_name(key)->Some_0),
{
    let bytes = encode_utf8(key);
    let n = header_name(key)->Some_0;
    assert forall|i: int| 0 <= i < n.len() implies '\0' <= #[trigger] n[i] <= '\u{7f}' by {
        let b = header_name_byte(bytes[i]);
        assert(b < 128);
        assert((b as char) as u32 == b as u32);
    }
}

/// A carrier over the metadata of a gRPC request.
pub struct MetadataMap<'a>(pub &'a mut GrpcMetadata);

impl<'a> View for MetadataMap<'a> {
    type V = Values;

    open spec fn view(&self) -> Values {
        metadata_values(*self.0)
    }
}

impl<'a> MetadataMap<'a> {
    /// Set a key and value in the MetadataMap. Does nothing if the key or
    /// value are not valid inputs.
    pub fn set(&mut self, key: &str, value: String)
        requires
            ascii_key(key@) && all_header_value_bytes(encode_utf8(value@)) ==> has_room(
                old(self)@,
            ),
        ensures
            final(self)@ == spec_set(old(self)@, key@, value@),
    {
        if Self::accepts(key, value.as_str()) {
            metadata_insert(self.0, key, value.as_str());
        }
    }

    /// Whether `set` would write `value` under `key`: the key is an ASCII
    /// metadata key and every byte of the value may stand in metadata.
    pub fn accepts(key: &str, value: &str) -> (r: bool)
        ensures
            r == (ascii_key(key@) && all_header_value_bytes(encode_utf8(value@))),
    {
        match header_name_of(key) {
            Some(name) => {
                proof {
                    lemma_header_name_ascii(key@);
                }
                !name_ends_with_bin(name.as_str()) && header_value_accepts(value)
            },
            None => false,
        }
    }

    /// The number of keys in the map, each counted once.
    pub fn key_count(&self) -> (r: usize)
        ensures
            r == self@.dom().len(),
    {
        metadata_keys_len(self.0)
    }

    /// Get a value for a key from the MetadataMap. If the value can't be
    /// converted to &str, returns None.
    pub fn get(&self, key: &str) -> (r: Option<&str>)
        ensures
            r is Some <==> spec_get(self@, key@) is Some,
            r matches Some(s) ==> spec_get(self@, key@) == Some(s@),
    {
        match metadata_get(self.0, key) {
            Some(bytes) => visible_ascii_text(bytes),
            None => None,
        }
    }

    /// Collect all the keys from the MetadataMap.
    pub fn keys(&self) -> (r: Vec<&str>)
        ensures
            forall|i: int, j: int| 0 <= i < j < r@.len() ==> r@[i]@ != r@[j]@,
            forall|i: int| 0 <= i < r@.len() ==> self@.contains_key(#[trigger] r@[i]@),
            forall|k: Seq<char>| #[trigger] self@.contains_key(k)
                ==> exists|i: int| 0 <= i < r@.len() && r@[i]@ == k,
            forall|i: int| 0 <= i < r@.len() ==> header_key_image(#[trigger] r@[i]@) == Some(
                r@[i]@,
            ),
            forall|i: int| 0 <= i < r@.len() ==> self@[#[trigger] r@[i]@].len() > 0,
            self@.dom().finite(),
            r@.len() == self@.dom().len(),
    {
        let r = metadata_keys(self.0);
        proof {
            let names = r@.map_values(|s: &str| s@);
            assert(names.no_duplicates());
            assert(names.to_set() =~= self@.dom()) by {
                assert forall|k: Seq<char>| self@.dom().contains(k) implies names.to_set().contains(k) by {
                    let i = choose|i: int| 0 <= i < r@.len() && r@[i]@ == k;
                    assert(names[i] == k);
                }
                assert forall|k: Seq<char>| names.to_set().contains(k) implies self@.dom().contains(k) by {
                    let i = choose|i: int| 0 <= i < names.len() && names[i] == k;
                    assert(self@.contains_key(r@[i]@));
                }
            }
            names.unique_seq_to_set();
            vstd::seq_lib::seq_to_set_is_finite(names);
        }
        r
    }
}

/// Whether an ASCII name ends in `-bin`.
fn name_ends_with_bin(name: &str) -> (r: bool)
    requires
        is_ascii_chars(name@),
    ensures
        r == ends_with_bin(name@),
{
    let bytes = name.as_bytes();
    proof {
        vstd::utf8::is_ascii_chars_encode_utf8(name@);
    }
    let n = bytes.len();
    if n < 4 {
        return false;
    }
    let r = bytes[n - 4] == 45u8 && bytes[n - 3] == 98u8 && bytes[n - 2] == 105u8
        && bytes[n - 1] == 110u8;
    proof {
        let s = name@;
        assert(s.len() == n);
        assert(s[n - 4] as u8 == bytes@[n - 4]);
        assert(s[n - 3] as u8 == bytes@[n - 3]);
        assert(s[n - 2] as u8 == bytes@[n - 2]);
        assert(s[n - 1] as u8 == bytes@[n - 1]);
        if r {
            assert(s.subrange(n - 4, n as int) =~= seq!['-', 'b', 'i', 'n']);
        } else if ends_with_bin(s) {
            assert(s.subrange(n - 4, n as int)[0] == '-');
            assert(s.subrange(n - 4, n as int)[1] == 'b');
            assert(s.subrange(n - 4, n as int)[2] == 'i');
            assert(s.subrange(n - 4, n as int)[3] == 'n');
        }
    }
    r
}

} // verus!
