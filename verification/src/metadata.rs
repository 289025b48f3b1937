//! Resource metadata as msgpack.

use vstd::prelude::*;
use vstd::string::StringSliceAdditionalSpecFns;
use vstd::utf8::{encode_utf8, encode_utf8_decode_utf8, is_ascii_chars_encode_utf8};

verus! {

/// The header of `n` bytes of binary data: the shortest of the three forms that msgpack
/// has for it.
pub open spec fn binary_header(n: nat) -> Seq<u8> {
    if n < 0x100 {
        seq![0xc4u8, n as u8]
    } else if n < 0x1_0000 {
        seq![0xc5u8, (n / 0x100) as u8, (n % 0x100) as u8]
    } else {
        seq![
            0xc6u8,
            (n / 0x100_0000) as u8,
            (n / 0x1_0000 % 0x100) as u8,
            (n / 0x100 % 0x100) as u8,
            (n % 0x100) as u8,
        ]
    }
}

/// A map of one entry, from a short text to binary data. The length in the header of
/// the data has 32 bits.
pub open spec fn binary_entry(key: Seq<u8>, value: Seq<u8>) -> Seq<u8> {
    seq![0x81u8, (0xa0 + key.len()) as u8] + key + binary_header(value.len() % 0x1_0000_0000)
        + value
}

/// Calls `rmpv::encode::write_value` on a map whose one entry leads from the string
/// `key` to the binary `value`. It writes the marker of a map of one entry, the marker
/// of a string of fewer than 32 bytes and the string, and the shortest binary header
/// for the low 32 bits of the value's length and the value. Writing to a vector does not
/// fail.
#[verifier::external_body]
fn encode_binary_entry(key: &str, value: Vec<u8>) -> (r: Vec<u8>)
    requires
        key.spec_bytes().len() < 32,
    ensures
        r@ == binary_entry(key.spec_bytes(), value@),
{
    let entries = vec![(
        rmpv::Value::String(rmpv::Utf8String::from(key)),
        rmpv::Value::Binary(value),
    )];
    let mut buf = Vec::new();
    let _ = rmpv::encode::write_value(&mut buf, &rmpv::Value::Map(entries));
    buf
}

/// The metadata for a file of this name.
pub open spec fn name_metadata(file_name: Seq<char>) -> Seq<u8> {
    binary_entry(seq![0x6eu8, 0x61u8, 0x6du8, 0x65u8], encode_utf8(file_name))
}

/// Packs NomadNet / rncp-compatible Resource filename metadata:
/// msgpack map `{"name": <utf-8 path as Binary>}`.
pub fn pack_file_name_metadata(file_name: &str) -> (r: Vec<u8>)
    ensures
        r@ == name_metadata(file_name@),
{
    proof {
        reveal_strlit("name");
        is_ascii_chars_encode_utf8("name"@);
        assert("name".spec_bytes() =~= seq![0x6eu8, 0x61u8, 0x6du8, 0x65u8]);
    }
    encode_binary_entry("name", crate::wire::copy_bytes(file_name.as_bytes()))
}

// ---- reading metadata ----

/// `rest`, if it is as long as its header says.
pub open spec fn exactly(rest: Seq<u8>, n: int) -> Option<Seq<u8>> {
    if rest.len() == n {
        Some(rest)
    } else {
        None
    }
}

/// The binary data that msgpack has in these bytes, if they hold that and nothing else.
pub open spec fn read_binary(bytes: Seq<u8>) -> Option<Seq<u8>> {
    if bytes.len() >= 2 && bytes[0] == 0xc4 {
        exactly(bytes.skip(2), bytes[1] as int)
    } else if bytes.len() >= 3 && bytes[0] == 0xc5 {
        exactly(bytes.skip(3), bytes[1] * 0x100 + bytes[2])
    } else if bytes.len() >= 5 && bytes[0] == 0xc6 {
        exactly(
            bytes.skip(5),
            bytes[1] * 0x100_0000 + bytes[2] * 0x1_0000 + bytes[3] * 0x100 + bytes[4],
        )
    } else {
        None
    }
}

/// The entry of a msgpack map from a short text to binary data, if these bytes hold a map
/// of one such entry and nothing else.
pub open spec fn read_binary_entry(bytes: Seq<u8>) -> Option<(Seq<u8>, Seq<u8>)> {
    if bytes.len() < 2 || bytes[0] != 0x81 || !(0xa0 <= bytes[1] < 0xc0) || bytes.len() < 2 + (
    bytes[1] - 0xa0) {
        None
    } else {
        let end = 2 + (bytes[1] - 0xa0);
        match read_binary(bytes.skip(end)) {
            Some(value) => Some((bytes.subrange(2, end), value)),
            None => None,
        }
    }
}

proof fn lemma_binary_reads_back(value: Seq<u8>)
    requires
        value.len() < 0x1_0000_0000,
    ensures
        read_binary(binary_header(value.len()) + value) == Some(value),
{
    let n = value.len();
    let header = binary_header(n);
    let bytes = header + value;
    assert(bytes.skip(header.len() as int) =~= value);
    assert(forall|i: int| 0 <= i < header.len() ==> bytes[i] == header[i]);
    if n >= 0x1_0000 {
        assert(n == n / 0x100_0000 * 0x100_0000 + n / 0x1_0000 % 0x100 * 0x1_0000 + n / 0x100
            % 0x100 * 0x100 + n % 0x100);
    }
}

/// Metadata reads back, with nothing left over: the one entry leads from the text `name`
/// to the bytes of the file's name. The length of longer names does not fit its header.
pub proof fn file_name_reads_back(file_name: Seq<char>)
    requires
        encode_utf8(file_name).len() < 0x1_0000_0000,
    ensures
        read_binary_entry(name_metadata(file_name)) == Some(
            (encode_utf8("name"@), encode_utf8(file_name)),
        ),
{
    reveal_strlit("name");
    is_ascii_chars_encode_utf8("name"@);
    let key = seq![0x6eu8, 0x61u8, 0x6du8, 0x65u8];
    let value = encode_utf8(file_name);
    assert(encode_utf8("name"@) =~= key);
    lemma_binary_reads_back(value);
    let bytes = name_metadata(file_name);
    assert(bytes.skip(6) =~= binary_header(value.len()) + value);
    assert(bytes.subrange(2, 6) =~= key);
}

/// Two different names never give the same metadata, however long they are.
pub proof fn file_names_are_told_apart(a: Seq<char>, b: Seq<char>)
    requires
        a != b,
    ensures
        name_metadata(a) != name_metadata(b),
{
    if name_metadata(a) == name_metadata(b) {
        let x = encode_utf8(a);
        let y = encode_utf8(b);
        let h = binary_header(x.len() % 0x1_0000_0000);
        let k = binary_header(y.len() % 0x1_0000_0000);
        // The first byte of a header says how long the header is.
        assert(name_metadata(a)[6] == h[0]);
        assert(name_metadata(b)[6] == k[0]);
        assert(h.len() == k.len());
        assert(name_metadata(a).skip((6 + h.len()) as int) =~= x);
        assert(name_metadata(b).skip((6 + h.len()) as int) =~= y);
        encode_utf8_decode_utf8(a);
        encode_utf8_decode_utf8(b);
    }
}

} // verus!
