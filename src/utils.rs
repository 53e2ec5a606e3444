//! Conversions between words, byte strings and hex text.

use vstd::prelude::*;
use vstd::string::*;
use ethereum_types::U256;
use crate::word::{Word, be_value, be_bytes, word_from_be, word_to_be, lemma_be_bytes_len};
use crate::lexer::{str_chars, string_from_chars, chars_eq, message_with_name};

verus! {

/// The lowercase hex digit of a value below 16.
pub open spec fn hex_char(d: nat) -> char {
    if d < 10 {
        ((d + 0x30) as u8) as char
    } else {
        ((d - 10 + 0x61) as u8) as char
    }
}

/// Two lowercase hex digits per byte, in order.
pub open spec fn hex_of(b: Seq<u8>) -> Seq<char>
    decreases b.len(),
{
    if b.len() == 0 {
        Seq::empty()
    } else {
        hex_of(b.drop_last()) + seq![hex_char(b.last() as nat / 16), hex_char(b.last() as nat % 16)]
    }
}

/// The lowercase hex digits of `v`, with no leading zeros (a single `0` for zero).
pub open spec fn hex_digits(v: nat) -> Seq<char>
    decreases v,
{
    if v < 16 {
        seq![hex_char(v)]
    } else {
        hex_digits(v / 16) + seq![hex_char(v % 16)]
    }
}

/// Relies on hex::encode: two lowercase hex digits for each byte, in order.
#[verifier::external_body]
fn hex_encode(bytes: &[u8]) -> (r: String)
    ensures
        r@ == hex_of(bytes@),
{
    hex::encode(bytes)
}

/// Relies on U256's `LowerHex`: the value in lowercase hex without leading zeros.
#[verifier::external_body]
fn word_lower_hex(w: Word) -> (r: String)
    ensures
        r@ == hex_digits(w.val()),
{
    format!("{:x}", U256([w.l0, w.l1, w.l2, w.l3]))
}

/// The word whose big-endian bytes are `bytes`, zero-padded on the left; of a longer input
/// only the first 32 bytes count.
pub fn bytes_to_u256(bytes: &[u8]) -> (r: Word)
    ensures
        bytes@.len() <= 32 ==> r.val() == be_value(bytes@),
        bytes@.len() > 32 ==> r.val() == be_value(bytes@.subrange(0, 32)),
{
    if bytes.len() <= 32 {
        word_from_be(bytes)
    } else {
        let mut head: Vec<u8> = Vec::new();
        let mut i: usize = 0;
        while i < 32
            invariant
                i <= 32,
                bytes@.len() > 32,
                head@ == bytes@.subrange(0, i as int),
            decreases 32 - i,
        {
            head.push(bytes[i]);
            i = i + 1;
            assert(head@ =~= bytes@.subrange(0, i as int));
        }
        word_from_be(head.as_slice())
    }
}

/// The 32 big-endian bytes of a word.
pub fn u256_to_bytes(value: Word) -> (r: Vec<u8>)
    ensures
        r@ == be_bytes(value.val(), 32),
        r@.len() == 32,
{
    proof {
        lemma_be_bytes_len(value.val(), 32);
    }
    word_to_be(value)
}

/// The 32 big-endian bytes of a word, as an array.
pub fn u256_to_bytes32(value: Word) -> (r: [u8; 32])
    ensures
        r@ == be_bytes(value.val(), 32),
{
    let v = u256_to_bytes(value);
    let mut out = [0u8; 32];
    let mut i: usize = 0;
    while i < 32
        invariant
            i <= 32,
            v@.len() == 32,
            out@.len() == 32,
            forall|k: int| 0 <= k < i ==> out@[k] == v@[k],
        decreases 32 - i,
    {
        out[i] = v[i];
        i = i + 1;
    }
    assert(out@ =~= v@);
    out
}

/// Resizes to `new_size` (cutting off, or padding with zeros), unless that exceeds
/// `max_size`, in which case nothing changes.
pub fn safe_resize(vec: &mut Vec<u8>, new_size: usize, max_size: usize) -> (r: Result<(), String>)
    ensures
        r is Err == (new_size > max_size),
        r is Err ==> final(vec)@ == old(vec)@,
        r is Ok && new_size <= old(vec)@.len() ==> final(vec)@ == old(vec)@.subrange(0, new_size as int),
        r is Ok && new_size > old(vec)@.len() ==> final(vec)@ == old(vec)@ + Seq::new(
            (new_size - old(vec)@.len()) as nat,
            |i: int| 0u8,
        ),
{
    if new_size > max_size {
        return Err(String::from_str("Size exceeds maximum"));
    }
    if new_size <= vec.len() {
        vec.truncate(new_size);
    } else {
        let ghost start = vec@;
        while vec.len() < new_size
            invariant
                start.len() <= vec@.len() <= new_size,
                vec@ == start + Seq::new((vec@.len() - start.len()) as nat, |i: int| 0u8),
            decreases new_size - vec@.len(),
        {
            vec.push(0);
            assert(vec@ =~= start + Seq::new((vec@.len() - start.len()) as nat, |i: int| 0u8));
        }
    }
    Ok(())
}

/// `0x` and the value in lowercase hex without leading zeros.
pub fn format_hex_u256(value: Word) -> (r: String)
    ensures
        r@ == seq!['0', 'x'] + hex_digits(value.val()),
{
    let digits = word_lower_hex(value);
    proof {
        reveal_strlit("0x");
    }
    let mut v = str_chars("0x");
    assert(v@ =~= seq!['0', 'x']);
    let d = str_chars(digits.as_str());
    append_chars(&mut v, &d);
    string_from_chars(&v)
}

/// `0x` and two lowercase hex digits per byte.
pub fn format_hex_bytes(bytes: &[u8]) -> (r: String)
    ensures
        r@ == seq!['0', 'x'] + hex_of(bytes@),
{
    let hex = hex_encode(bytes);
    proof {
        reveal_strlit("0x");
    }
    let mut v = str_chars("0x");
    assert(v@ =~= seq!['0', 'x']);
    let d = str_chars(hex.as_str());
    append_chars(&mut v, &d);
    string_from_chars(&v)
}

fn append_chars(v: &mut Vec<char>, d: &Vec<char>)
    ensures
        final(v)@ == old(v)@ + d@,
{
    let mut i: usize = 0;
    while i < d.len()
        invariant
            i <= d@.len(),
            v@ == old(v)@ + d@.subrange(0, i as int),
        decreases d@.len() - i,
    {
        v.push(d[i]);
        i = i + 1;
        assert(v@ =~= old(v)@ + d@.subrange(0, i as int));
    }
    assert(d@.subrange(0, d@.len() as int) == d@);
}

/// The bytecode, as hex text, of a named example: `simple-add`, `simple-mul` or `storage`.
pub fn get_example_bytecode(example: &str) -> (r: Result<String, String>)
    ensures
        example@ == "simple-add"@ ==> r is Ok && r->Ok_0@ == "6001600201"@,
        example@ == "simple-mul"@ ==> r is Ok && r->Ok_0@ == "6002600302"@,
        example@ == "storage"@ ==> r is Ok && r->Ok_0@ == "6001600055600054"@,
        r is Err == !(example@ == "simple-add"@ || example@ == "simple-mul"@ || example@ == "storage"@),
{
    proof {
        reveal_strlit("simple-add");
        reveal_strlit("simple-mul");
        reveal_strlit("storage");
        assert("simple-add"@[7] != "simple-mul"@[7]);
        assert("simple-add"@.len() != "storage"@.len());
        assert("simple-mul"@.len() != "storage"@.len());
    }
    let e = str_chars(example);
    let add = str_chars("simple-add");
    let mul = str_chars("simple-mul");
    let sto = str_chars("storage");
    if chars_eq(&e, add.as_slice()) {
        Ok(String::from_str("6001600201"))
    } else if chars_eq(&e, mul.as_slice()) {
        Ok(String::from_str("6002600302"))
    } else if chars_eq(&e, sto.as_slice()) {
        Ok(String::from_str("6001600055600054"))
    } else {
        let name = String::from_str(example);
        Err(message_with_name("Unknown example: ", &name))
    }
}

/// Whether a byte is printable ASCII (space through tilde).
pub open spec fn is_printable(b: u8) -> bool {
    32 <= b <= 126
}

/// Relies on String::from_utf8: `Some` for valid UTF-8; ASCII bytes decode one char each.
#[verifier::external_body]
fn utf8_text(data: &[u8]) -> (r: Option<String>)
    ensures
        (forall|i: int| 0 <= i < data@.len() ==> data@[i] < 128) ==> r is Some && r->Some_0@
            == data@.map_values(|b: u8| b as char),
{
    String::from_utf8(data.to_vec()).ok()
}

/// The text of logged bytes: the bytes as UTF-8 where they are valid, else only their
/// printable ASCII bytes.
pub fn decode_string_from_bytes(data: &[u8]) -> (r: String)
    ensures
        (forall|i: int| 0 <= i < data@.len() ==> is_printable(data@[i])) ==> r@ == data@.map_values(
            |b: u8| b as char,
        ),
{
    match utf8_text(data) {
        Some(s) => s,
        None => {
            let mut kept: Vec<char> = Vec::new();
            let mut i: usize = 0;
            while i < data.len()
                invariant
                    i <= data@.len(),
                decreases data@.len() - i,
            {
                let b = data[i];
                if 32 <= b && b <= 126 {
                    kept.push(b as char);
                }
                i = i + 1;
            }
            string_from_chars(&kept)
        },
    }
}

} // verus!
