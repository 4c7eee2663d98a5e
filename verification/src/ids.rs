//! Random identifiers: hexadecimal text, UUID version-4 bytes and their
//! hyphenated text.
use vstd::prelude::*;
use vstd::string::*;

verus! {

/// The lowercase hexadecimal digits.
pub open spec fn hex_digits() -> Seq<char> {
    seq!['0', '1', '2', '3', '4', '5', '6', '7', '8', '9', 'a', 'b', 'c', 'd', 'e', 'f']
}

/// Bytes written as lowercase hexadecimal, two digits per byte.
pub open spec fn hex_lower(bs: Seq<u8>) -> Seq<char>
    decreases bs.len(),
{
    if bs.len() == 0 {
        Seq::empty()
    } else {
        hex_lower(bs.drop_last()) + seq![
            hex_digits()[(bs.last() / 16) as int],
            hex_digits()[(bs.last() % 16) as int],
        ]
    }
}

/// Hexadecimal text has two lowercase hex digits per byte.
pub proof fn lemma_hex_lower_shape(bs: Seq<u8>)
    ensures
        hex_lower(bs).len() == 2 * bs.len(),
        forall|i: int| 0 <= i < hex_lower(bs).len() ==> hex_digits().contains(#[trigger] hex_lower(bs)[i]),
    decreases bs.len(),
{
    if bs.len() > 0 {
        lemma_hex_lower_shape(bs.drop_last());
        let h = hex_lower(bs);
        let p = hex_lower(bs.drop_last());
        assert forall|i: int| 0 <= i < h.len() implies hex_digits().contains(#[trigger] h[i]) by {
            if i < p.len() {
                assert(h[i] == p[i]);
            } else if i == p.len() {
                assert(h[i] == hex_digits()[(bs.last() / 16) as int]);
            } else {
                assert(h[i] == hex_digits()[(bs.last() % 16) as int]);
            }
        }
    }
}

/// A generated token is 32 lowercase hexadecimal digits.
pub proof fn lemma_generated_token_shape(b: Seq<u8>)
    requires
        b.len() == 16,
    ensures
        hex_lower(b).len() == 32,
        forall|i: int| 0 <= i < 32 ==> hex_digits().contains(#[trigger] hex_lower(b)[i]),
{
    lemma_hex_lower_shape(b);
}

/// The bytes of a version-4 UUID: 16 bytes, version 4 in the high half of
/// byte 6, the variant bits `10` at the top of byte 8.
pub open spec fn is_uuid_v4_bytes(b: Seq<u8>) -> bool {
    &&& b.len() == 16
    &&& b[6] / 16 == 4
    &&& b[8] / 64 == 2
}

/// Calls `uuid::Uuid::new_v4` and hands back the UUID's 16 bytes.  The bytes
/// are random apart from the version and variant bits that `new_v4` sets,
/// which is all this claims.
#[verifier::external_body]
fn random_uuid_v4_bytes() -> (r: [u8; 16])
    ensures
        is_uuid_v4_bytes(r@),
{
    *uuid::Uuid::new_v4().as_bytes()
}

/// The hyphenated text of UUID bytes: lowercase hex in groups of 8, 4, 4, 4
/// and 12 digits joined by `-`.
pub open spec fn uuid_text(b: Seq<u8>) -> Seq<char> {
    hex_lower(b.subrange(0, 4)) + "-"@ + hex_lower(b.subrange(4, 6)) + "-"@ + hex_lower(
        b.subrange(6, 8),
    ) + "-"@ + hex_lower(b.subrange(8, 10)) + "-"@ + hex_lower(b.subrange(10, 16))
}

/// The text of a fresh record identifier: a random version-4 UUID, hyphenated.
pub open spec fn is_uuid_v4_text(t: Seq<char>) -> bool {
    exists|b: Seq<u8>| is_uuid_v4_bytes(b) && t == uuid_text(b)
}

/// Calls `uuid::Uuid::new_v4` and `to_string`: the UUID as lowercase
/// hyphenated text.  Claims that the text is that of bytes with the version
/// and variant bits that `new_v4` sets; which bytes is left open.
#[verifier::external_body]
pub(crate) fn new_uuid_v4_text() -> (r: String)
    ensures
        is_uuid_v4_text(r@),
{
    uuid::Uuid::new_v4().to_string()
}

/// 16 random bytes: those of a random version-4 UUID, with the six bits that
/// the UUID version and variant fix replaced by random bits of a second one,
/// so that all 128 bits are random.
pub open spec fn mixed_random_bytes(a: Seq<u8>, b: Seq<u8>) -> Seq<u8> {
    a.update(6, ((a[6] & 0x0F) | (b[0] & 0xF0)) as u8).update(8, ((a[8] & 0x3F) | (b[1] & 0xC0)) as u8)
}

/// 16 bytes that are random throughout.
pub fn random_bytes_16() -> (r: [u8; 16])
    ensures
        exists|a: Seq<u8>, b: Seq<u8>|
            is_uuid_v4_bytes(a) && is_uuid_v4_bytes(b) && r@ == mixed_random_bytes(a, b),
{
    let mut a = random_uuid_v4_bytes();
    let b = random_uuid_v4_bytes();
    let ghost a0 = a@;
    let x6: u8 = (a[6] & 0x0F) | (b[0] & 0xF0);
    let x8: u8 = (a[8] & 0x3F) | (b[1] & 0xC0);
    a[6] = x6;
    a[8] = x8;
    assert(a@ =~= mixed_random_bytes(a0, b@));
    a
}

/// The digit for a value below 16.
pub(crate) fn hex_digit(d: u8) -> (r: &'static str)
    requires
        d < 16,
    ensures
        r@ == seq![hex_digits()[d as int]],
{
    proof {
        reveal_strlit("0");
        reveal_strlit("1");
        reveal_strlit("2");
        reveal_strlit("3");
        reveal_strlit("4");
        reveal_strlit("5");
        reveal_strlit("6");
        reveal_strlit("7");
        reveal_strlit("8");
        reveal_strlit("9");
        reveal_strlit("a");
        reveal_strlit("b");
        reveal_strlit("c");
        reveal_strlit("d");
        reveal_strlit("e");
        reveal_strlit("f");
    }
    let r = match d {
        0 => "0",
        1 => "1",
        2 => "2",
        3 => "3",
        4 => "4",
        5 => "5",
        6 => "6",
        7 => "7",
        8 => "8",
        9 => "9",
        10 => "a",
        11 => "b",
        12 => "c",
        13 => "d",
        14 => "e",
        _ => "f",
    };
    assert(r@ =~= seq![hex_digits()[d as int]]);
    r
}

/// Bytes written as lowercase hexadecimal.
pub fn hex_encode(bytes: &[u8]) -> (r: String)
    ensures
        r@ == hex_lower(bytes@),
{
    let mut r = String::new();
    let n = bytes.len();
    let mut i: usize = 0;
    while i < n
        invariant
            n == bytes@.len(),
            i <= n,
            r@ == hex_lower(bytes@.take(i as int)),
        decreases n - i,
    {
        let b = bytes[i];
        r.append(hex_digit(b / 16));
        r.append(hex_digit(b % 16));
        proof {
            let t = bytes@.take(i + 1);
            assert(t.drop_last() =~= bytes@.take(i as int));
            assert(t.last() == b);
        }
        i = i + 1;
    }
    proof {
        assert(bytes@.take(n as int) =~= bytes@);
    }
    r
}

} // verus!
