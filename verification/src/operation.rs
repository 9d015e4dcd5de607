//! Operation identifiers and their fixed-width textual encoding.
//!
//! Every payment operation is tracked under a globally unique, content
//! derived identifier of 32 bytes: one byte tagging the operation kind and
//! the tail of the payment hash the operation settles against.  Waiting
//! commands address an operation by the identifier's textual form, exactly
//! 64 lowercase hexadecimal digits; the encoding round-trips.

use vstd::prelude::*;

use crate::invoice::PAYMENT_HASH_LEN;

verus! {

/// The length of an identifier's textual form: two digits per byte.
pub const OPERATION_ID_TEXT_LEN: usize = 64;

/// The tag byte of an identifier derived for an outbound payment.
pub const SEND_KIND_TAG: u8 = 0x73;

/// The tag byte of an identifier derived for an inbound payment.
pub const RECEIVE_KIND_TAG: u8 = 0x72;

/// Which half of the payment lifecycle an operation drives.
#[derive(Clone, Copy, Debug, PartialEq, Eq, Structural)]
pub enum OperationKind {
    Send,
    Receive,
}

/// The globally unique identifier of one payment operation.
pub struct OperationId {
    pub bytes: Vec<u8>,
}

impl OperationId {
    /// An identifier always has the fixed width of a payment hash.
    pub open spec fn wf(&self) -> bool {
        self.bytes@.len() == PAYMENT_HASH_LEN
    }
}

/// The tag byte of an operation kind.
pub open spec fn kind_tag(kind: OperationKind) -> u8 {
    match kind {
        OperationKind::Send => SEND_KIND_TAG,
        OperationKind::Receive => RECEIVE_KIND_TAG,
    }
}

/// The identifier derived from an operation's content: the kind's tag byte
/// followed by the tail of the payment hash.  Two operations of different
/// kinds on the same invoice get distinct identifiers, and replaying the
/// same operation derives the same identifier, which is what makes a retry
/// safe rather than a double execution.
pub open spec fn derived_id(kind: OperationKind, hash: Seq<u8>) -> Seq<u8> {
    hash.update(0, kind_tag(kind))
}

/// Derive the identifier of an operation from its kind and payment hash.
pub fn derive_operation_id(kind: OperationKind, payment_hash: &Vec<u8>) -> (r: OperationId)
    requires
        payment_hash@.len() == PAYMENT_HASH_LEN,
    ensures
        r.wf(),
        r.bytes@ == derived_id(kind, payment_hash@),
{
    let mut bytes = crate::consensus::copy_bytes(payment_hash);
    let tag = match kind {
        OperationKind::Send => SEND_KIND_TAG,
        OperationKind::Receive => RECEIVE_KIND_TAG,
    };
    bytes[0] = tag;
    proof {
        assert(bytes@ =~= derived_id(kind, payment_hash@));
    }
    OperationId { bytes }
}

/// Byte-wise equality of two identifiers.
pub fn operation_id_eq(a: &OperationId, b: &OperationId) -> (r: bool)
    ensures
        r == (a.bytes@ == b.bytes@),
{
    crate::consensus::bytes_eq(&a.bytes, &b.bytes)
}

/// The lowercase hexadecimal digit of a value below 16.
pub open spec fn nibble_char(d: u8) -> char {
    if d == 0 {
        '0'
    } else if d == 1 {
        '1'
    } else if d == 2 {
        '2'
    } else if d == 3 {
        '3'
    } else if d == 4 {
        '4'
    } else if d == 5 {
        '5'
    } else if d == 6 {
        '6'
    } else if d == 7 {
        '7'
    } else if d == 8 {
        '8'
    } else if d == 9 {
        '9'
    } else if d == 10 {
        'a'
    } else if d == 11 {
        'b'
    } else if d == 12 {
        'c'
    } else if d == 13 {
        'd'
    } else if d == 14 {
        'e'
    } else {
        'f'
    }
}

/// The value of a lowercase hexadecimal digit; `-1` for any other character.
pub open spec fn nibble_val(c: char) -> int {
    if c == '0' {
        0
    } else if c == '1' {
        1
    } else if c == '2' {
        2
    } else if c == '3' {
        3
    } else if c == '4' {
        4
    } else if c == '5' {
        5
    } else if c == '6' {
        6
    } else if c == '7' {
        7
    } else if c == '8' {
        8
    } else if c == '9' {
        9
    } else if c == 'a' {
        10
    } else if c == 'b' {
        11
    } else if c == 'c' {
        12
    } else if c == 'd' {
        13
    } else if c == 'e' {
        14
    } else if c == 'f' {
        15
    } else {
        -1
    }
}

/// The hexadecimal text of a byte string: the high digit then the low digit
/// of each byte, in order.
pub open spec fn hex_of(bytes: Seq<u8>) -> Seq<char> {
    Seq::new(
        bytes.len() * 2,
        |i: int|
            if i % 2 == 0 {
                nibble_char(bytes[i / 2] / 16)
            } else {
                nibble_char(bytes[i / 2] % 16)
            },
    )
}

/// Decoding inverts encoding on every digit value.
proof fn lemma_nibble_round_trip(d: u8)
    requires
        d < 16,
    ensures
        nibble_val(nibble_char(d)) == d as int,
{
}

/// Two bytes with the same hexadecimal digits are the same byte.
proof fn lemma_nibble_injective(d1: u8, d2: u8)
    requires
        d1 < 16,
        d2 < 16,
        nibble_char(d1) == nibble_char(d2),
    ensures
        d1 == d2,
{
    lemma_nibble_round_trip(d1);
    lemma_nibble_round_trip(d2);
}

/// Law: the textual encoding is injective — two byte strings with the same
/// hexadecimal text are equal, so an identifier round-trips through its
/// textual form without loss.
pub proof fn lemma_hex_injective(a: Seq<u8>, b: Seq<u8>)
    requires
        hex_of(a) == hex_of(b),
    ensures
        a == b,
{
    assert(hex_of(a).len() == a.len() * 2);
    assert(hex_of(b).len() == b.len() * 2);
    assert(a.len() == b.len());
    assert forall|i: int| 0 <= i < a.len() implies a[i] == b[i] by {
        assert(hex_of(a)[2 * i] == nibble_char(a[i] / 16));
        assert(hex_of(a)[2 * i + 1] == nibble_char(a[i] % 16));
        assert(hex_of(b)[2 * i] == nibble_char(b[i] / 16));
        assert(hex_of(b)[2 * i + 1] == nibble_char(b[i] % 16));
        assert(hex_of(a)[2 * i] == hex_of(b)[2 * i]);
        assert(hex_of(a)[2 * i + 1] == hex_of(b)[2 * i + 1]);
        assert((2 * i) / 2 == i && (2 * i) % 2 == 0);
        assert((2 * i + 1) / 2 == i && (2 * i + 1) % 2 == 1);
        lemma_nibble_injective(a[i] / 16, b[i] / 16);
        lemma_nibble_injective(a[i] % 16, b[i] % 16);
        assert(a[i] == 16 * (a[i] / 16) + a[i] % 16);
        assert(b[i] == 16 * (b[i] / 16) + b[i] % 16);
    }
    assert(a =~= b);
}

/// Append the lowercase hexadecimal digit of `d` to `s`.
fn push_nibble(s: &mut String, d: u8)
    requires
        d < 16,
    ensures
        final(s)@ == old(s)@ + seq![nibble_char(d)],
{
    proof {
        reveal_strlit("0");
        reveal_strlit("1");
        reveal_strlit("2");
        reveal_strlit("3");
        reveal_strlit("4");
        reveal_strlit("5");
        reveal_strlit("6");
        reveal_strlit("7");
        reveal_strlit("8");
        reveal_strlit("9");
        reveal_strlit("a");
        reveal_strlit("b");
        reveal_strlit("c");
        reveal_strlit("d");
        reveal_strlit("e");
        reveal_strlit("f");
    }
    match d {
        0 => s.append("0"),
        1 => s.append("1"),
        2 => s.append("2"),
        3 => s.append("3"),
        4 => s.append("4"),
        5 => s.append("5"),
        6 => s.append("6"),
        7 => s.append("7"),
        8 => s.append("8"),
        9 => s.append("9"),
        10 => s.append("a"),
        11 => s.append("b"),
        12 => s.append("c"),
        13 => s.append("d"),
        14 => s.append("e"),
        _ => s.append("f"),
    }
    proof {
        assert(s@ =~= old(s)@ + seq![nibble_char(d)]);
    }
}

/// The textual form of an identifier: exactly 64 lowercase hexadecimal
/// digits, two per byte, in byte order.
pub fn encode_operation_id(id: &OperationId) -> (s: String)
    requires
        id.wf(),
    ensures
        s@ == hex_of(id.bytes@),
        s@.len() == OPERATION_ID_TEXT_LEN,
{
    let ghost bs = id.bytes@;
    let mut s = String::new();
    let n = id.bytes.len();
    let mut i: usize = 0;
    while i < n
        invariant
            n == bs.len(),
            id.bytes@ == bs,
            0 <= i <= n,
            s@ == hex_of(bs).subrange(0, 2 * i as int),
        decreases n - i,
    {
        let b = id.bytes[i];
        push_nibble(&mut s, b / 16);
        push_nibble(&mut s, b % 16);
        proof {
            assert((2 * i as int) % 2 == 0 && (2 * i as int) / 2 == i as int);
            assert((2 * i as int + 1) % 2 == 1 && (2 * i as int + 1) / 2 == i as int);
            assert(hex_of(bs)[2 * i as int] == nibble_char(b / 16));
            assert(hex_of(bs)[2 * i as int + 1] == nibble_char(b % 16));
            assert(s@ =~= hex_of(bs).subrange(0, 2 * (i + 1) as int));
        }
        i += 1;
    }
    proof {
        assert(hex_of(bs).subrange(0, 2 * n as int) =~= hex_of(bs));
    }
    s
}

/// The value of a lowercase hexadecimal digit, or 16 for any other
/// character.
fn nibble_from_char(c: char) -> (r: u8)
    ensures
        r < 16 ==> nibble_val(c) == r as int,
        r == 16 ==> nibble_val(c) == -1,
        r <= 16,
{
    match c {
        '0' => 0,
        '1' => 1,
        '2' => 2,
        '3' => 3,
        '4' => 4,
        '5' => 5,
        '6' => 6,
        '7' => 7,
        '8' => 8,
        '9' => 9,
        'a' => 10,
        'b' => 11,
        'c' => 12,
        'd' => 13,
        'e' => 14,
        'f' => 15,
        _ => 16,
    }
}

/// Parse the textual form of an identifier.  Succeeds iff the text is
/// exactly 64 lowercase hexadecimal digits, and then returns the identifier
/// whose encoding is that text — the round trip in both directions.
pub fn decode_operation_id(s: &str) -> (r: Option<OperationId>)
    ensures
        r is Some <==> (s@.len() == OPERATION_ID_TEXT_LEN && forall|i: int|
            0 <= i < s@.len() ==> nibble_val(#[trigger] s@[i]) >= 0),
        r matches Some(id) ==> id.wf() && hex_of(id.bytes@) == s@,
{
    let len = s.unicode_len();
    if len != 64 {
        return None;
    }
    let mut bytes: Vec<u8> = Vec::new();
    let mut i: usize = 0;
    while i < 32
        invariant
            s@.len() == 64,
            0 <= i <= 32,
            bytes@.len() == i,
            forall|k: int| 0 <= k < 2 * i ==> nibble_val(#[trigger] s@[k]) >= 0,
            hex_of(bytes@) =~= s@.subrange(0, 2 * i as int),
        decreases 32 - i,
    {
        let hi = nibble_from_char(s.get_char(2 * i));
        if hi == 16 {
            proof {
                assert(nibble_val(s@[2 * i as int]) < 0);
            }
            return None;
        }
        let lo = nibble_from_char(s.get_char(2 * i + 1));
        if lo == 16 {
            proof {
                assert(nibble_val(s@[2 * i as int + 1]) < 0);
            }
            return None;
        }
        let b = 16 * hi + lo;
        bytes.push(b);
        proof {
            assert(b / 16 == hi && b % 16 == lo);
            lemma_nibble_round_trip(hi);
            lemma_nibble_round_trip(lo);
            assert(nibble_char(hi) == s@[2 * i as int]) by {
                assert(nibble_val(s@[2 * i as int]) == hi as int);
            }
            assert(nibble_char(lo) == s@[2 * i as int + 1]) by {
                assert(nibble_val(s@[2 * i as int + 1]) == lo as int);
            }
            assert(hex_of(bytes@) =~= s@.subrange(0, 2 * (i + 1) as int));
        }
        i += 1;
    }
    proof {
        assert(s@.subrange(0, 64) =~= s@);
        assert(hex_of(bytes@) == s@);
    }
    Some(OperationId { bytes })
}

} // verus!
