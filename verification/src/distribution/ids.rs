//! Reversible encoding of small dataset indices into opaque 128-bit
//! identifiers shaped like random (version 4) UUIDs.
//!
//! Backends are handed realistic-looking primary keys while the harness can
//! still recover the original dataset index from any identifier it gets back.

use vstd::prelude::*;

use crate::text::{append_hex_byte, hex_pair, push_char};

verus! {

/// An opaque 128-bit identifier, stored as its 16 raw bytes.
#[derive(Clone, PartialEq, Eq, Debug)]
pub struct FakeUuid {
    bytes: Vec<u8>,
}

/// Byte `k` (big-endian, `0` is the most significant) of a 64-bit integer.
pub open spec fn be_byte(id: u64, k: int) -> u8 {
    (id >> ((7 - k) * 8)) as u8
}

/// The byte at position `i` of the identifier that encodes `id`: the eight
/// big-endian bytes of `id` twice over, with the UUID version nibble forced
/// into byte 6 and the UUID variant bits forced into byte 8.
pub open spec fn encoded_byte(id: u64, i: int) -> u8 {
    if i == 6 {
        ((be_byte(id, 6) & 0x0f) | 0x40) as u8
    } else if i == 8 {
        ((be_byte(id, 0) & 0x3f) | 0x80) as u8
    } else {
        be_byte(id, i % 8)
    }
}

impl FakeUuid {
    /// The identifier's sixteen bytes.
    pub closed spec fn view(&self) -> Seq<u8> {
        self.bytes@
    }

    pub open spec fn wf(&self) -> bool {
        self@.len() == 16
    }

    /// The sixteen raw bytes of the identifier.
    pub fn as_bytes(&self) -> (r: &Vec<u8>)
        ensures
            r@ == self@,
    {
        &self.bytes
    }

    /// Builds an identifier from sixteen raw bytes.
    pub fn from_bytes(bytes: Vec<u8>) -> (r: FakeUuid)
        requires
            bytes@.len() == 16,
        ensures
            r@ == bytes@,
            r.wf(),
    {
        FakeUuid { bytes }
    }
}

/// The canonical hyphenated rendering of sixteen identifier bytes: five
/// groups of lower-case hexadecimal digits, 8-4-4-4-12.
pub open spec fn uuid_str(bytes: Seq<u8>) -> Seq<char> {
    hex_pair(bytes[0]) + hex_pair(bytes[1]) + hex_pair(bytes[2]) + hex_pair(bytes[3]) + seq!['-']
        + hex_pair(bytes[4]) + hex_pair(bytes[5]) + seq!['-'] + hex_pair(bytes[6]) + hex_pair(
        bytes[7],
    ) + seq!['-'] + hex_pair(bytes[8]) + hex_pair(bytes[9]) + seq!['-'] + hex_pair(bytes[10])
        + hex_pair(bytes[11]) + hex_pair(bytes[12]) + hex_pair(bytes[13]) + hex_pair(bytes[14])
        + hex_pair(bytes[15])
}

/// All sixteen bytes of the identifier that encodes `id`.
pub open spec fn encoded_bytes(id: u64) -> Seq<u8> {
    Seq::new(16, |i: int| encoded_byte(id, i))
}

impl FakeUuid {
    /// The identifier in its canonical hyphenated text form.
    pub fn hyphenated_string(&self) -> (r: String)
        requires
            self.wf(),
        ensures
            r@ == uuid_str(self@),
    {
        let mut s = String::new();
        append_hex_byte(&mut s, self.bytes[0]);
        append_hex_byte(&mut s, self.bytes[1]);
        append_hex_byte(&mut s, self.bytes[2]);
        append_hex_byte(&mut s, self.bytes[3]);
        push_char(&mut s, '-');
        append_hex_byte(&mut s, self.bytes[4]);
        append_hex_byte(&mut s, self.bytes[5]);
        push_char(&mut s, '-');
        append_hex_byte(&mut s, self.bytes[6]);
        append_hex_byte(&mut s, self.bytes[7]);
        push_char(&mut s, '-');
        append_hex_byte(&mut s, self.bytes[8]);
        append_hex_byte(&mut s, self.bytes[9]);
        push_char(&mut s, '-');
        append_hex_byte(&mut s, self.bytes[10]);
        append_hex_byte(&mut s, self.bytes[11]);
        append_hex_byte(&mut s, self.bytes[12]);
        append_hex_byte(&mut s, self.bytes[13]);
        append_hex_byte(&mut s, self.bytes[14]);
        append_hex_byte(&mut s, self.bytes[15]);
        assert(s@ =~= uuid_str(self@));
        s
    }
}

/// Encodes a dataset index as an opaque identifier: the index's eight
/// big-endian bytes repeated twice, with UUID version/variant bits stamped in.
pub fn index_to_fake_uuid(id: u64) -> (r: FakeUuid)
    ensures
        r.wf(),
        r@ == encoded_bytes(id),
{
    let mut bytes: Vec<u8> = Vec::new();
    let mut half: usize = 0;
    while half < 2
        invariant
            half <= 2,
            bytes@.len() == half * 8,
            forall|i: int| 0 <= i < bytes@.len() ==> bytes@[i] == be_byte(id, i % 8),
        decreases 2 - half,
    {
        let mut k: usize = 0;
        while k < 8
            invariant
                k <= 8,
                half < 2,
                bytes@.len() == half * 8 + k,
                forall|i: int| 0 <= i < bytes@.len() ==> bytes@[i] == be_byte(id, i % 8),
            decreases 8 - k,
        {
            let shift: u64 = ((7 - k) * 8) as u64;
            let b: u8 = (id >> shift) as u8;
            assert(b == be_byte(id, k as int));
            assert((half * 8 + k) % 8 == k) by (nonlinear_arith)
                requires half < 2 && k < 8;
            bytes.push(b);
            k = k + 1;
        }
        half = half + 1;
    }
    let b6: u8 = (bytes[6] & 0x0f) | 0x40;
    let b8: u8 = (bytes[8] & 0x3f) | 0x80;
    bytes.set(6, b6);
    bytes.set(8, b8);
    assert(bytes@ =~= encoded_bytes(id));
    FakeUuid { bytes }
}

/// Recovers the dataset index from an identifier produced by
/// [`index_to_fake_uuid`]: the last eight bytes read big-endian, with the
/// most significant byte (which carries the UUID variant bits) cleared.
pub fn fake_uuid_to_index(uuid: &FakeUuid) -> (r: u64)
    requires
        uuid.wf(),
    ensures
        r == decoded_index(uuid@),
{
    proof {
        assert(0u64 < (1u64 << 0u64)) by (bit_vector);
    }
    let mut r: u64 = 0;
    let mut k: usize = 9;
    while k < 16
        invariant
            9 <= k <= 16,
            uuid.wf(),
            r == partial_decoded(uuid@, k as int),
            r < (1u64 << (((k - 9) * 8) as u64)),
        decreases 16 - k,
    {
        let b = uuid.bytes[k];
        proof {
            lemma_partial_decoded_step(uuid@, k as int, r, b);
        }
        r = (r << 8) | (b as u64);
        k = k + 1;
    }
    r
}

/// The value read back from an identifier's last eight bytes, most
/// significant byte cleared.
pub open spec fn decoded_index(bytes: Seq<u8>) -> u64 {
    partial_decoded(bytes, 16)
}

/// The big-endian value of `bytes[9 .. k]`.
pub open spec fn partial_decoded(bytes: Seq<u8>, k: int) -> u64
    decreases k,
{
    if k <= 9 {
        0
    } else {
        ((partial_decoded(bytes, k - 1) << 8) | (bytes[k - 1] as u64)) as u64
    }
}

proof fn lemma_partial_decoded_step(bytes: Seq<u8>, k: int, r: u64, b: u8)
    requires
        9 <= k < 16,
        r == partial_decoded(bytes, k),
        r < (1u64 << (((k - 9) * 8) as u64)),
        b == bytes[k],
    ensures
        ((r << 8) | (b as u64)) == partial_decoded(bytes, k + 1),
        ((r << 8) | (b as u64)) < (1u64 << (((k - 8) * 8) as u64)),
{
    let s: u64 = ((k - 9) * 8) as u64;
    assert(r < (1u64 << s) && s <= 48 ==> ((r << 8) | (b as u64)) < (1u64 << ((s + 8) as u64)))
        by (bit_vector);
    assert(s <= 48);
}

/// Round trip: any index below `2^56` survives encoding and decoding
/// unchanged.
pub proof fn lemma_fake_uuid_round_trip(id: u64, bytes: Seq<u8>)
    requires
        id < 0x100_0000_0000_0000,
        bytes == encoded_bytes(id),
    ensures
        decoded_index(bytes) == id,
{
    let b1 = be_byte(id, 1);
    let b2 = be_byte(id, 2);
    let b3 = be_byte(id, 3);
    let b4 = be_byte(id, 4);
    let b5 = be_byte(id, 5);
    let b6 = be_byte(id, 6);
    let b7 = be_byte(id, 7);
    assert(decoded_index(bytes) == (((((((((((((0u64 << 8) | (b1 as u64)) << 8) | (b2 as u64))
        << 8) | (b3 as u64)) << 8) | (b4 as u64)) << 8) | (b5 as u64)) << 8) | (b6 as u64)) << 8)
        | (b7 as u64)) by {
        reveal_with_fuel(partial_decoded, 9);
        assert(bytes[9] == be_byte(id, 1) && bytes[10] == be_byte(id, 2) && bytes[11] == be_byte(
            id,
            3,
        ) && bytes[12] == be_byte(id, 4) && bytes[13] == be_byte(id, 5) && bytes[14] == be_byte(
            id,
            6,
        ) && bytes[15] == be_byte(id, 7));
    }
    assert(id < 0x100_0000_0000_0000 ==> (((((((((((((0u64 << 8) | ((id >> 48) as u8 as u64)) << 8)
        | ((id >> 40) as u8 as u64)) << 8) | ((id >> 32) as u8 as u64)) << 8) | ((id
        >> 24) as u8 as u64)) << 8) | ((id >> 16) as u8 as u64)) << 8) | ((id >> 8) as u8 as u64))
        << 8) | ((id >> 0) as u8 as u64) == id) by (bit_vector);
}

} // verus!
