//! The byte encodings that requests are made of.
//!
//! Integers are little-endian. A flag is one byte, zero or one. A sequence
//! is its length as a 32-bit integer followed by its items.

use vstd::prelude::*;
use crate::key::{lemma_key_eq_by_view, Key};

verus! {

/// Why bytes were not accepted.
#[derive(Clone, Copy, Debug, PartialEq, Eq, Structural)]
pub enum DecodeError {
    /// The bytes are not the encoding of any value of the kind asked for.
    Malformed,
    /// The bytes encode a request, and one of its references names no
    /// supplied account.
    UnresolvedAccount,
}

/// The encoding of a flag.
pub open spec fn bool_byte(flag: bool) -> u8 {
    if flag {
        1
    } else {
        0
    }
}

/// The encoding of a 16-bit integer.
pub open spec fn u16_le(x: u16) -> Seq<u8> {
    seq![(x % 256) as u8, ((x / 256) % 256) as u8]
}

/// The encoding of a 32-bit integer.
pub open spec fn u32_le(x: u32) -> Seq<u8> {
    let x1 = x / 256;
    let x2 = x1 / 256;
    let x3 = x2 / 256;
    seq![(x % 256) as u8, (x1 % 256) as u8, (x2 % 256) as u8, (x3 % 256) as u8]
}

/// The encoding of a 64-bit integer.
pub open spec fn u64_le(x: u64) -> Seq<u8> {
    let x1 = x / 256;
    let x2 = x1 / 256;
    let x3 = x2 / 256;
    let x4 = x3 / 256;
    let x5 = x4 / 256;
    let x6 = x5 / 256;
    let x7 = x6 / 256;
    seq![
        (x % 256) as u8,
        (x1 % 256) as u8,
        (x2 % 256) as u8,
        (x3 % 256) as u8,
        (x4 % 256) as u8,
        (x5 % 256) as u8,
        (x6 % 256) as u8,
        (x7 % 256) as u8,
    ]
}

/// Distinct 32-bit integers have distinct encodings.
pub proof fn lemma_u32_le_injective(x: u32, y: u32)
    requires
        u32_le(x) == u32_le(y),
    ensures
        x == y,
{
    assert(u32_le(x)[0] == u32_le(y)[0]);
    assert(u32_le(x)[1] == u32_le(y)[1]);
    assert(u32_le(x)[2] == u32_le(y)[2]);
    assert(u32_le(x)[3] == u32_le(y)[3]);
}

/// Distinct 64-bit integers have distinct encodings.
pub proof fn lemma_u64_le_injective(x: u64, y: u64)
    requires
        u64_le(x) == u64_le(y),
    ensures
        x == y,
{
    assert(u64_le(x)[0] == u64_le(y)[0]);
    assert(u64_le(x)[1] == u64_le(y)[1]);
    assert(u64_le(x)[2] == u64_le(y)[2]);
    assert(u64_le(x)[3] == u64_le(y)[3]);
    assert(u64_le(x)[4] == u64_le(y)[4]);
    assert(u64_le(x)[5] == u64_le(y)[5]);
    assert(u64_le(x)[6] == u64_le(y)[6]);
    assert(u64_le(x)[7] == u64_le(y)[7]);
}

/// Reads the 32-bit integer at `at`.
pub fn read_u32(bytes: &[u8], at: usize) -> (x: u32)
    requires
        at + 4 <= bytes@.len(),
    ensures
        u32_le(x) == bytes@.subrange(at as int, at + 4),
{
    let len: usize = bytes.len();
    let x3: u32 = bytes[at + 3] as u32;
    let x2: u32 = x3 * 256 + bytes[at + 2] as u32;
    let x1: u32 = x2 * 256 + bytes[at + 1] as u32;
    let x: u32 = x1 * 256 + bytes[at] as u32;
    proof {
        assert(x / 256 == x1);
        assert(x1 / 256 == x2);
        assert(x2 / 256 == x3);
        assert(u32_le(x) =~= bytes@.subrange(at as int, at + 4));
    }
    x
}

/// Reads the 64-bit integer at `at`.
pub fn read_u64(bytes: &[u8], at: usize) -> (x: u64)
    requires
        at + 8 <= bytes@.len(),
    ensures
        u64_le(x) == bytes@.subrange(at as int, at + 8),
{
    let len: usize = bytes.len();
    let x7: u64 = bytes[at + 7] as u64;
    let x6: u64 = x7 * 256 + bytes[at + 6] as u64;
    let x5: u64 = x6 * 256 + bytes[at + 5] as u64;
    let x4: u64 = x5 * 256 + bytes[at + 4] as u64;
    let x3: u64 = x4 * 256 + bytes[at + 3] as u64;
    let x2: u64 = x3 * 256 + bytes[at + 2] as u64;
    let x1: u64 = x2 * 256 + bytes[at + 1] as u64;
    let x: u64 = x1 * 256 + bytes[at] as u64;
    proof {
        assert(x / 256 == x1);
        assert(x1 / 256 == x2);
        assert(x2 / 256 == x3);
        assert(x3 / 256 == x4);
        assert(x4 / 256 == x5);
        assert(x5 / 256 == x6);
        assert(x6 / 256 == x7);
        assert(u64_le(x) =~= bytes@.subrange(at as int, at + 8));
    }
    x
}

/// Reads the address at `at`.
pub fn read_key(bytes: &[u8], at: usize) -> (key: Key)
    requires
        at + 32 <= bytes@.len(),
    ensures
        key@ == bytes@.subrange(at as int, at + 32),
{
    let len: usize = bytes.len();
    let mut raw: [u8; 32] = [0u8; 32];
    let mut i: usize = 0;
    while i < 32
        invariant
            i <= 32,
            at + 32 <= bytes@.len() <= usize::MAX,
            forall|j: int| 0 <= j < i ==> raw@[j] == bytes@[at + j],
        decreases 32 - i,
    {
        raw[i] = bytes[at + i];
        i = i + 1;
    }
    proof {
        assert(raw@ =~= bytes@.subrange(at as int, at + 32));
    }
    Key { bytes: raw }
}

/// Copies the bytes from `from` up to `to`.
pub fn read_bytes(bytes: &[u8], from: usize, to: usize) -> (copy: Vec<u8>)
    requires
        from <= to <= bytes@.len(),
    ensures
        copy@ == bytes@.subrange(from as int, to as int),
{
    let mut copy: Vec<u8> = Vec::new();
    let mut i: usize = from;
    while i < to
        invariant
            from <= i <= to <= bytes@.len(),
            copy@ == bytes@.subrange(from as int, i as int),
        decreases to - i,
    {
        copy.push(bytes[i]);
        proof {
            assert(bytes@.subrange(from as int, i as int).push(bytes@[i as int]) =~= bytes@.subrange(
                from as int,
                i + 1,
            ));
        }
        i = i + 1;
    }
    copy
}

/// Reads a flag: zero is false, one is true, and nothing else is a flag.
pub fn read_flag(byte: u8) -> (flag: Option<bool>)
    ensures
        match flag {
            Some(flag) => bool_byte(flag) == byte,
            None => byte > 1,
        },
{
    if byte == 0 {
        Some(false)
    } else if byte == 1 {
        Some(true)
    } else {
        None
    }
}

/// Whether `part` stands in `bytes` from position `at` on.
pub open spec fn occurs_at(bytes: Seq<u8>, at: int, part: Seq<u8>) -> bool {
    &&& 0 <= at
    &&& at + part.len() <= bytes.len()
    &&& bytes.subrange(at, at + part.len()) == part
}

/// Two parts stand one behind the other exactly when their concatenation
/// stands where the first begins.
pub proof fn lemma_occurs_split(bytes: Seq<u8>, at: int, first: Seq<u8>, second: Seq<u8>)
    ensures
        occurs_at(bytes, at, first + second) <==> occurs_at(bytes, at, first) && occurs_at(
            bytes,
            at + first.len(),
            second,
        ),
{
    let whole = first + second;
    if occurs_at(bytes, at, whole) {
        let found = bytes.subrange(at, at + whole.len());
        assert forall|i: int| 0 <= i < first.len() implies bytes[at + i] == first[i] by {
            assert(found[i] == whole[i]);
        }
        assert forall|i: int| 0 <= i < second.len() implies bytes[at + first.len() + i]
            == second[i] by {
            assert(found[first.len() + i] == whole[first.len() + i]);
        }
        assert(bytes.subrange(at, at + first.len()) =~= first);
        assert(bytes.subrange(at + first.len(), at + first.len() + second.len()) =~= second);
    }
    if occurs_at(bytes, at, first) && occurs_at(bytes, at + first.len(), second) {
        let left = bytes.subrange(at, at + first.len());
        let right = bytes.subrange(at + first.len(), at + first.len() + second.len());
        assert forall|i: int| 0 <= i < whole.len() implies bytes[at + i] == whole[i] by {
            if i < first.len() {
                assert(left[i] == first[i]);
            } else {
                assert(right[i - first.len()] == second[i - first.len()]);
            }
        }
        assert(bytes.subrange(at, at + whole.len()) =~= whole);
    }
}

/// Distinct 16-bit integers have distinct encodings.
pub proof fn lemma_u16_le_injective(x: u16, y: u16)
    requires
        u16_le(x) == u16_le(y),
    ensures
        x == y,
{
    assert(u16_le(x)[0] == u16_le(y)[0]);
    assert(u16_le(x)[1] == u16_le(y)[1]);
}

/// Reads the 16-bit integer at `at`.
pub fn read_u16(bytes: &[u8], at: usize) -> (x: u16)
    requires
        at + 2 <= bytes@.len(),
    ensures
        u16_le(x) == bytes@.subrange(at as int, at + 2),
{
    let len: usize = bytes.len();
    let x1: u16 = bytes[at + 1] as u16;
    let x: u16 = x1 * 256 + bytes[at] as u16;
    proof {
        assert(x / 256 == x1);
        assert(u16_le(x) =~= bytes@.subrange(at as int, at + 2));
    }
    x
}

/// The encoding of a byte sequence: its length, then the bytes.
pub open spec fn encode_bytes(s: Seq<u8>) -> Seq<u8> {
    u32_le(s.len() as u32) + s
}

/// The bytes of a sequence of flags.
pub open spec fn flag_bytes(flags: Seq<bool>) -> Seq<u8> {
    Seq::new(flags.len(), |i: int| bool_byte(flags[i]))
}

/// The encoding of a sequence of flags: its length, then one byte per flag.
pub open spec fn encode_flags(flags: Seq<bool>) -> Seq<u8> {
    u32_le(flags.len() as u32) + flag_bytes(flags)
}

/// At most one byte sequence has its encoding at a given place.
pub proof fn lemma_bytes_unique(bytes: Seq<u8>, at: int, a: Seq<u8>, b: Seq<u8>)
    requires
        a.len() <= u32::MAX,
        b.len() <= u32::MAX,
        occurs_at(bytes, at, encode_bytes(a)),
        occurs_at(bytes, at, encode_bytes(b)),
    ensures
        a == b,
{
    lemma_occurs_split(bytes, at, u32_le(a.len() as u32), a);
    lemma_occurs_split(bytes, at, u32_le(b.len() as u32), b);
    lemma_u32_le_injective(a.len() as u32, b.len() as u32);
}

/// At most one sequence of flags has its encoding at a given place.
pub proof fn lemma_flags_unique(bytes: Seq<u8>, at: int, a: Seq<bool>, b: Seq<bool>)
    requires
        a.len() <= u32::MAX,
        b.len() <= u32::MAX,
        occurs_at(bytes, at, encode_flags(a)),
        occurs_at(bytes, at, encode_flags(b)),
    ensures
        a == b,
{
    lemma_occurs_split(bytes, at, u32_le(a.len() as u32), flag_bytes(a));
    lemma_occurs_split(bytes, at, u32_le(b.len() as u32), flag_bytes(b));
    lemma_u32_le_injective(a.len() as u32, b.len() as u32);
    assert forall|i: int| 0 <= i < a.len() implies a[i] == b[i] by {
        assert(flag_bytes(a)[i] == flag_bytes(b)[i]);
    }
    assert(a =~= b);
}

/// Reads the byte sequence whose encoding begins at `at`, and where it ends.
pub fn read_byte_vec(bytes: &[u8], at: usize) -> (out: Option<(Vec<u8>, usize)>)
    requires
        at <= bytes@.len(),
    ensures
        match out {
            Some((read, end)) => read@.len() <= u32::MAX && occurs_at(
                bytes@,
                at as int,
                encode_bytes(read@),
            ) && end == at + 4 + read@.len(),
            None => forall|s: Seq<u8>|
                s.len() <= u32::MAX ==> !occurs_at(bytes@, at as int, #[trigger] encode_bytes(s)),
        },
{
    let len: usize = bytes.len();
    if len - at < 4 {
        return None;
    }
    let count: u32 = read_u32(bytes, at);
    if ((len - at - 4) as u64) < count as u64 {
        proof {
            assert forall|s: Seq<u8>| s.len() <= u32::MAX implies !occurs_at(
                bytes@,
                at as int,
                #[trigger] encode_bytes(s),
            ) by {
                if occurs_at(bytes@, at as int, encode_bytes(s)) {
                    lemma_occurs_split(bytes@, at as int, u32_le(s.len() as u32), s);
                    lemma_u32_le_injective(s.len() as u32, count);
                }
            }
        }
        return None;
    }
    let end: usize = at + 4 + count as usize;
    let read = read_bytes(bytes, at + 4, end);
    proof {
        lemma_occurs_split(bytes@, at as int, u32_le(read@.len() as u32), read@);
    }
    Some((read, end))
}

/// Reads the sequence of flags whose encoding begins at `at`, and where it ends.
pub fn read_flag_vec(bytes: &[u8], at: usize) -> (out: Option<(Vec<bool>, usize)>)
    requires
        at <= bytes@.len(),
    ensures
        match out {
            Some((read, end)) => read@.len() <= u32::MAX && occurs_at(
                bytes@,
                at as int,
                encode_flags(read@),
            ) && end == at + 4 + read@.len(),
            None => forall|s: Seq<bool>|
                s.len() <= u32::MAX ==> !occurs_at(bytes@, at as int, #[trigger] encode_flags(s)),
        },
{
    let len: usize = bytes.len();
    if len - at < 4 {
        return None;
    }
    let count: u32 = read_u32(bytes, at);
    if ((len - at - 4) as u64) < count as u64 {
        proof {
            assert forall|s: Seq<bool>| s.len() <= u32::MAX implies !occurs_at(
                bytes@,
                at as int,
                #[trigger] encode_flags(s),
            ) by {
                if occurs_at(bytes@, at as int, encode_flags(s)) {
                    lemma_occurs_split(bytes@, at as int, u32_le(s.len() as u32), flag_bytes(s));
                    lemma_u32_le_injective(s.len() as u32, count);
                }
            }
        }
        return None;
    }
    let start: usize = at + 4;
    let mut read: Vec<bool> = Vec::new();
    let mut i: usize = 0;
    while i < count as usize
        invariant
            i <= count,
            start == at + 4,
            start + count <= bytes@.len() <= usize::MAX,
            u32_le(count) == bytes@.subrange(at as int, at + 4),
            read@.len() == i,
            forall|j: int| 0 <= j < i ==> bool_byte(#[trigger] read@[j]) == bytes@[start + j],
        decreases count - i,
    {
        match read_flag(bytes[start + i]) {
            Some(flag) => {
                read.push(flag);
            },
            None => {
                proof {
                    assert forall|s: Seq<bool>| s.len() <= u32::MAX implies !occurs_at(
                        bytes@,
                        at as int,
                        #[trigger] encode_flags(s),
                    ) by {
                        if occurs_at(bytes@, at as int, encode_flags(s)) {
                            lemma_occurs_split(
                                bytes@,
                                at as int,
                                u32_le(s.len() as u32),
                                flag_bytes(s),
                            );
                            lemma_u32_le_injective(s.len() as u32, count);
                            assert(bytes@.subrange(start as int, start + s.len())[i as int]
                                == flag_bytes(s)[i as int]);
                        }
                    }
                }
                return None;
            },
        }
        i = i + 1;
    }
    proof {
        assert(bytes@.subrange(start as int, start + count) =~= flag_bytes(read@));
        lemma_occurs_split(bytes@, at as int, u32_le(read@.len() as u32), flag_bytes(read@));
    }
    Some((read, start + count as usize))
}

/// At most one 64-bit integer has its encoding at a given place.
pub proof fn lemma_u64_unique(bytes: Seq<u8>, at: int, x: u64, y: u64)
    requires
        occurs_at(bytes, at, u64_le(x)),
        occurs_at(bytes, at, u64_le(y)),
    ensures
        x == y,
{
    lemma_u64_le_injective(x, y);
}

/// At most one address stands at a given place.
pub proof fn lemma_key_unique(bytes: Seq<u8>, at: int, a: Key, b: Key)
    requires
        occurs_at(bytes, at, a@),
        occurs_at(bytes, at, b@),
    ensures
        a == b,
{
    lemma_key_eq_by_view(a, b);
}

/// At most one flag has its byte at a given place.
pub proof fn lemma_flag_unique(bytes: Seq<u8>, at: int, a: bool, b: bool)
    requires
        occurs_at(bytes, at, seq![bool_byte(a)]),
        occurs_at(bytes, at, seq![bool_byte(b)]),
    ensures
        a == b,
{
    assert(seq![bool_byte(a)][0] == seq![bool_byte(b)][0]);
}

} // verus!
