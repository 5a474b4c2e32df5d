//! The byte encoding of a single-leg request.
//!
//! The amount and the minimum output come first, eight bytes each. The
//! account records follow behind their count, then the payload behind its
//! length. Nothing may follow the payload.

use vstd::prelude::*;
use crate::account::{GrantedAccount, JupiterAccountInfo, SerializableAccountMeta};
use crate::dispatch::{references_resolve, resolve_references, AccountReferences, AccountReferencesView};
use crate::key::lemma_key_eq_by_view;
use crate::passthrough::{ExecuteSwapParams, ExecuteSwapParamsView};
use crate::wire::{
    bool_byte, lemma_u32_le_injective, lemma_u64_le_injective, read_bytes, read_flag, read_key,
    read_u32, read_u64, u32_le, u64_le, DecodeError,
};

verus! {

/// The two forms in which a request names its accounts.
#[derive(Clone, Copy, Debug, PartialEq, Eq, Structural)]
pub enum Encoding {
    /// Records of 34 bytes: the address, a signer flag and a writable flag.
    Full,
    /// Records of 2 bytes: an index into the supplied accounts and a writable flag.
    Indexed,
}

/// Number of bytes in one account record.
pub open spec fn record_width(encoding: Encoding) -> int {
    match encoding {
        Encoding::Full => 34,
        Encoding::Indexed => 2,
    }
}

/// The form that a list of references is in.
pub open spec fn encoding_of(refs: AccountReferencesView) -> Encoding {
    match refs {
        AccountReferencesView::Full(_) => Encoding::Full,
        AccountReferencesView::Indexed(_) => Encoding::Indexed,
    }
}

/// Number of references in a list.
pub open spec fn reference_count(refs: AccountReferencesView) -> nat {
    match refs {
        AccountReferencesView::Full(refs) => refs.len(),
        AccountReferencesView::Indexed(refs) => refs.len(),
    }
}

/// Byte `j` of the record of a full reference.
pub open spec fn full_record_byte(r: SerializableAccountMeta, j: int) -> u8 {
    if j < 32 {
        r.pubkey@[j]
    } else if j == 32 {
        bool_byte(r.is_signer)
    } else {
        bool_byte(r.is_writable)
    }
}

/// Byte `j` of the record of an indexed reference.
pub open spec fn indexed_record_byte(r: JupiterAccountInfo, j: int) -> u8 {
    if j == 0 {
        r.index
    } else {
        bool_byte(r.is_writable)
    }
}

/// The records of a list of references, one after the other.
pub open spec fn records(refs: AccountReferencesView) -> Seq<u8> {
    match refs {
        AccountReferencesView::Full(refs) => Seq::new(
            34 * refs.len(),
            |k: int| full_record_byte(refs[k / 34], k % 34),
        ),
        AccountReferencesView::Indexed(refs) => Seq::new(
            2 * refs.len(),
            |k: int| indexed_record_byte(refs[k / 2], k % 2),
        ),
    }
}

/// Whether a request has an encoding: its lengths must fit their prefixes.
pub open spec fn encodable(v: ExecuteSwapParamsView) -> bool {
    reference_count(v.jupiter_accounts) <= u32::MAX && v.jupiter_data.len() <= u32::MAX
}

/// The encoding of a single-leg request: the amount, the minimum output, the
/// account records behind their count, and the payload behind its length.
pub open spec fn encode_swap(v: ExecuteSwapParamsView) -> Seq<u8> {
    u64_le(v.amount) + u64_le(v.min_out) + u32_le(reference_count(v.jupiter_accounts) as u32)
        + records(v.jupiter_accounts) + u32_le(v.jupiter_data.len() as u32) + v.jupiter_data
}

/// Whether `bytes` is the encoding of `v`, in the form `encoding`.
pub open spec fn encodes(bytes: Seq<u8>, v: ExecuteSwapParamsView, encoding: Encoding) -> bool {
    &&& encodable(v)
    &&& encoding_of(v.jupiter_accounts) == encoding
    &&& encode_swap(v) == bytes
}

/// Where the fields of an encoded request lie.
pub proof fn lemma_swap_layout(v: ExecuteSwapParamsView)
    requires
        encodable(v),
    ensures
        ({
            let e = encode_swap(v);
            let held = record_width(encoding_of(v.jupiter_accounts)) * reference_count(
                v.jupiter_accounts,
            );
            &&& records(v.jupiter_accounts).len() == held
            &&& e.len() == 24 + held + v.jupiter_data.len()
            &&& e.subrange(0, 8) == u64_le(v.amount)
            &&& e.subrange(8, 16) == u64_le(v.min_out)
            &&& e.subrange(16, 20) == u32_le(reference_count(v.jupiter_accounts) as u32)
            &&& e.subrange(20, 20 + held) == records(v.jupiter_accounts)
            &&& e.subrange(20 + held, 24 + held) == u32_le(v.jupiter_data.len() as u32)
            &&& e.subrange(24 + held, e.len() as int) == v.jupiter_data
        }),
{
    let e = encode_swap(v);
    let held = record_width(encoding_of(v.jupiter_accounts)) * reference_count(v.jupiter_accounts);
    assert(records(v.jupiter_accounts).len() == held);
    assert(e.subrange(0, 8) =~= u64_le(v.amount));
    assert(e.subrange(8, 16) =~= u64_le(v.min_out));
    assert(e.subrange(16, 20) =~= u32_le(reference_count(v.jupiter_accounts) as u32));
    assert(e.subrange(20, 20 + held) =~= records(v.jupiter_accounts));
    assert(e.subrange(20 + held, 24 + held) =~= u32_le(v.jupiter_data.len() as u32));
    assert(e.subrange(24 + held, e.len() as int) =~= v.jupiter_data);
}

/// The flag byte of record `i` in a run of indexed records that begins at `at`.
pub open spec fn indexed_flag(bytes: Seq<u8>, at: int, i: int) -> u8 {
    bytes[at + 2 * i + 1]
}

/// The signer flag byte of record `i` in a run of full records that begins at `at`.
pub open spec fn full_signer_flag(bytes: Seq<u8>, at: int, i: int) -> u8 {
    bytes[at + 34 * i + 32]
}

/// The writable flag byte of record `i` in a run of full records that begins at `at`.
pub open spec fn full_writable_flag(bytes: Seq<u8>, at: int, i: int) -> u8 {
    bytes[at + 34 * i + 33]
}

/// Whether every flag byte in a run of `count` records is zero or one.
pub open spec fn flags_valid(bytes: Seq<u8>, at: int, count: int, encoding: Encoding) -> bool {
    match encoding {
        Encoding::Indexed => forall|i: int|
            0 <= i < count ==> #[trigger] indexed_flag(bytes, at, i) <= 1,
        Encoding::Full => forall|i: int|
            0 <= i < count ==> #[trigger] full_signer_flag(bytes, at, i) <= 1
                && full_writable_flag(bytes, at, i) <= 1,
    }
}

fn read_indexed_records(bytes: &[u8], at: usize, count: usize) -> (out: Option<
    Vec<JupiterAccountInfo>,
>)
    requires
        at + 2 * count <= bytes@.len(),
    ensures
        match out {
            Some(refs) => refs@.len() == count && records(AccountReferencesView::Indexed(refs@))
                == bytes@.subrange(at as int, at + 2 * count),
            None => !flags_valid(bytes@, at as int, count as int, Encoding::Indexed),
        },
{
    let len: usize = bytes.len();
    let mut refs: Vec<JupiterAccountInfo> = Vec::new();
    let mut i: usize = 0;
    while i < count
        invariant
            i <= count,
            at + 2 * count <= bytes@.len() <= usize::MAX,
            refs@.len() == i,
            forall|j: int|
                0 <= j < i ==> (#[trigger] refs@[j]).index == bytes@[at + 2 * j] && bool_byte(
                    refs@[j].is_writable,
                ) == bytes@[at + 2 * j + 1],
        decreases count - i,
    {
        let index: u8 = bytes[at + 2 * i];
        match read_flag(bytes[at + 2 * i + 1]) {
            Some(is_writable) => {
                refs.push(JupiterAccountInfo { index, is_writable });
            },
            None => {
                proof {
                    assert(indexed_flag(bytes@, at as int, i as int) > 1);
                }
                return None;
            },
        }
        i = i + 1;
    }
    proof {
        let built = records(AccountReferencesView::Indexed(refs@));
        let given = bytes@.subrange(at as int, at + 2 * count);
        assert(built.len() == given.len());
        assert forall|k: int| 0 <= k < built.len() implies built[k] == given[k] by {
            let j = k / 2;
            assert(0 <= j < count);
            assert(k == 2 * j || k == 2 * j + 1);
            assert(refs@[j].index == bytes@[at + 2 * j]);
        }
        assert(built =~= given);
    }
    Some(refs)
}

fn read_full_records(bytes: &[u8], at: usize, count: usize) -> (out: Option<
    Vec<SerializableAccountMeta>,
>)
    requires
        at + 34 * count <= bytes@.len(),
    ensures
        match out {
            Some(refs) => refs@.len() == count && records(AccountReferencesView::Full(refs@))
                == bytes@.subrange(at as int, at + 34 * count),
            None => !flags_valid(bytes@, at as int, count as int, Encoding::Full),
        },
{
    let len: usize = bytes.len();
    let mut refs: Vec<SerializableAccountMeta> = Vec::new();
    let mut i: usize = 0;
    while i < count
        invariant
            i <= count,
            at + 34 * count <= bytes@.len() <= usize::MAX,
            refs@.len() == i,
            forall|j: int|
                0 <= j < i ==> (#[trigger] refs@[j]).pubkey@ == bytes@.subrange(
                    at + 34 * j,
                    at + 34 * j + 32,
                ) && bool_byte(refs@[j].is_signer) == bytes@[at + 34 * j + 32] && bool_byte(
                    refs@[j].is_writable,
                ) == bytes@[at + 34 * j + 33],
        decreases count - i,
    {
        let start: usize = at + 34 * i;
        let pubkey = read_key(bytes, start);
        let signer = read_flag(bytes[start + 32]);
        let writable = read_flag(bytes[start + 33]);
        match (signer, writable) {
            (Some(is_signer), Some(is_writable)) => {
                refs.push(SerializableAccountMeta { pubkey, is_signer, is_writable });
            },
            _ => {
                proof {
                    assert(full_signer_flag(bytes@, at as int, i as int) > 1 || full_writable_flag(
                        bytes@,
                        at as int,
                        i as int,
                    ) > 1);
                }
                return None;
            },
        }
        i = i + 1;
    }
    proof {
        let built = records(AccountReferencesView::Full(refs@));
        let given = bytes@.subrange(at as int, at + 34 * count);
        assert(built.len() == given.len());
        assert forall|k: int| 0 <= k < built.len() implies built[k] == given[k] by {
            let j = k / 34;
            let r = k % 34;
            assert(0 <= j < count);
            assert(k == 34 * j + r);
            let record = refs@[j];
            if r < 32 {
                assert(record.pubkey@[r] == bytes@.subrange(at + 34 * j, at + 34 * j + 32)[r]);
            }
        }
        assert(built =~= given);
    }
    Some(refs)
}

/// A run of records whose flags are not all zero or one is not the record
/// part of any encoded request.
proof fn lemma_records_have_valid_flags(v: ExecuteSwapParamsView)
    requires
        encodable(v),
    ensures
        flags_valid(
            encode_swap(v),
            20,
            reference_count(v.jupiter_accounts) as int,
            encoding_of(v.jupiter_accounts),
        ),
{
    lemma_swap_layout(v);
    let e = encode_swap(v);
    let run = records(v.jupiter_accounts);
    match v.jupiter_accounts {
        AccountReferencesView::Indexed(refs) => {
            assert forall|i: int| 0 <= i < refs.len() implies #[trigger] indexed_flag(e, 20, i)
                <= 1 by {
                let k = 2 * i + 1;
                assert(e.subrange(20, 20 + 2 * (refs.len() as int))[k] == run[k]);
                assert(k / 2 == i && k % 2 == 1);
            }
        },
        AccountReferencesView::Full(refs) => {
            assert forall|i: int| 0 <= i < refs.len() implies #[trigger] full_signer_flag(e, 20, i)
                <= 1 && full_writable_flag(e, 20, i) <= 1 by {
                let k = 34 * i + 32;
                assert(e.subrange(20, 20 + 34 * (refs.len() as int))[k] == run[k]);
                assert(e.subrange(20, 20 + 34 * (refs.len() as int))[k + 1] == run[k + 1]);
                assert(k / 34 == i && k % 34 == 32);
                assert((k + 1) / 34 == i && (k + 1) % 34 == 33);
            }
        },
    }
}

/// What the bytes of an encoded request show of it: the number of its
/// references, where its payload begins and how long it is.
proof fn lemma_encoded_shape(bytes: Seq<u8>, v: ExecuteSwapParamsView, encoding: Encoding, count: u32)
    requires
        encodes(bytes, v, encoding),
        bytes.len() >= 20,
        u32_le(count) == bytes.subrange(16, 20),
    ensures
        reference_count(v.jupiter_accounts) == count,
        bytes.len() == 24 + record_width(encoding) * count + v.jupiter_data.len(),
        flags_valid(bytes, 20, count as int, encoding),
        u32_le(v.jupiter_data.len() as u32) == bytes.subrange(
            20 + record_width(encoding) * count,
            24 + record_width(encoding) * count,
        ),
{
    lemma_swap_layout(v);
    lemma_u32_le_injective(reference_count(v.jupiter_accounts) as u32, count);
    lemma_records_have_valid_flags(v);
}

/// Bytes whose parts are the encodings of the fields of a request are the
/// encoding of that request.
proof fn lemma_parts_encode(bytes: Seq<u8>, v: ExecuteSwapParamsView, held: int)
    requires
        encodable(v),
        held == records(v.jupiter_accounts).len(),
        bytes.len() == 24 + held + v.jupiter_data.len(),
        bytes.subrange(0, 8) == u64_le(v.amount),
        bytes.subrange(8, 16) == u64_le(v.min_out),
        bytes.subrange(16, 20) == u32_le(reference_count(v.jupiter_accounts) as u32),
        bytes.subrange(20, 20 + held) == records(v.jupiter_accounts),
        bytes.subrange(20 + held, 24 + held) == u32_le(v.jupiter_data.len() as u32),
        bytes.subrange(24 + held, bytes.len() as int) == v.jupiter_data,
    ensures
        encode_swap(v) == bytes,
{
    let parts = bytes.subrange(0, 8) + bytes.subrange(8, 16) + bytes.subrange(16, 20)
        + bytes.subrange(20, 20 + held) + bytes.subrange(20 + held, 24 + held) + bytes.subrange(
        24 + held,
        bytes.len() as int,
    );
    assert(parts =~= bytes);
}

/// Reads a single-leg request out of its encoding, in the form `encoding`.
///
/// The bytes are accepted exactly when they are the encoding of a request,
/// from the first byte to the last, and that request is returned.
pub fn parse_swap(bytes: &[u8], encoding: Encoding) -> (out: Result<ExecuteSwapParams, DecodeError>)
    ensures
        match out {
            Ok(v) => encodes(bytes@, v@, encoding),
            Err(e) => e == DecodeError::Malformed && forall|v: ExecuteSwapParamsView|
                !encodes(bytes@, v, encoding),
        },
{
    let len: usize = bytes.len();
    if len < 24 {
        proof {
            assert forall|v: ExecuteSwapParamsView| !encodes(bytes@, v, encoding) by {
                if encodable(v) {
                    lemma_swap_layout(v);
                }
            }
        }
        return Err(DecodeError::Malformed);
    }
    let amount: u64 = read_u64(bytes, 0);
    let min_out: u64 = read_u64(bytes, 8);
    let count: u32 = read_u32(bytes, 16);
    proof {
        assert forall|v: ExecuteSwapParamsView| encodes(bytes@, v, encoding) implies len == 24
            + record_width(encoding) * count + v.jupiter_data.len() && flags_valid(
            bytes@,
            20,
            count as int,
            encoding,
        ) && u32_le(v.jupiter_data.len() as u32) == bytes@.subrange(
            20 + record_width(encoding) * count,
            24 + record_width(encoding) * count,
        ) by {
            lemma_encoded_shape(bytes@, v, encoding, count);
        }
    }
    let width: u64 = match encoding {
        Encoding::Full => 34,
        Encoding::Indexed => 2,
    };
    let held: u64 = width * (count as u64);
    if (len as u64) < 24 + held {
        return Err(DecodeError::Malformed);
    }
    let data_at: usize = 24 + held as usize;
    let parsed = match encoding {
        Encoding::Full => match read_full_records(bytes, 20, count as usize) {
            Some(refs) => Some(AccountReferences::Full(refs)),
            None => None,
        },
        Encoding::Indexed => match read_indexed_records(bytes, 20, count as usize) {
            Some(refs) => Some(AccountReferences::Indexed(refs)),
            None => None,
        },
    };
    let jupiter_accounts = match parsed {
        Some(refs) => refs,
        None => {
            return Err(DecodeError::Malformed);
        },
    };
    let data_len: u32 = read_u32(bytes, data_at - 4);
    if (len - data_at) as u64 != data_len as u64 {
        proof {
            assert forall|v: ExecuteSwapParamsView| !encodes(bytes@, v, encoding) by {
                if encodes(bytes@, v, encoding) {
                    lemma_u32_le_injective(v.jupiter_data.len() as u32, data_len);
                }
            }
        }
        return Err(DecodeError::Malformed);
    }
    let jupiter_data = read_bytes(bytes, data_at, len);
    let v = ExecuteSwapParams { amount, min_out, jupiter_accounts, jupiter_data };
    proof {
        lemma_parts_encode(bytes@, v@, held as int);
    }
    Ok(v)
}

/// Distinct requests have distinct encodings: at most one request is read
/// out of any bytes.
pub proof fn lemma_encoding_is_injective(
    bytes: Seq<u8>,
    a: ExecuteSwapParamsView,
    b: ExecuteSwapParamsView,
    encoding: Encoding,
)
    requires
        encodes(bytes, a, encoding),
        encodes(bytes, b, encoding),
    ensures
        a == b,
{
    lemma_swap_layout(a);
    lemma_swap_layout(b);
    lemma_u64_le_injective(a.amount, b.amount);
    lemma_u64_le_injective(a.min_out, b.min_out);
    lemma_u32_le_injective(
        reference_count(a.jupiter_accounts) as u32,
        reference_count(b.jupiter_accounts) as u32,
    );
    lemma_u32_le_injective(a.jupiter_data.len() as u32, b.jupiter_data.len() as u32);
    let run_a = records(a.jupiter_accounts);
    let run_b = records(b.jupiter_accounts);
    assert(run_a == run_b);
    assert(a.jupiter_data == b.jupiter_data);
    match (a.jupiter_accounts, b.jupiter_accounts) {
        (AccountReferencesView::Indexed(x), AccountReferencesView::Indexed(y)) => {
            assert forall|i: int| 0 <= i < x.len() implies x[i] == y[i] by {
                assert(run_a[2 * i] == run_b[2 * i]);
                assert(run_a[2 * i + 1] == run_b[2 * i + 1]);
                assert((2 * i) / 2 == i && (2 * i) % 2 == 0);
                assert((2 * i + 1) / 2 == i && (2 * i + 1) % 2 == 1);
            }
            assert(x =~= y);
        },
        (AccountReferencesView::Full(x), AccountReferencesView::Full(y)) => {
            assert forall|i: int| 0 <= i < x.len() implies x[i] == y[i] by {
                assert forall|j: int| 0 <= j < 32 implies x[i].pubkey@[j] == y[i].pubkey@[j] by {
                    let k = 34 * i + j;
                    assert(run_a[k] == run_b[k]);
                    assert(k / 34 == i && k % 34 == j);
                }
                assert(x[i].pubkey@ =~= y[i].pubkey@);
                lemma_key_eq_by_view(x[i].pubkey, y[i].pubkey);
                let k = 34 * i + 32;
                assert(run_a[k] == run_b[k]);
                assert(run_a[k + 1] == run_b[k + 1]);
                assert(k / 34 == i && k % 34 == 32);
                assert((k + 1) / 34 == i && (k + 1) % 34 == 33);
            }
            assert(x =~= y);
        },
        _ => {},
    }
}

/// Decodes a single-leg request against the accounts supplied with it.
///
/// Bytes that encode no request are malformed. Bytes that encode a request
/// are accepted only if each of its references names a supplied account: an
/// index past the end of the supplied accounts, or an address that none of
/// them has, fails the decoding.
pub fn decode_swap(bytes: &[u8], encoding: Encoding, supplied: &Vec<GrantedAccount>) -> (out: Result<
    ExecuteSwapParams,
    DecodeError,
>)
    ensures
        match out {
            Ok(v) => encodes(bytes@, v@, encoding) && references_resolve(
                v@.jupiter_accounts,
                supplied@,
            ),
            Err(DecodeError::Malformed) => forall|v: ExecuteSwapParamsView|
                !encodes(bytes@, v, encoding),
            Err(DecodeError::UnresolvedAccount) => ({
                &&& exists|v: ExecuteSwapParamsView| encodes(bytes@, v, encoding)
                &&& forall|v: ExecuteSwapParamsView| #[trigger]
                    encodes(bytes@, v, encoding) ==> !references_resolve(
                        v.jupiter_accounts,
                        supplied@,
                    )
            }),
        },
{
    let v = match parse_swap(bytes, encoding) {
        Ok(v) => v,
        Err(e) => {
            return Err(e);
        },
    };
    match resolve_references(&v.jupiter_accounts, supplied) {
        Ok(_) => Ok(v),
        Err(_) => {
            proof {
                assert forall|other: ExecuteSwapParamsView| #[trigger]
                    encodes(bytes@, other, encoding) implies !references_resolve(
                    other.jupiter_accounts,
                    supplied@,
                ) by {
                    lemma_encoding_is_injective(bytes@, other, v@, encoding);
                }
            }
            Err(DecodeError::UnresolvedAccount)
        },
    }
}

} // verus!
