//! The byte encoding of a two-leg request.
//!
//! Three addresses come first, then the three amounts, then the flag that
//! turns reflection off, then the main leg and the reflection leg. A leg
//! that is absent is the byte zero. A leg that is present is the byte one
//! followed by the number of accounts it consumes, its payload, its writable
//! flags and its signer flags. Nothing may follow the reflection leg.

use vstd::prelude::*;
use crate::custodial::{ExecuteRaceswapParams, ExecuteRaceswapParamsView};
use crate::dispatch::{optional_leg_view, SerializedInstruction, SerializedInstructionView};
use crate::wire::{
    bool_byte, encode_bytes, encode_flags, lemma_bytes_unique, lemma_flag_unique,
    lemma_flags_unique, lemma_key_unique, lemma_occurs_split, lemma_u16_le_injective,
    lemma_u64_unique, occurs_at, read_byte_vec, read_flag, read_flag_vec, read_key, read_u16,
    read_u64, u16_le, u64_le, DecodeError,
};

verus! {

/// Whether a leg has an encoding: its lengths must fit their prefixes.
pub open spec fn leg_encodable(leg: SerializedInstructionView) -> bool {
    &&& leg.data.len() <= u32::MAX
    &&& leg.is_writable.len() <= u32::MAX
    &&& leg.is_signer.len() <= u32::MAX
}

/// The encoding of a leg.
pub open spec fn encode_leg(leg: SerializedInstructionView) -> Seq<u8> {
    u16_le(leg.accounts_len) + encode_bytes(leg.data) + encode_flags(leg.is_writable)
        + encode_flags(leg.is_signer)
}

/// Whether a leg that may be absent has an encoding.
pub open spec fn optional_leg_encodable(leg: Option<SerializedInstructionView>) -> bool {
    match leg {
        Some(leg) => leg_encodable(leg),
        None => true,
    }
}

/// The encoding of a leg that may be absent.
pub open spec fn encode_optional_leg(leg: Option<SerializedInstructionView>) -> Seq<u8> {
    match leg {
        Some(leg) => seq![1u8] + encode_leg(leg),
        None => seq![0u8],
    }
}

/// The fields of a leg stand one behind the other.
pub proof fn lemma_leg_layout(bytes: Seq<u8>, at: int, leg: SerializedInstructionView)
    ensures
        occurs_at(bytes, at, encode_leg(leg)) <==> ({
            &&& occurs_at(bytes, at, u16_le(leg.accounts_len))
            &&& occurs_at(bytes, at + 2, encode_bytes(leg.data))
            &&& occurs_at(bytes, at + 2 + encode_bytes(leg.data).len(), encode_flags(leg.is_writable))
            &&& occurs_at(
                bytes,
                at + 2 + encode_bytes(leg.data).len() + encode_flags(leg.is_writable).len(),
                encode_flags(leg.is_signer),
            )
        }),
        encode_leg(leg).len() == 2 + encode_bytes(leg.data).len() + encode_flags(
            leg.is_writable,
        ).len() + encode_flags(leg.is_signer).len(),
{
    let head = u16_le(leg.accounts_len);
    let data = encode_bytes(leg.data);
    let writable = encode_flags(leg.is_writable);
    let signer = encode_flags(leg.is_signer);
    lemma_occurs_split(bytes, at, head + data + writable, signer);
    lemma_occurs_split(bytes, at, head + data, writable);
    lemma_occurs_split(bytes, at, head, data);
}

/// At most one leg has its encoding at a given place.
pub proof fn lemma_leg_unique(
    bytes: Seq<u8>,
    at: int,
    a: SerializedInstructionView,
    b: SerializedInstructionView,
)
    requires
        leg_encodable(a),
        leg_encodable(b),
        occurs_at(bytes, at, encode_leg(a)),
        occurs_at(bytes, at, encode_leg(b)),
    ensures
        a == b,
{
    lemma_leg_layout(bytes, at, a);
    lemma_leg_layout(bytes, at, b);
    lemma_u16_le_injective(a.accounts_len, b.accounts_len);
    lemma_bytes_unique(bytes, at + 2, a.data, b.data);
    let then = at + 2 + encode_bytes(a.data).len();
    lemma_flags_unique(bytes, then, a.is_writable, b.is_writable);
    lemma_flags_unique(
        bytes,
        then + encode_flags(a.is_writable).len(),
        a.is_signer,
        b.is_signer,
    );
}

/// At most one optional leg has its encoding at a given place.
pub proof fn lemma_optional_leg_unique(
    bytes: Seq<u8>,
    at: int,
    a: Option<SerializedInstructionView>,
    b: Option<SerializedInstructionView>,
)
    requires
        optional_leg_encodable(a),
        optional_leg_encodable(b),
        occurs_at(bytes, at, encode_optional_leg(a)),
        occurs_at(bytes, at, encode_optional_leg(b)),
    ensures
        a == b,
{
    if a is Some {
        lemma_occurs_split(bytes, at, seq![1u8], encode_leg(a->0));
        assert(bytes.subrange(at, at + 1)[0] == 1);
    } else {
        assert(bytes.subrange(at, at + 1)[0] == 0);
    }
    if b is Some {
        lemma_occurs_split(bytes, at, seq![1u8], encode_leg(b->0));
        assert(bytes.subrange(at, at + 1)[0] == 1);
    } else {
        assert(bytes.subrange(at, at + 1)[0] == 0);
    }
    if a is Some && b is Some {
        lemma_leg_unique(bytes, at + 1, a->0, b->0);
    }
}

/// Reads the leg whose encoding begins at `at`, and where it ends.
pub fn read_leg(bytes: &[u8], at: usize) -> (out: Option<(SerializedInstruction, usize)>)
    requires
        at <= bytes@.len(),
    ensures
        match out {
            Some((leg, end)) => leg_encodable(leg@) && occurs_at(
                bytes@,
                at as int,
                encode_leg(leg@),
            ) && end == at + encode_leg(leg@).len(),
            None => forall|leg: SerializedInstructionView|
                leg_encodable(leg) ==> !occurs_at(bytes@, at as int, #[trigger] encode_leg(leg)),
        },
{
    let len: usize = bytes.len();
    if len - at < 2 {
        proof {
            assert forall|leg: SerializedInstructionView| leg_encodable(leg) implies !occurs_at(
                bytes@,
                at as int,
                #[trigger] encode_leg(leg),
            ) by {
                lemma_leg_layout(bytes@, at as int, leg);
            }
        }
        return None;
    }
    let accounts_len: u16 = read_u16(bytes, at);
    let (data, after_data) = match read_byte_vec(bytes, at + 2) {
        Some(read) => read,
        None => {
            proof {
                assert forall|leg: SerializedInstructionView| leg_encodable(leg) implies !occurs_at(
                    bytes@,
                    at as int,
                    #[trigger] encode_leg(leg),
                ) by {
                    lemma_leg_layout(bytes@, at as int, leg);
                    assert(!occurs_at(bytes@, at + 2, encode_bytes(leg.data)));
                }
            }
            return None;
        },
    };
    let (is_writable, after_writable) = match read_flag_vec(bytes, after_data) {
        Some(read) => read,
        None => {
            proof {
                assert forall|leg: SerializedInstructionView| leg_encodable(leg) implies !occurs_at(
                    bytes@,
                    at as int,
                    #[trigger] encode_leg(leg),
                ) by {
                    lemma_leg_layout(bytes@, at as int, leg);
                    if occurs_at(bytes@, at as int, encode_leg(leg)) {
                        lemma_bytes_unique(bytes@, at + 2, leg.data, data@);
                        assert(!occurs_at(
                            bytes@,
                            after_data as int,
                            encode_flags(leg.is_writable),
                        ));
                    }
                }
            }
            return None;
        },
    };
    let (is_signer, end) = match read_flag_vec(bytes, after_writable) {
        Some(read) => read,
        None => {
            proof {
                assert forall|leg: SerializedInstructionView| leg_encodable(leg) implies !occurs_at(
                    bytes@,
                    at as int,
                    #[trigger] encode_leg(leg),
                ) by {
                    lemma_leg_layout(bytes@, at as int, leg);
                    if occurs_at(bytes@, at as int, encode_leg(leg)) {
                        lemma_bytes_unique(bytes@, at + 2, leg.data, data@);
                        lemma_flags_unique(
                            bytes@,
                            after_data as int,
                            leg.is_writable,
                            is_writable@,
                        );
                        assert(!occurs_at(
                            bytes@,
                            after_writable as int,
                            encode_flags(leg.is_signer),
                        ));
                    }
                }
            }
            return None;
        },
    };
    let leg = SerializedInstruction { accounts_len, data, is_writable, is_signer };
    proof {
        lemma_leg_layout(bytes@, at as int, leg@);
    }
    Some((leg, end))
}

/// Reads the optional leg whose encoding begins at `at`, and where it ends.
pub fn read_optional_leg(bytes: &[u8], at: usize) -> (out: Option<
    (Option<SerializedInstruction>, usize),
>)
    requires
        at <= bytes@.len(),
    ensures
        match out {
            Some((leg, end)) => ({
                let leg = optional_leg_view(leg);
                optional_leg_encodable(leg) && occurs_at(
                    bytes@,
                    at as int,
                    encode_optional_leg(leg),
                ) && end == at + encode_optional_leg(leg).len()
            }),
            None => forall|leg: Option<SerializedInstructionView>|
                optional_leg_encodable(leg) ==> !occurs_at(
                    bytes@,
                    at as int,
                    #[trigger] encode_optional_leg(leg),
                ),
        },
{
    let len: usize = bytes.len();
    if len - at < 1 {
        return None;
    }
    let tag: u8 = bytes[at];
    if tag == 0 {
        proof {
            assert(bytes@.subrange(at as int, at + 1) =~= seq![0u8]);
        }
        Some((None, at + 1))
    } else if tag == 1 {
        match read_leg(bytes, at + 1) {
            Some((leg, end)) => {
                proof {
                    assert(bytes@.subrange(at as int, at + 1) =~= seq![1u8]);
                    lemma_occurs_split(bytes@, at as int, seq![1u8], encode_leg(leg@));
                }
                Some((Some(leg), end))
            },
            None => {
                proof {
                    assert forall|leg: Option<SerializedInstructionView>|
                        optional_leg_encodable(leg) implies !occurs_at(
                        bytes@,
                        at as int,
                        #[trigger] encode_optional_leg(leg),
                    ) by {
                        if occurs_at(bytes@, at as int, encode_optional_leg(leg)) {
                            assert(bytes@.subrange(
                                at as int,
                                at + encode_optional_leg(leg).len(),
                            )[0] == tag);
                            lemma_occurs_split(bytes@, at as int, seq![1u8], encode_leg(leg->0));
                        }
                    }
                }
                None
            },
        }
    } else {
        proof {
            assert forall|leg: Option<SerializedInstructionView>|
                optional_leg_encodable(leg) implies !occurs_at(
                bytes@,
                at as int,
                #[trigger] encode_optional_leg(leg),
            ) by {
                if occurs_at(bytes@, at as int, encode_optional_leg(leg)) {
                    assert(bytes@.subrange(at as int, at + encode_optional_leg(leg).len())[0]
                        == tag);
                }
            }
        }
        None
    }
}

/// Whether a two-leg request has an encoding.
pub open spec fn encodable(v: ExecuteRaceswapParamsView) -> bool {
    optional_leg_encodable(v.main_leg) && optional_leg_encodable(v.reflection_leg)
}

/// The encoding of a two-leg request.
pub open spec fn encode_raceswap(v: ExecuteRaceswapParamsView) -> Seq<u8> {
    v.input_mint@ + v.main_output_mint@ + v.reflection_mint@ + u64_le(v.total_input_amount)
        + u64_le(v.min_main_out) + u64_le(v.min_reflection_out) + seq![
        bool_byte(v.disable_reflection),
    ] + encode_optional_leg(v.main_leg) + encode_optional_leg(v.reflection_leg)
}

/// Whether `bytes` is the encoding of `v`.
pub open spec fn encodes(bytes: Seq<u8>, v: ExecuteRaceswapParamsView) -> bool {
    encodable(v) && encode_raceswap(v) == bytes
}

/// Whether the fields of `v` stand in `bytes` one behind the other, from the
/// first byte on.
pub open spec fn fields_occur(bytes: Seq<u8>, v: ExecuteRaceswapParamsView) -> bool {
    &&& occurs_at(bytes, 0, v.input_mint@)
    &&& occurs_at(bytes, 32, v.main_output_mint@)
    &&& occurs_at(bytes, 64, v.reflection_mint@)
    &&& occurs_at(bytes, 96, u64_le(v.total_input_amount))
    &&& occurs_at(bytes, 104, u64_le(v.min_main_out))
    &&& occurs_at(bytes, 112, u64_le(v.min_reflection_out))
    &&& occurs_at(bytes, 120, seq![bool_byte(v.disable_reflection)])
    &&& occurs_at(bytes, 121, encode_optional_leg(v.main_leg))
    &&& occurs_at(
        bytes,
        121 + (encode_optional_leg(v.main_leg).len() as int),
        encode_optional_leg(v.reflection_leg),
    )
}

/// Where the fields of an encoded two-leg request lie.
pub proof fn lemma_raceswap_layout(bytes: Seq<u8>, v: ExecuteRaceswapParamsView)
    ensures
        occurs_at(bytes, 0, encode_raceswap(v)) <==> fields_occur(bytes, v),
        encode_raceswap(v).len() == 121 + encode_optional_leg(v.main_leg).len()
            + encode_optional_leg(v.reflection_leg).len(),
{
    let k1 = v.input_mint@;
    let k2 = v.main_output_mint@;
    let k3 = v.reflection_mint@;
    let a = u64_le(v.total_input_amount);
    let b = u64_le(v.min_main_out);
    let c = u64_le(v.min_reflection_out);
    let f = seq![bool_byte(v.disable_reflection)];
    let m = encode_optional_leg(v.main_leg);
    let r = encode_optional_leg(v.reflection_leg);
    assert(k1.len() == 32 && k2.len() == 32 && k3.len() == 32);
    lemma_occurs_split(bytes, 0, k1 + k2 + k3 + a + b + c + f + m, r);
    lemma_occurs_split(bytes, 0, k1 + k2 + k3 + a + b + c + f, m);
    lemma_occurs_split(bytes, 0, k1 + k2 + k3 + a + b + c, f);
    lemma_occurs_split(bytes, 0, k1 + k2 + k3 + a + b, c);
    lemma_occurs_split(bytes, 0, k1 + k2 + k3 + a, b);
    lemma_occurs_split(bytes, 0, k1 + k2 + k3, a);
    lemma_occurs_split(bytes, 0, k1 + k2, k3);
    lemma_occurs_split(bytes, 0, k1, k2);
}

/// At most one request has its fields standing in given bytes.
pub proof fn lemma_fields_unique(
    bytes: Seq<u8>,
    a: ExecuteRaceswapParamsView,
    b: ExecuteRaceswapParamsView,
)
    requires
        encodable(a),
        encodable(b),
        fields_occur(bytes, a),
        fields_occur(bytes, b),
    ensures
        a == b,
{
    lemma_key_unique(bytes, 0, a.input_mint, b.input_mint);
    lemma_key_unique(bytes, 32, a.main_output_mint, b.main_output_mint);
    lemma_key_unique(bytes, 64, a.reflection_mint, b.reflection_mint);
    lemma_u64_unique(bytes, 96, a.total_input_amount, b.total_input_amount);
    lemma_u64_unique(bytes, 104, a.min_main_out, b.min_main_out);
    lemma_u64_unique(bytes, 112, a.min_reflection_out, b.min_reflection_out);
    lemma_flag_unique(bytes, 120, a.disable_reflection, b.disable_reflection);
    lemma_optional_leg_unique(bytes, 121, a.main_leg, b.main_leg);
    lemma_optional_leg_unique(
        bytes,
        121 + (encode_optional_leg(a.main_leg).len() as int),
        a.reflection_leg,
        b.reflection_leg,
    );
}

/// Distinct two-leg requests have distinct encodings.
pub proof fn lemma_raceswap_encoding_is_injective(
    bytes: Seq<u8>,
    a: ExecuteRaceswapParamsView,
    b: ExecuteRaceswapParamsView,
)
    requires
        encodes(bytes, a),
        encodes(bytes, b),
    ensures
        a == b,
{
    assert(bytes.subrange(0, bytes.len() as int) =~= bytes);
    lemma_raceswap_layout(bytes, a);
    lemma_raceswap_layout(bytes, b);
    lemma_fields_unique(bytes, a, b);
}

/// Reads a two-leg request out of its encoding.
///
/// The bytes are accepted exactly when they are the encoding of a request,
/// from the first byte to the last, and that request is returned.
pub fn parse_raceswap(bytes: &[u8]) -> (out: Result<ExecuteRaceswapParams, DecodeError>)
    ensures
        match out {
            Ok(v) => encodes(bytes@, v@),
            Err(e) => e == DecodeError::Malformed && forall|v: ExecuteRaceswapParamsView|
                !encodes(bytes@, v),
        },
{
    let len: usize = bytes.len();
    proof {
        assert(bytes@.subrange(0, len as int) =~= bytes@);
        assert forall|v: ExecuteRaceswapParamsView| encodes(bytes@, v) implies fields_occur(
            bytes@,
            v,
        ) && len == 121 + encode_optional_leg(v.main_leg).len() + encode_optional_leg(
            v.reflection_leg,
        ).len() by {
            lemma_raceswap_layout(bytes@, v);
        }
    }
    if len < 121 {
        return Err(DecodeError::Malformed);
    }
    let input_mint = read_key(bytes, 0);
    let main_output_mint = read_key(bytes, 32);
    let reflection_mint = read_key(bytes, 64);
    let total_input_amount: u64 = read_u64(bytes, 96);
    let min_main_out: u64 = read_u64(bytes, 104);
    let min_reflection_out: u64 = read_u64(bytes, 112);
    let disable_reflection = match read_flag(bytes[120]) {
        Some(flag) => flag,
        None => {
            proof {
                assert forall|v: ExecuteRaceswapParamsView| !encodes(bytes@, v) by {
                    if encodes(bytes@, v) {
                        assert(bytes@.subrange(120, 121)[0] == bool_byte(v.disable_reflection));
                    }
                }
            }
            return Err(DecodeError::Malformed);
        },
    };
    let (main_leg, after_main) = match read_optional_leg(bytes, 121) {
        Some(read) => read,
        None => {
            return Err(DecodeError::Malformed);
        },
    };
    let ghost main_view = optional_leg_view(main_leg);
    let (reflection_leg, end) = match read_optional_leg(bytes, after_main) {
        Some(read) => read,
        None => {
            proof {
                assert forall|v: ExecuteRaceswapParamsView| !encodes(bytes@, v) by {
                    if encodes(bytes@, v) {
                        lemma_optional_leg_unique(bytes@, 121, v.main_leg, main_view);
                    }
                }
            }
            return Err(DecodeError::Malformed);
        },
    };
    let ghost reflection_view = optional_leg_view(reflection_leg);
    if end != len {
        proof {
            assert forall|v: ExecuteRaceswapParamsView| !encodes(bytes@, v) by {
                if encodes(bytes@, v) {
                    lemma_optional_leg_unique(bytes@, 121, v.main_leg, main_view);
                    lemma_optional_leg_unique(
                        bytes@,
                        after_main as int,
                        v.reflection_leg,
                        reflection_view,
                    );
                }
            }
        }
        return Err(DecodeError::Malformed);
    }
    let v = ExecuteRaceswapParams {
        input_mint,
        main_output_mint,
        reflection_mint,
        total_input_amount,
        min_main_out,
        min_reflection_out,
        disable_reflection,
        main_leg,
        reflection_leg,
    };
    proof {
        assert(v@.main_leg == main_view);
        assert(v@.reflection_leg == reflection_view);
        assert(bytes@.subrange(120, 121) =~= seq![bool_byte(disable_reflection)]);
        assert(fields_occur(bytes@, v@));
        lemma_raceswap_layout(bytes@, v@);
    }
    Ok(v)
}

} // verus!
