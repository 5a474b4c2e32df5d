use anchor_lang::AnchorSerialize;
use raceswap::account::{GrantedAccount, JupiterAccountInfo, SerializableAccountMeta};
use raceswap::custodial::ExecuteRaceswapParams;
use raceswap::dispatch::{AccountReferences, SerializedInstruction};
use raceswap::key::Key;
use raceswap::raceswap_codec::{parse_raceswap, read_leg, read_optional_leg};
use raceswap::swap_codec::{decode_swap, parse_swap, Encoding};
use raceswap::wire::{
    read_byte_vec, read_bytes, read_flag, read_flag_vec, read_key, read_u16, read_u32, read_u64,
    DecodeError,
};

fn key(tag: u8) -> Key {
    let mut bytes = [tag; 32];
    bytes[0] = 0xa0;
    bytes[31] = 0x0f;
    Key::new(bytes)
}

fn granted(tag: u8) -> GrantedAccount {
    GrantedAccount { key: key(tag), is_signer: false, is_writable: true }
}

fn indexed_bytes(amount: u64, min_out: u64, refs: &[(u8, bool)], data: &[u8]) -> Vec<u8> {
    (amount, min_out, refs.to_vec(), data.to_vec()).try_to_vec().unwrap()
}

fn full_bytes(amount: u64, min_out: u64, refs: &[([u8; 32], bool, bool)], data: &[u8]) -> Vec<u8> {
    (amount, min_out, refs.to_vec(), data.to_vec()).try_to_vec().unwrap()
}

fn indexed_list(refs: &AccountReferences) -> Vec<(u8, bool)> {
    match refs {
        AccountReferences::Indexed(list) => list.iter().map(|r| (r.index, r.is_writable)).collect(),
        AccountReferences::Full(_) => panic!("expected indexed references"),
    }
}

fn full_list(refs: &AccountReferences) -> Vec<([u8; 32], bool, bool)> {
    match refs {
        AccountReferences::Full(list) => {
            list.iter().map(|r| (r.pubkey.to_bytes(), r.is_signer, r.is_writable)).collect()
        }
        AccountReferences::Indexed(_) => panic!("expected full references"),
    }
}

type LegFields = (u16, Vec<u8>, Vec<bool>, Vec<bool>);

fn leg_fields(leg: &Option<SerializedInstruction>) -> Option<LegFields> {
    leg.as_ref().map(|l| (l.accounts_len, l.data.clone(), l.is_writable.clone(), l.is_signer.clone()))
}

fn raceswap_bytes(
    amounts: (u64, u64, u64),
    disable_reflection: bool,
    main_leg: Option<LegFields>,
    reflection_leg: Option<LegFields>,
) -> Vec<u8> {
    (
        key(1).to_bytes(),
        key(2).to_bytes(),
        key(3).to_bytes(),
        amounts.0,
        amounts.1,
        amounts.2,
        disable_reflection,
        main_leg,
        reflection_leg,
    )
        .try_to_vec()
        .unwrap()
}

#[test]
fn integers_are_read_little_endian() {
    let bytes = [0x01, 0x02, 0x03, 0x04, 0x05, 0x06, 0x07, 0x08, 0x09];
    assert_eq!(read_u16(&bytes, 0), 0x0201);
    assert_eq!(read_u16(&bytes, 7), 0x0908);
    assert_eq!(read_u32(&bytes, 0), 0x0403_0201);
    assert_eq!(read_u32(&bytes, 5), 0x0908_0706);
    assert_eq!(read_u64(&bytes, 0), 0x0807_0605_0403_0201);
    assert_eq!(read_u64(&bytes, 1), 0x0908_0706_0504_0302);
    assert_eq!(read_u64(&[0xff; 8], 0), u64::MAX);
    assert_eq!(read_u32(&[0xff; 4], 0), u32::MAX);
    assert_eq!(read_u16(&[0xff; 2], 0), u16::MAX);
    assert_eq!(read_u64(&1_000_000u64.to_le_bytes(), 0), 1_000_000);
}

#[test]
fn flags_are_zero_or_one() {
    assert_eq!(read_flag(0), Some(false));
    assert_eq!(read_flag(1), Some(true));
    assert_eq!(read_flag(2), None);
    assert_eq!(read_flag(255), None);
}

#[test]
fn keys_and_bytes_are_read_in_place() {
    let mut bytes = vec![0u8; 40];
    for (i, b) in bytes.iter_mut().enumerate() {
        *b = i as u8;
    }
    let k = read_key(&bytes, 8);
    assert_eq!(k.to_bytes()[0], 8);
    assert_eq!(k.to_bytes()[31], 39);
    assert_eq!(read_bytes(&bytes, 3, 6), vec![3, 4, 5]);
    assert!(read_bytes(&bytes, 40, 40).is_empty());
}

#[test]
fn sequences_are_read_behind_their_length() {
    let bytes = [9, 3, 0, 0, 0, 7, 8, 9, 1];
    assert_eq!(read_byte_vec(&bytes, 1), Some((vec![7, 8, 9], 8)));
    assert_eq!(read_byte_vec(&bytes, 2), None);
    assert_eq!(read_byte_vec(&bytes, 0), None);
    assert_eq!(read_byte_vec(&[5, 0, 0, 0, 0, 5], 1), Some((Vec::new(), 5)));
    assert_eq!(read_byte_vec(&bytes, 6), None);
    assert_eq!(read_byte_vec(&bytes, 9), None);

    let flags = [2, 0, 0, 0, 1, 0, 3, 0, 0, 0, 1, 2, 0];
    assert_eq!(read_flag_vec(&flags, 0), Some((vec![true, false], 6)));
    assert_eq!(read_flag_vec(&flags, 6), None);
    assert_eq!(read_flag_vec(&flags, 10), None);
    assert_eq!(read_flag_vec(&[0, 0, 0, 0], 0), Some((Vec::new(), 4)));
}

#[test]
fn indexed_request_is_read_byte_for_byte() {
    let mut bytes = Vec::new();
    bytes.extend_from_slice(&1_000_000u64.to_le_bytes());
    bytes.extend_from_slice(&950u64.to_le_bytes());
    bytes.extend_from_slice(&[3, 0, 0, 0]);
    bytes.extend_from_slice(&[2, 1, 0, 0, 5, 1]);
    bytes.extend_from_slice(&[4, 0, 0, 0]);
    bytes.extend_from_slice(&[0xde, 0xad, 0xbe, 0xef]);
    assert_eq!(bytes.len(), 24 + 6 + 4);
    let v = parse_swap(&bytes, Encoding::Indexed).unwrap();
    assert_eq!(v.amount, 1_000_000);
    assert_eq!(v.min_out, 950);
    assert_eq!(indexed_list(&v.jupiter_accounts), vec![(2, true), (0, false), (5, true)]);
    assert_eq!(v.jupiter_data, vec![0xde, 0xad, 0xbe, 0xef]);
}

#[test]
fn indexed_request_agrees_with_the_host_encoding() {
    let cases: Vec<(u64, u64, Vec<(u8, bool)>, Vec<u8>)> = vec![
        (0, 0, vec![], vec![]),
        (1, 2, vec![(0, false)], vec![7]),
        (u64::MAX, u64::MAX - 1, vec![(255, true), (0, false), (17, true)], vec![0; 300]),
        (0x0102_0304_0506_0708, 9, vec![(1, true); 21], (0..=255).collect()),
    ];
    for (amount, min_out, refs, data) in cases {
        let bytes = indexed_bytes(amount, min_out, &refs, &data);
        assert_eq!(bytes.len(), 24 + 2 * refs.len() + data.len());
        let v = parse_swap(&bytes, Encoding::Indexed).unwrap();
        assert_eq!(v.amount, amount);
        assert_eq!(v.min_out, min_out);
        assert_eq!(indexed_list(&v.jupiter_accounts), refs);
        assert_eq!(v.jupiter_data, data);
    }
}

#[test]
fn full_request_agrees_with_the_host_encoding() {
    let cases: Vec<(u64, u64, Vec<([u8; 32], bool, bool)>, Vec<u8>)> = vec![
        (0, 0, vec![], vec![]),
        (5, 6, vec![(key(1).to_bytes(), true, false)], vec![1, 2, 3]),
        (
            u64::MAX,
            1,
            vec![
                (key(1).to_bytes(), false, true),
                ([0xff; 32], true, true),
                ([0; 32], false, false),
            ],
            vec![9; 40],
        ),
    ];
    for (amount, min_out, refs, data) in cases {
        let bytes = full_bytes(amount, min_out, &refs, &data);
        assert_eq!(bytes.len(), 24 + 34 * refs.len() + data.len());
        let v = parse_swap(&bytes, Encoding::Full).unwrap();
        assert_eq!(v.amount, amount);
        assert_eq!(v.min_out, min_out);
        assert_eq!(full_list(&v.jupiter_accounts), refs);
        assert_eq!(v.jupiter_data, data);
    }
}

#[test]
fn the_two_forms_are_not_read_as_each_other() {
    let bytes = full_bytes(5, 6, &[(key(1).to_bytes(), true, false)], &[1, 2, 3]);
    assert_eq!(parse_swap(&bytes, Encoding::Indexed).unwrap_err(), DecodeError::Malformed);
    let bytes = indexed_bytes(5, 6, &[(1, true)], &[1, 2, 3]);
    assert_eq!(parse_swap(&bytes, Encoding::Full).unwrap_err(), DecodeError::Malformed);
}

#[test]
fn truncated_request_is_malformed() {
    let bytes = indexed_bytes(1_000_000, 1, &[(0, true), (1, false)], &[1, 2, 3]);
    for cut in 0..bytes.len() {
        assert_eq!(
            parse_swap(&bytes[..cut], Encoding::Indexed).unwrap_err(),
            DecodeError::Malformed,
            "cut at {}",
            cut
        );
    }
    let bytes = full_bytes(1_000_000, 1, &[(key(1).to_bytes(), true, true)], &[1, 2, 3]);
    for cut in 0..bytes.len() {
        assert_eq!(parse_swap(&bytes[..cut], Encoding::Full).unwrap_err(), DecodeError::Malformed);
    }
}

#[test]
fn trailing_bytes_are_malformed() {
    let mut bytes = indexed_bytes(1_000_000, 1, &[(0, true)], &[1, 2, 3]);
    bytes.push(0);
    assert_eq!(parse_swap(&bytes, Encoding::Indexed).unwrap_err(), DecodeError::Malformed);
    let mut bytes = full_bytes(1, 1, &[], &[]);
    bytes.push(0);
    assert_eq!(parse_swap(&bytes, Encoding::Full).unwrap_err(), DecodeError::Malformed);
}

#[test]
fn flag_other_than_zero_or_one_is_malformed() {
    let mut bytes = indexed_bytes(1_000_000, 1, &[(0, true), (1, false)], &[1, 2, 3]);
    bytes[23] = 2;
    assert_eq!(parse_swap(&bytes, Encoding::Indexed).unwrap_err(), DecodeError::Malformed);
    bytes[23] = 0;
    assert!(parse_swap(&bytes, Encoding::Indexed).is_ok());

    let good = full_bytes(1, 1, &[(key(1).to_bytes(), true, true)], &[]);
    for at in [20 + 32, 20 + 33] {
        let mut bytes = good.clone();
        bytes[at] = 0xff;
        assert_eq!(parse_swap(&bytes, Encoding::Full).unwrap_err(), DecodeError::Malformed);
    }
}

#[test]
fn count_larger_than_the_bytes_hold_is_malformed() {
    let mut bytes = indexed_bytes(1, 1, &[(0, true)], &[]);
    bytes[16..20].copy_from_slice(&u32::MAX.to_le_bytes());
    assert_eq!(parse_swap(&bytes, Encoding::Indexed).unwrap_err(), DecodeError::Malformed);
    assert_eq!(parse_swap(&bytes, Encoding::Full).unwrap_err(), DecodeError::Malformed);
    let mut bytes = indexed_bytes(1, 1, &[(0, true)], &[7]);
    let at = bytes.len() - 5;
    bytes[at..at + 4].copy_from_slice(&2u32.to_le_bytes());
    assert_eq!(parse_swap(&bytes, Encoding::Indexed).unwrap_err(), DecodeError::Malformed);
}

#[test]
fn index_five_with_three_accounts_supplied_fails_decoding() {
    let supplied = vec![granted(1), granted(2), granted(3)];
    let bytes = indexed_bytes(1_000_000, 1, &[(0, true), (5, false)], &[1, 2, 3]);
    assert!(parse_swap(&bytes, Encoding::Indexed).is_ok());
    assert_eq!(
        decode_swap(&bytes, Encoding::Indexed, &supplied).unwrap_err(),
        DecodeError::UnresolvedAccount
    );
    let bytes = indexed_bytes(1_000_000, 1, &[(0, true), (3, false)], &[1, 2, 3]);
    assert_eq!(
        decode_swap(&bytes, Encoding::Indexed, &supplied).unwrap_err(),
        DecodeError::UnresolvedAccount
    );
    let bytes = indexed_bytes(1_000_000, 1, &[(0, true), (2, false)], &[1, 2, 3]);
    let v = decode_swap(&bytes, Encoding::Indexed, &supplied).unwrap();
    assert_eq!(indexed_list(&v.jupiter_accounts), vec![(0, true), (2, false)]);
}

#[test]
fn decoding_tells_malformed_bytes_from_unresolved_references() {
    let supplied = vec![granted(1)];
    let mut bytes = indexed_bytes(1_000_000, 1, &[(9, true)], &[]);
    assert_eq!(
        decode_swap(&bytes, Encoding::Indexed, &supplied).unwrap_err(),
        DecodeError::UnresolvedAccount
    );
    bytes.push(1);
    assert_eq!(
        decode_swap(&bytes, Encoding::Indexed, &supplied).unwrap_err(),
        DecodeError::Malformed
    );
    let bytes = full_bytes(1, 1, &[(key(2).to_bytes(), false, false)], &[]);
    assert_eq!(
        decode_swap(&bytes, Encoding::Full, &supplied).unwrap_err(),
        DecodeError::UnresolvedAccount
    );
    let bytes = full_bytes(1, 1, &[(key(1).to_bytes(), false, false)], &[]);
    assert!(decode_swap(&bytes, Encoding::Full, &supplied).is_ok());
    assert!(decode_swap(&bytes, Encoding::Full, &Vec::new()).is_err());
}

#[test]
fn references_are_built_as_their_form_says() {
    let bytes = indexed_bytes(1, 1, &[], &[]);
    let v = parse_swap(&bytes, Encoding::Indexed).unwrap();
    assert!(matches!(v.jupiter_accounts, AccountReferences::Indexed(ref list) if list.is_empty()));
    let v = parse_swap(&bytes, Encoding::Full).unwrap();
    assert!(matches!(v.jupiter_accounts, AccountReferences::Full(ref list) if list.is_empty()));
    let single = JupiterAccountInfo { index: 1, is_writable: true };
    assert_eq!((single.index, single.is_writable), (1, true));
    let full = SerializableAccountMeta { pubkey: key(1), is_signer: true, is_writable: false };
    assert!(full.pubkey == key(1) && full.is_signer && !full.is_writable);
}

#[test]
fn leg_is_read_behind_its_account_count() {
    let fields: LegFields = (3, vec![1, 2, 3, 4], vec![true, false, true], vec![false, false]);
    let mut bytes = vec![0xee];
    bytes.extend(fields.try_to_vec().unwrap());
    bytes.push(0xee);
    let (leg, end) = read_leg(&bytes, 1).unwrap();
    assert_eq!(end, bytes.len() - 1);
    assert_eq!(leg_fields(&Some(leg)), Some(fields));
    assert!(read_leg(&bytes, 0).is_none());
    assert!(read_leg(&bytes[..bytes.len() - 2], 1).is_none());
    assert!(read_leg(&bytes, bytes.len()).is_none());
}

#[test]
fn optional_leg_is_tagged_zero_or_one() {
    assert!(matches!(read_optional_leg(&[0], 0), Some((None, 1))));
    assert!(read_optional_leg(&[2], 0).is_none());
    assert!(read_optional_leg(&[], 0).is_none());
    assert!(read_optional_leg(&[1], 0).is_none());
    let fields: LegFields = (0, vec![], vec![], vec![]);
    let bytes = Some(fields.clone()).try_to_vec().unwrap();
    assert_eq!(bytes.len(), 1 + 2 + 4 + 4 + 4);
    let (leg, end) = read_optional_leg(&bytes, 0).unwrap();
    assert_eq!(end, 15);
    assert_eq!(leg_fields(&leg), Some(fields));
}

#[test]
fn two_leg_request_agrees_with_the_host_encoding() {
    let main: LegFields = (21, vec![0xaa; 50], vec![true; 21], vec![false; 21]);
    let reflection: LegFields = (2, vec![0xbb], vec![false, true], vec![true]);
    let cases = vec![
        ((1u64, 2u64, 3u64), false, None, None),
        ((1_000_000, 950, 10), false, Some(main.clone()), Some(reflection.clone())),
        ((u64::MAX, 0, u64::MAX), true, Some(main.clone()), None),
        ((7, 7, 7), true, None, Some(reflection.clone())),
    ];
    for (amounts, disable, main_leg, reflection_leg) in cases {
        let bytes = raceswap_bytes(amounts, disable, main_leg.clone(), reflection_leg.clone());
        let v: ExecuteRaceswapParams = parse_raceswap(&bytes).unwrap();
        assert!(v.input_mint == key(1));
        assert!(v.main_output_mint == key(2));
        assert!(v.reflection_mint == key(3));
        assert_eq!(v.total_input_amount, amounts.0);
        assert_eq!(v.min_main_out, amounts.1);
        assert_eq!(v.min_reflection_out, amounts.2);
        assert_eq!(v.disable_reflection, disable);
        assert_eq!(leg_fields(&v.main_leg), main_leg);
        assert_eq!(leg_fields(&v.reflection_leg), reflection_leg);
    }
}

#[test]
fn two_leg_request_is_read_to_its_last_byte_and_no_further() {
    let main: LegFields = (3, vec![0xaa; 5], vec![true; 3], vec![false; 3]);
    let reflection: LegFields = (2, vec![0xbb], vec![false, true], vec![true]);
    let bytes = raceswap_bytes((1_000_000, 950, 10), false, Some(main), Some(reflection));
    for cut in 0..bytes.len() {
        assert_eq!(parse_raceswap(&bytes[..cut]).unwrap_err(), DecodeError::Malformed, "cut {}", cut);
    }
    let mut longer = bytes.clone();
    longer.push(0);
    assert_eq!(parse_raceswap(&longer).unwrap_err(), DecodeError::Malformed);
}

#[test]
fn two_leg_request_with_a_bad_flag_or_tag_is_malformed() {
    let main: LegFields = (1, vec![0xaa], vec![true], vec![false]);
    let good = raceswap_bytes((1, 2, 3), true, Some(main), None);
    assert!(parse_raceswap(&good).is_ok());
    let last = good.len() - 1;
    let writable_flag = 121 + 1 + 2 + 4 + 1 + 4;
    let signer_flag = writable_flag + 1 + 4;
    for at in [120, 121, writable_flag, signer_flag, last] {
        let mut bytes = good.clone();
        bytes[at] = 2;
        assert_eq!(parse_raceswap(&bytes).unwrap_err(), DecodeError::Malformed, "byte {}", at);
    }
}
