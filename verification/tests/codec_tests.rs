//! Tests of the canonical codec: exact byte shapes, round trips, and a
//! cross-check against the SCALE reference implementation.

use dapps_staking::codec::{
    byte_len, clone_bytes, decode_compact, decode_era_info, decode_result_era_info,
    decode_result_unit, decode_u32, encode_bond_stake_input, encode_compact, encode_era_info,
    encode_result_era_info, encode_result_unit, encode_u32,
};
use dapps_staking::wire::{AccountId, BondStakeInput, DSErrorCode, EraInfo, RewardInfo};
use parity_scale_codec::{Compact, Decode, Encode};

fn compact(v: u128) -> Vec<u8> {
    let mut out = Vec::new();
    encode_compact(v, &mut out);
    out
}

fn era_info(stakers: u128, dapps: u128, staked: u128, locked: u128) -> EraInfo {
    EraInfo { rewards: RewardInfo { stakers, dapps }, staked, locked }
}

#[test]
fn compact_single_byte_mode() {
    assert_eq!(compact(0), vec![0x00]);
    assert_eq!(compact(1), vec![0x04]);
    assert_eq!(compact(42), vec![0xa8]);
    assert_eq!(compact(63), vec![0xfc]);
}

#[test]
fn compact_two_byte_mode() {
    assert_eq!(compact(64), vec![0x01, 0x01]);
    assert_eq!(compact(16383), vec![0xfd, 0xff]);
}

#[test]
fn compact_four_byte_mode() {
    assert_eq!(compact(16384), vec![0x02, 0x00, 0x01, 0x00]);
    assert_eq!(compact(1073741823), vec![0xfe, 0xff, 0xff, 0xff]);
}

#[test]
fn compact_big_mode() {
    assert_eq!(compact(1073741824), vec![0x03, 0x00, 0x00, 0x00, 0x40]);
    assert_eq!(compact(u128::MAX), {
        let mut v = vec![0x33];
        v.extend([0xff; 16]);
        v
    });
}

#[test]
fn compact_round_trips() {
    let samples: [u128; 14] = [
        0,
        1,
        63,
        64,
        16383,
        16384,
        1073741823,
        1073741824,
        u32::MAX as u128,
        u64::MAX as u128,
        u64::MAX as u128 + 1,
        10_u128.pow(30),
        u128::MAX - 1,
        u128::MAX,
    ];
    for &v in samples.iter() {
        let enc = compact(v);
        assert_eq!(decode_compact(&enc, 0), Some((v, enc.len())));
    }
}

#[test]
fn compact_matches_scale_reference() {
    let samples: [u128; 10] = [
        0,
        63,
        64,
        16383,
        16384,
        1073741823,
        1073741824,
        u64::MAX as u128,
        10_u128.pow(30),
        u128::MAX,
    ];
    for &v in samples.iter() {
        let mine = compact(v);
        assert_eq!(mine, Compact(v).encode());
        let theirs = Compact::<u128>::decode(&mut &mine[..]).expect("reference decode").0;
        assert_eq!(theirs, v);
    }
}

#[test]
fn compact_rejects_non_canonical() {
    // Too short for the mode announced by the first byte.
    assert_eq!(decode_compact(&vec![], 0), None);
    assert_eq!(decode_compact(&vec![0x01], 0), None);
    assert_eq!(decode_compact(&vec![0x02, 0x00, 0x00], 0), None);
    assert_eq!(decode_compact(&vec![0x03, 0x00, 0x00, 0x40], 0), None);
    // A value written in a longer mode than it needs.
    assert_eq!(decode_compact(&vec![0x01, 0x00], 0), None);
    assert_eq!(decode_compact(&vec![0xfd, 0x00, 0x00, 0x00], 0), None);
    assert_eq!(decode_compact(&vec![0x03, 0xff, 0xff, 0xff, 0x3f], 0), None);
    assert_eq!(decode_compact(&vec![0x07, 0x00, 0x00, 0x00, 0x40, 0x00], 0), None);
    // More bytes than the largest mode can carry.
    let mut too_long = vec![0x37];
    too_long.extend([0xff; 17]);
    assert_eq!(decode_compact(&too_long, 0), None);
}

#[test]
fn compact_decode_mid_buffer() {
    let mut buf = vec![0xaa, 0xbb];
    encode_compact(300, &mut buf);
    buf.push(0xcc);
    assert_eq!(decode_compact(&buf, 2), Some((300, 4)));
}

#[test]
fn u32_round_trip() {
    for &v in [0u32, 1, 5, 3401, u32::MAX].iter() {
        let enc = encode_u32(v);
        assert_eq!(enc.len(), 4);
        assert_eq!(decode_u32(&enc), v);
        assert_eq!(enc, v.encode());
    }
    assert_eq!(encode_u32(5), vec![5, 0, 0, 0]);
}

#[test]
fn era_info_round_trip_ordinary() {
    let info = era_info(100, 50, 1000, 200);
    let mut enc = Vec::new();
    encode_era_info(&info, &mut enc);
    assert_eq!(decode_era_info(&enc, 0), Some((info, enc.len())));
}

#[test]
fn era_info_round_trip_zero_values() {
    let info = era_info(0, 0, 0, 0);
    let mut enc = Vec::new();
    encode_era_info(&info, &mut enc);
    assert_eq!(enc, vec![0, 0, 0, 0]);
    assert_eq!(decode_era_info(&enc, 0), Some((info, 4)));
}

#[test]
fn era_info_round_trip_maximum_values() {
    let info = era_info(u128::MAX, u128::MAX, u128::MAX, u128::MAX);
    let mut enc = Vec::new();
    encode_era_info(&info, &mut enc);
    assert_eq!(enc.len(), 4 * 17);
    assert_eq!(decode_era_info(&enc, 0), Some((info, enc.len())));
}

#[test]
fn era_info_matches_scale_reference_layout() {
    let info = era_info(100, 50, 1000, 200);
    let mut mine = Vec::new();
    encode_era_info(&info, &mut mine);
    let mut reference = Vec::new();
    reference.extend(Compact(100u128).encode());
    reference.extend(Compact(50u128).encode());
    reference.extend(Compact(1000u128).encode());
    reference.extend(Compact(200u128).encode());
    assert_eq!(mine, reference);
}

#[test]
fn era_info_envelope_round_trip() {
    let info = era_info(7, 8, 9, 10);
    let mut ok_enc = Vec::new();
    encode_result_era_info(&Ok(info), &mut ok_enc);
    assert_eq!(ok_enc[0], 0);
    assert_eq!(decode_result_era_info(&ok_enc, 0), Some((Ok(info), ok_enc.len())));

    let mut err_enc = Vec::new();
    encode_result_era_info(&Err(DSErrorCode::Failed), &mut err_enc);
    assert_eq!(err_enc, vec![1, 0]);
    assert_eq!(decode_result_era_info(&err_enc, 0), Some((Err(DSErrorCode::Failed), 2)));

    assert_eq!(decode_result_era_info(&vec![], 0), None);
    assert_eq!(decode_result_era_info(&vec![2], 0), None);
    assert_eq!(decode_result_era_info(&vec![1, 1], 0), None);
}

#[test]
fn unit_envelope_round_trip() {
    let mut ok_enc = Vec::new();
    encode_result_unit(&Ok(()), &mut ok_enc);
    assert_eq!(ok_enc, vec![0]);
    assert_eq!(decode_result_unit(&ok_enc, 0), Some((Ok(()), 1)));

    let mut err_enc = Vec::new();
    encode_result_unit(&Err(DSErrorCode::Failed), &mut err_enc);
    assert_eq!(err_enc, vec![1, 0]);
    assert_eq!(decode_result_unit(&err_enc, 0), Some((Err(DSErrorCode::Failed), 2)));

    assert_eq!(decode_result_unit(&vec![], 0), None);
    assert_eq!(decode_result_unit(&vec![3], 0), None);
}

#[test]
fn bond_stake_input_layout() {
    let input = BondStakeInput { account_id: AccountId { bytes: [7u8; 32] }, value: 500 };
    let enc = encode_bond_stake_input(&input);
    assert_eq!(enc.len(), 48);
    assert_eq!(&enc[..32], &[7u8; 32]);
    let mut value_bytes = [0u8; 16];
    value_bytes[0] = 0xf4;
    value_bytes[1] = 0x01;
    assert_eq!(&enc[32..], &value_bytes);
    // The reference codec writes a plain (non-compact) balance the same way.
    assert_eq!(&enc[32..], &500u128.encode()[..]);
}

#[test]
fn byte_len_is_minimal() {
    assert_eq!(byte_len(0), 1);
    assert_eq!(byte_len(255), 1);
    assert_eq!(byte_len(256), 2);
    assert_eq!(byte_len(u64::MAX as u128), 8);
    assert_eq!(byte_len(u128::MAX), 16);
}

#[test]
fn clone_bytes_copies() {
    let v = vec![1u8, 2, 3];
    assert_eq!(clone_bytes(&v), v);
    assert_eq!(clone_bytes(&Vec::new()), Vec::<u8>::new());
}
