use credify::address::Address;
use credify::instruction::{decode_instruction, decode_metadata, decode_profile, Instruction};
use credify::record::{decode_issuer_data, decode_tree_data, encode_issuer_data, encode_tree_data};
use credify::{ErrorCode, IssuerData, MerkleTreeData};

fn proof_bytes(tag: u8) -> Vec<u8> {
    let mut d = vec![tag];
    d.extend_from_slice(&[1u8; 32]);
    d.extend_from_slice(&[2u8; 32]);
    d.extend_from_slice(&[3u8; 32]);
    d.extend_from_slice(&0x0102_0304_0506_0708u64.to_le_bytes());
    d.extend_from_slice(&9u32.to_le_bytes());
    d
}

#[test]
fn decode_simple_tags() {
    assert!(matches!(decode_instruction(&vec![0]), Ok(Instruction::InitializeIssuer)));
    assert!(matches!(decode_instruction(&vec![2, 99]), Ok(Instruction::IssueCredential)));
    assert!(matches!(decode_instruction(&vec![5]), Ok(Instruction::VerifyProof)));
}

#[test]
fn decode_rejects_empty_and_unknown() {
    assert_eq!(decode_instruction(&vec![]).unwrap_err(), ErrorCode::InvalidInstruction);
    assert_eq!(decode_instruction(&vec![6]).unwrap_err(), ErrorCode::InvalidInstruction);
    assert_eq!(decode_instruction(&vec![255, 0, 0]).unwrap_err(), ErrorCode::InvalidInstruction);
}

#[test]
fn decode_create_tree_arguments() {
    let mut d = vec![1u8];
    d.extend_from_slice(&14u32.to_le_bytes());
    d.extend_from_slice(&64u32.to_le_bytes());
    match decode_instruction(&d) {
        Ok(Instruction::CreateMerkleTree { max_depth, max_buffer_size }) => {
            assert_eq!(max_depth, 14);
            assert_eq!(max_buffer_size, 64);
        }
        other => panic!("unexpected {:?}", other),
    }
    d.pop();
    assert_eq!(decode_instruction(&d).unwrap_err(), ErrorCode::InvalidInstruction);
}

#[test]
fn decode_transfer_and_burn_proofs() {
    match decode_instruction(&proof_bytes(3)) {
        Ok(Instruction::TransferCredential(p)) => {
            assert_eq!(p.root, [1u8; 32]);
            assert_eq!(p.data_hash, [2u8; 32]);
            assert_eq!(p.creator_hash, [3u8; 32]);
            assert_eq!(p.nonce, 0x0102_0304_0506_0708);
            assert_eq!(p.index, 9);
        }
        other => panic!("unexpected {:?}", other),
    }
    match decode_instruction(&proof_bytes(4)) {
        Ok(Instruction::BurnCredential(p)) => assert_eq!(p.index, 9),
        other => panic!("unexpected {:?}", other),
    }
    let mut short = proof_bytes(4);
    short.pop();
    assert_eq!(decode_instruction(&short).unwrap_err(), ErrorCode::InvalidInstruction);
}

fn issuer() -> IssuerData {
    IssuerData {
        authority: Address::new([0xa0u8; 32]),
        name: "APEC University".to_string(),
        logo_uri: "https://apecgroup.net/logo.png".to_string(),
        website: "https://apecgroup.net".to_string(),
        bump: 254,
        is_active: true,
        credential_count: 3,
        merkle_tree_count: 1,
    }
}

fn tree(created_at: i64) -> MerkleTreeData {
    MerkleTreeData {
        authority: Address::new([0xa0u8; 32]),
        merkle_tree: Address::new([0xe0u8; 32]),
        max_depth: 14,
        max_buffer_size: 64,
        tree_name: "Kohorte é".to_string(),
        created_at,
        is_active: false,
    }
}

#[test]
fn issuer_record_layout() {
    let b = encode_issuer_data(&issuer()).unwrap();
    assert_eq!(b[0], 1);
    assert_eq!(&b[1..33], &[0xa0u8; 32]);
    assert_eq!(&b[33..37], &15u32.to_le_bytes());
    assert_eq!(&b[37..52], b"APEC University");
    let n = b.len();
    assert_eq!(n, 1 + 32 + 4 + 15 + 4 + 30 + 4 + 21 + 1 + 1 + 8 + 8);
    assert_eq!(b[n - 18], 254);
    assert_eq!(b[n - 17], 1);
    assert_eq!(&b[n - 16..n - 8], &3u64.to_le_bytes());
    assert_eq!(&b[n - 8..], &1u64.to_le_bytes());
}

#[test]
fn issuer_record_round_trip() {
    let b = encode_issuer_data(&issuer()).unwrap();
    let d = decode_issuer_data(&b).unwrap();
    assert_eq!(d.authority, issuer().authority);
    assert_eq!(d.name, "APEC University");
    assert_eq!(d.logo_uri, "https://apecgroup.net/logo.png");
    assert_eq!(d.website, "https://apecgroup.net");
    assert_eq!(d.bump, 254);
    assert!(d.is_active);
    assert_eq!(d.credential_count, 3);
    assert_eq!(d.merkle_tree_count, 1);
}

#[test]
fn issuer_record_rejects_bad_bytes() {
    let b = encode_issuer_data(&issuer()).unwrap();
    let mut wrong_version = b.clone();
    wrong_version[0] = 2;
    assert_eq!(decode_issuer_data(&wrong_version).unwrap_err(), ErrorCode::InvalidRecordData);
    let mut trailing = b.clone();
    trailing.push(0);
    assert_eq!(decode_issuer_data(&trailing).unwrap_err(), ErrorCode::InvalidRecordData);
    let mut bad_flag = b.clone();
    let n = bad_flag.len();
    bad_flag[n - 17] = 2;
    assert_eq!(decode_issuer_data(&bad_flag).unwrap_err(), ErrorCode::InvalidRecordData);
    let mut bad_utf8 = b.clone();
    bad_utf8[37] = 0xff;
    assert_eq!(decode_issuer_data(&bad_utf8).unwrap_err(), ErrorCode::InvalidRecordData);
    assert_eq!(decode_issuer_data(&b[..40].to_vec()).unwrap_err(), ErrorCode::InvalidRecordData);
    assert_eq!(decode_issuer_data(&vec![]).unwrap_err(), ErrorCode::InvalidRecordData);
}

#[test]
fn tree_record_round_trip() {
    for created_at in [0i64, 1_700_000_000, -1, i64::MIN, i64::MAX] {
        let b = encode_tree_data(&tree(created_at)).unwrap();
        let d = decode_tree_data(&b).unwrap();
        assert_eq!(d.created_at, created_at);
        assert_eq!(d.authority, Address::new([0xa0u8; 32]));
        assert_eq!(d.merkle_tree, Address::new([0xe0u8; 32]));
        assert_eq!(d.max_depth, 14);
        assert_eq!(d.max_buffer_size, 64);
        assert_eq!(d.tree_name, "Kohorte é");
        assert!(!d.is_active);
    }
}

#[test]
fn tree_record_layout() {
    let b = encode_tree_data(&tree(-2)).unwrap();
    assert_eq!(b.len(), 1 + 32 + 32 + 4 + 4 + 4 + 10 + 8 + 1);
    assert_eq!(&b[65..69], &14u32.to_le_bytes());
    assert_eq!(&b[69..73], &64u32.to_le_bytes());
    assert_eq!(&b[73..77], &10u32.to_le_bytes());
    assert_eq!(&b[87..95], &(-2i64).to_le_bytes());
    assert_eq!(b[95], 0);
    let mut trailing = b.clone();
    trailing.push(1);
    assert_eq!(decode_tree_data(&trailing).unwrap_err(), ErrorCode::InvalidRecordData);
}

fn lp(s: &str) -> Vec<u8> {
    let mut v = (s.len() as u32).to_le_bytes().to_vec();
    v.extend_from_slice(s.as_bytes());
    v
}

#[test]
fn decode_issuer_profile_payload() {
    let mut d = vec![0u8];
    d.extend(lp("APEC University"));
    d.extend(lp("https://apecgroup.net/logo.png"));
    d.extend(lp("https://apecgroup.net"));
    let p = decode_profile(&d).unwrap();
    assert_eq!(p.name, "APEC University");
    assert_eq!(p.logo_uri, "https://apecgroup.net/logo.png");
    assert_eq!(p.website, "https://apecgroup.net");
    d.push(0);
    assert_eq!(decode_profile(&d).unwrap_err(), ErrorCode::InvalidInstruction);
    assert_eq!(decode_profile(&vec![0u8, 1, 0]).unwrap_err(), ErrorCode::InvalidInstruction);
}

#[test]
fn decode_metadata_payload() {
    let mut d = vec![2u8];
    d.extend(lp("Diploma"));
    d.extend(lp("CRED"));
    d.extend(lp(""));
    d.extend_from_slice(&500u16.to_le_bytes());
    let m = decode_metadata(&d).unwrap();
    assert_eq!(m.name, "Diploma");
    assert_eq!(m.symbol, "CRED");
    assert_eq!(m.uri, "");
    assert_eq!(m.seller_fee_basis_points, 500);
    assert!(m.creators.is_none());
    assert!(m.collection.is_none());
    d.pop();
    assert_eq!(decode_metadata(&d).unwrap_err(), ErrorCode::InvalidInstruction);
    let mut bad = vec![2u8];
    bad.extend_from_slice(&1u32.to_le_bytes());
    bad.push(0xc3);
    bad.extend(lp("CRED"));
    bad.extend(lp("u"));
    bad.extend_from_slice(&0u16.to_le_bytes());
    assert_eq!(decode_metadata(&bad).unwrap_err(), ErrorCode::InvalidInstruction);
}
