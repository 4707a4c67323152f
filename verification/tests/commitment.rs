use perma_data::transaction_data::{
    same_root, split_chunks, DataInfo, DataPayload, PayloadError, TransactionData, CHUNK_SIZE,
    MAXIMUM_DATA_PAYLOAD, PATH_SIZE,
};
use sp_runtime::traits::BlakeTwo256;
use sp_runtime::StateVersion;

fn pseudo_random(len: usize, seed: u64) -> Vec<u8> {
    let mut state = seed;
    let mut out = Vec::with_capacity(len);
    for _ in 0..len {
        state = state
            .wrapping_mul(6364136223846793005)
            .wrapping_add(1442695040888963407);
        out.push((state >> 33) as u8);
    }
    out
}

fn hex(bytes: &[u8]) -> String {
    let mut out = String::new();
    for b in bytes {
        out.push_str(&format!("{:02x}", b));
    }
    out
}

#[test]
fn constants_have_their_values() {
    assert_eq!(CHUNK_SIZE, 262144);
    assert_eq!(PATH_SIZE, 262144);
    assert_eq!(MAXIMUM_DATA_PAYLOAD, 10485760);
}

#[test]
fn empty_payload_has_no_chunk_and_the_empty_root() {
    assert_eq!(split_chunks(&[]).len(), 0);
    let info = DataInfo::compute(&[]);
    assert_eq!(info.size, 0);
    assert_eq!(
        hex(&info.chunk_root),
        "03170a2e7597b7b7e3d84c05391d139a62b157e78786d8c082f29dcf4c111314"
    );
}

#[test]
fn chunk_count_is_length_over_chunk_size_rounded_up() {
    let cases: [(usize, usize); 8] = [
        (0, 0),
        (1, 1),
        (CHUNK_SIZE - 1, 1),
        (CHUNK_SIZE, 1),
        (CHUNK_SIZE + 1, 2),
        (2 * CHUNK_SIZE, 2),
        (2 * CHUNK_SIZE + 1, 3),
        (614400, 3),
    ];
    for (len, count) in cases {
        let payload = pseudo_random(len, 7);
        let chunks = split_chunks(&payload);
        assert_eq!(chunks.len(), count);
        assert_eq!(chunks.concat(), payload);
        for (i, chunk) in chunks.iter().enumerate() {
            assert!(!chunk.is_empty());
            if i + 1 < chunks.len() {
                assert_eq!(chunk.len(), CHUNK_SIZE);
            } else {
                assert_eq!(chunk.len(), len - i * CHUNK_SIZE);
            }
        }
    }
}

#[test]
fn six_hundred_kib_make_three_chunks() {
    let payload = pseudo_random(600 * 1024, 42);
    let chunks = split_chunks(&payload);
    assert_eq!(chunks.len(), 3);
    assert_eq!(chunks[0].len(), 256 * 1024);
    assert_eq!(chunks[1].len(), 256 * 1024);
    assert_eq!(chunks[2].len(), 88 * 1024);
    assert_eq!(chunks[0][..], payload[..262144]);
    assert_eq!(chunks[1][..], payload[262144..524288]);
    assert_eq!(chunks[2][..], payload[524288..]);

    let info = DataInfo::compute(&payload);
    assert_eq!(info.size, 614400);
    let by_hand = vec![
        payload[..262144].to_vec(),
        payload[262144..524288].to_vec(),
        payload[524288..].to_vec(),
    ];
    let expected = <BlakeTwo256 as sp_runtime::traits::Hash>::ordered_trie_root(by_hand, StateVersion::V0);
    assert_eq!(info.chunk_root, expected.to_fixed_bytes());
    assert_eq!(
        hex(&info.chunk_root),
        "84e547f666b93f6f3975e605e1e8d154d468d667d640952c0522bc785c03c259"
    );
}

#[test]
fn root_is_not_the_payload_or_a_constant() {
    let a = DataInfo::compute(&[1, 2, 3]);
    let b = DataInfo::compute(&[1, 2, 4]);
    let expected = <BlakeTwo256 as sp_runtime::traits::Hash>::ordered_trie_root(vec![vec![1, 2, 3]], StateVersion::V0);
    assert_eq!(a.chunk_root, expected.to_fixed_bytes());
    assert_ne!(a.chunk_root, b.chunk_root);
    assert_ne!(a.chunk_root, [0u8; 32]);
}

#[test]
fn compute_is_deterministic() {
    let payload = pseudo_random(300 * 1024, 1);
    let first = DataInfo::compute(&payload);
    let second = DataInfo::compute(&payload);
    assert_eq!(first, second);
    assert!(first.same_as(&second));
}

#[test]
fn a_flipped_bit_changes_the_root() {
    let payload = pseudo_random(CHUNK_SIZE + 100, 3);
    let base = DataInfo::compute(&payload);
    for position in [0usize, 1, CHUNK_SIZE - 1, CHUNK_SIZE, CHUNK_SIZE + 99] {
        for bit in [0u8, 3, 7] {
            let mut changed = payload.clone();
            changed[position] ^= 1 << bit;
            let other = DataInfo::compute(&changed);
            assert_eq!(other.size, base.size);
            assert_ne!(other.chunk_root, base.chunk_root);
            assert!(!other.same_as(&base));
        }
    }
}

#[test]
fn chunk_order_matters() {
    let mut payload = vec![1u8; CHUNK_SIZE];
    payload.extend(vec![2u8; CHUNK_SIZE]);
    let mut swapped = vec![2u8; CHUNK_SIZE];
    swapped.extend(vec![1u8; CHUNK_SIZE]);
    assert_ne!(
        DataInfo::compute(&payload).chunk_root,
        DataInfo::compute(&swapped).chunk_root
    );
}

#[test]
fn payload_just_under_the_maximum_is_accepted() {
    let len = MAXIMUM_DATA_PAYLOAD as usize - 1;
    let data = TransactionData::from_payload(vec![0u8; len]).unwrap();
    assert_eq!(data.info.size, 10485759);
    assert_eq!(data.payload.as_ref().unwrap().0.len(), len);
    assert_eq!(split_chunks(&vec![0u8; len]).len(), 40);
}

#[test]
fn payload_of_the_maximum_is_rejected() {
    let len = MAXIMUM_DATA_PAYLOAD as usize;
    assert_eq!(
        TransactionData::from_payload(vec![0u8; len]),
        Err(PayloadError::OversizedPayload)
    );
    assert_eq!(
        TransactionData::from_payload(vec![0u8; len + 1]),
        Err(PayloadError::OversizedPayload)
    );
}

#[test]
fn payload_validity_is_length_under_the_maximum() {
    assert!(DataPayload::from(Vec::new()).is_valid());
    assert!(DataPayload::from(vec![0u8; MAXIMUM_DATA_PAYLOAD as usize - 1]).is_valid());
    assert!(!DataPayload::from(vec![0u8; MAXIMUM_DATA_PAYLOAD as usize]).is_valid());
    let payload: DataPayload = vec![1u8, 2, 3].into();
    assert_eq!(payload.as_bytes(), &[1u8, 2, 3]);
    assert_eq!(payload, DataPayload(vec![1, 2, 3]));
}

#[test]
fn from_payload_keeps_the_bytes_and_commits_to_them() {
    let payload = pseudo_random(1000, 9);
    let data = TransactionData::from_payload(payload.clone()).unwrap();
    assert_eq!(data.payload, Some(DataPayload(payload.clone())));
    assert_eq!(data.info, DataInfo::compute(&payload));
    assert_eq!(data.info.size, 1000);
    assert!(data.verify());
}

#[test]
fn verify_rejects_a_commitment_that_does_not_fit() {
    let payload = pseudo_random(1000, 9);
    let mut data = TransactionData::from_payload(payload.clone()).unwrap();
    data.info.size = 999;
    assert!(!data.verify());

    let mut data = TransactionData::from_payload(payload.clone()).unwrap();
    data.info.chunk_root[31] ^= 1;
    assert!(!data.verify());

    let mut data = TransactionData::from_payload(payload).unwrap();
    data.payload = Some(DataPayload(vec![0u8; 1000]));
    assert!(!data.verify());
}

#[test]
fn data_without_payload_has_nothing_to_verify() {
    let info = DataInfo::from_root(5, [7u8; 32]);
    assert_eq!(info.size, 5);
    assert_eq!(info.chunk_root, [7u8; 32]);
    let data = TransactionData::from_info_only(info);
    assert_eq!(data.payload, None);
    assert_eq!(data.info, info);
    assert!(data.verify());
}

#[test]
fn default_commitment_is_zero() {
    let info = DataInfo::default();
    assert_eq!(info.size, 0);
    assert_eq!(info.chunk_root, [0u8; 32]);
}

#[test]
fn roots_compare_byte_by_byte() {
    let a = [5u8; 32];
    let mut b = [5u8; 32];
    assert!(same_root(&a, &b));
    b[31] = 6;
    assert!(!same_root(&a, &b));
    b[31] = 5;
    b[0] = 4;
    assert!(!same_root(&a, &b));
}
