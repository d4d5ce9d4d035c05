use exex_types::serde_bincode_compat::{self, DecodeError};
use exex_types::{
    gas_spent_by_transactions, BasicReceipt, Block, CanonStateNotification, Chain,
    ExExNotification,
};
use std::sync::Arc;

fn chain_of(blocks: &[(u64, u64)]) -> Arc<Chain> {
    Arc::new(Chain::new(
        blocks.iter().map(|&(number, gas_used)| Block { number, gas_used }).collect(),
    ))
}

fn block_from(bytes: &[u8]) -> Block {
    let mut number = [0u8; 8];
    let mut gas = [0u8; 8];
    number.copy_from_slice(&bytes[0..8]);
    gas.copy_from_slice(&bytes[8..16]);
    Block { number: u64::from_le_bytes(number), gas_used: u64::from_le_bytes(gas) }
}

#[test]
fn test_exex_notification_bincode_roundtrip() {
    let mut bytes = [0u8; 1024];
    for (i, b) in bytes.iter_mut().enumerate() {
        *b = (i as u8).wrapping_mul(31).wrapping_add(7);
    }
    let notification = ExExNotification::ChainReorged {
        old: Arc::new(Chain::new(vec![block_from(&bytes)])),
        new: Arc::new(Chain::new(vec![block_from(&bytes[16..])])),
    };

    let encoded = serde_bincode_compat::serialize_as(&notification);
    let decoded = serde_bincode_compat::deserialize_as(&encoded).unwrap();
    assert_eq!(decoded, notification);
}

#[test]
fn committed_chain_of_each_variant() {
    let a = chain_of(&[(1, 10)]);
    let b = chain_of(&[(2, 20)]);
    let committed = ExExNotification::ChainCommitted { new: a.clone() };
    let reorged = ExExNotification::ChainReorged { old: a.clone(), new: b.clone() };
    let reverted = ExExNotification::ChainReverted { old: a.clone() };
    assert_eq!(committed.committed_chain(), Some(a.clone()));
    assert_eq!(reorged.committed_chain(), Some(b.clone()));
    assert_eq!(reverted.committed_chain(), None);
}

#[test]
fn reverted_chain_of_each_variant() {
    let a = chain_of(&[(1, 10)]);
    let b = chain_of(&[(2, 20)]);
    let committed = ExExNotification::ChainCommitted { new: b.clone() };
    let reorged = ExExNotification::ChainReorged { old: a.clone(), new: b.clone() };
    let reverted = ExExNotification::ChainReverted { old: a.clone() };
    assert_eq!(committed.reverted_chain(), None);
    assert_eq!(reorged.reverted_chain(), Some(a.clone()));
    assert_eq!(reverted.reverted_chain(), Some(a.clone()));
}

#[test]
fn projections_share_the_chain() {
    let a = chain_of(&[(1, 10)]);
    let committed = ExExNotification::ChainCommitted { new: a.clone() };
    let got = committed.committed_chain().unwrap();
    assert!(Arc::ptr_eq(&got, &a));
}

#[test]
fn inverting_a_reorg_swaps_chains() {
    let a = chain_of(&[(1, 10)]);
    let b = chain_of(&[(1, 11)]);
    let reorged = ExExNotification::ChainReorged { old: a.clone(), new: b.clone() };
    let inverted = reorged.into_inverted();
    assert_eq!(inverted, ExExNotification::ChainReorged { old: b.clone(), new: a.clone() });

    let bytes = serde_bincode_compat::serialize_as(&inverted);
    assert_eq!(serde_bincode_compat::deserialize_as(&bytes), Ok(inverted));
}

#[test]
fn inverting_commit_and_revert() {
    let a = chain_of(&[(5, 50)]);
    let committed = ExExNotification::ChainCommitted { new: a.clone() };
    assert_eq!(committed.into_inverted(), ExExNotification::ChainReverted { old: a.clone() });
    let reverted = ExExNotification::ChainReverted { old: a.clone() };
    assert_eq!(reverted.into_inverted(), ExExNotification::ChainCommitted { new: a.clone() });
}

#[test]
fn inverting_twice_gives_back_the_notification() {
    let a = chain_of(&[(1, 10), (2, 20)]);
    let b = chain_of(&[(1, 12)]);
    let all = vec![
        ExExNotification::ChainCommitted { new: a.clone() },
        ExExNotification::ChainReorged { old: a.clone(), new: b.clone() },
        ExExNotification::ChainReverted { old: b.clone() },
    ];
    for n in all {
        assert_eq!(n.clone().into_inverted().into_inverted(), n);
    }
}

#[test]
fn upstream_events_are_lifted() {
    let a = chain_of(&[(1, 10)]);
    let b = chain_of(&[(2, 20)]);
    let commit = CanonStateNotification::Commit { new: b.clone() };
    assert_eq!(ExExNotification::from(commit), ExExNotification::ChainCommitted { new: b.clone() });
    let reorg = CanonStateNotification::Reorg { old: a.clone(), new: b.clone() };
    assert_eq!(
        ExExNotification::from(reorg),
        ExExNotification::ChainReorged { old: a.clone(), new: b.clone() }
    );
}

#[test]
fn encoding_has_the_fixed_layout() {
    let n = ExExNotification::ChainReverted { old: chain_of(&[(0x0102, 7)]) };
    let bytes = serde_bincode_compat::serialize_as(&n);
    let expected: Vec<u8> = vec![
        2, 0, 0, 0, // tag
        1, 0, 0, 0, 0, 0, 0, 0, // block count
        2, 1, 0, 0, 0, 0, 0, 0, // number
        7, 0, 0, 0, 0, 0, 0, 0, // gas used
    ];
    assert_eq!(bytes, expected);
}

#[test]
fn mirror_borrows_and_rebuilds() {
    let a = chain_of(&[(3, 30), (4, 40)]);
    let b = chain_of(&[(3, 31)]);
    let n = ExExNotification::ChainReorged { old: a.clone(), new: b.clone() };
    let mirror = serde_bincode_compat::ExExNotification::from_source(&n);
    assert_eq!(mirror.serialize(), serde_bincode_compat::serialize_as(&n));
    let owned = mirror.into_owned();
    assert_eq!(owned, n);
    assert!(!Arc::ptr_eq(&owned.reverted_chain().unwrap(), &a));
}

#[test]
fn round_trip_of_every_shape() {
    let empty = chain_of(&[]);
    let a = chain_of(&[(9, 90), (10, 100), (11, 110)]);
    let all = vec![
        ExExNotification::ChainCommitted { new: a.clone() },
        ExExNotification::ChainReorged { old: empty.clone(), new: a.clone() },
        ExExNotification::ChainReverted { old: empty.clone() },
    ];
    for n in all {
        let bytes = serde_bincode_compat::serialize_as(&n);
        assert_eq!(serde_bincode_compat::deserialize_as(&bytes), Ok(n));
    }
}

#[test]
fn unknown_tag_is_a_decode_error() {
    let mut bytes = serde_bincode_compat::serialize_as(&ExExNotification::ChainCommitted {
        new: chain_of(&[(1, 1)]),
    });
    bytes[0] = 3;
    assert_eq!(
        serde_bincode_compat::deserialize_as(&bytes),
        Err(DecodeError::InvalidTag { tag: 3 })
    );
}

#[test]
fn truncated_buffer_is_a_decode_error() {
    let bytes = serde_bincode_compat::serialize_as(&ExExNotification::ChainReorged {
        old: chain_of(&[(1, 1)]),
        new: chain_of(&[(2, 2)]),
    });
    for cut in 0..bytes.len() {
        assert_eq!(
            serde_bincode_compat::deserialize_as(&bytes[..cut]),
            Err(DecodeError::UnexpectedEnd)
        );
    }
}

#[test]
fn oversized_block_count_is_a_decode_error() {
    let mut bytes: Vec<u8> = vec![0, 0, 0, 0];
    bytes.extend_from_slice(&u64::MAX.to_le_bytes());
    bytes.extend_from_slice(&[0u8; 16]);
    assert_eq!(serde_bincode_compat::deserialize_as(&bytes), Err(DecodeError::UnexpectedEnd));
}

#[test]
fn trailing_bytes_are_a_decode_error() {
    let mut bytes = serde_bincode_compat::serialize_as(&ExExNotification::ChainCommitted {
        new: chain_of(&[(1, 1)]),
    });
    bytes.push(0);
    assert_eq!(serde_bincode_compat::deserialize_as(&bytes), Err(DecodeError::TrailingBytes));
}

#[test]
fn gas_spent_pairs_index_and_cumulative_gas() {
    let receipts = vec![
        BasicReceipt { success: true, cumulative_gas_used: 21000 },
        BasicReceipt { success: false, cumulative_gas_used: 50000 },
        BasicReceipt { success: true, cumulative_gas_used: 71000 },
    ];
    assert_eq!(gas_spent_by_transactions(&receipts), vec![(0, 21000), (1, 50000), (2, 71000)]);
    let none: Vec<BasicReceipt> = Vec::new();
    assert_eq!(gas_spent_by_transactions(&none), Vec::<(u64, u64)>::new());
}

#[test]
fn decoded_buffer_reencodes_identically() {
    let mut bytes: Vec<u8> = vec![1, 0, 0, 0];
    bytes.extend_from_slice(&2u64.to_le_bytes());
    for v in [4u64, 400, 5, 500] {
        bytes.extend_from_slice(&v.to_le_bytes());
    }
    bytes.extend_from_slice(&0u64.to_le_bytes());
    let decoded = serde_bincode_compat::deserialize_as(&bytes).unwrap();
    assert_eq!(
        decoded,
        ExExNotification::ChainReorged { old: chain_of(&[(4, 400), (5, 500)]), new: chain_of(&[]) }
    );
    assert_eq!(decoded.committed_chain().unwrap().len(), 0);
    assert_eq!(decoded.reverted_chain().unwrap().len(), 2);
    assert_eq!(serde_bincode_compat::serialize_as(&decoded), bytes);
}
