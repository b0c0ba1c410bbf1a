use melcheck::generate::{
    big_hash_documents, coin_data_from_draws, coin_id_from_draws, create_datablocks,
    fixed_header_numbers, header_at_height, header_from_draws, random_coin_data, random_header,
    random_transaction, stakedoc_from_draws, transaction_to_recipient, HeaderHashes,
};
use melcheck::ledger::{Denom, NetId, TxKind};

#[test]
fn header_modifiers_fix_the_numbers() {
    let h = random_header(0);
    assert_eq!((h.height, h.fee_pool, h.fee_multiplier, h.dosc_speed), (0, 0, 0, 0));
    assert_eq!(h.network, NetId::Mainnet);
    let h = random_header(255);
    assert_eq!((h.height, h.fee_pool, h.fee_multiplier, h.dosc_speed), (255, 255, 255, 255));
    let h = random_header(65535);
    assert_eq!((h.height, h.fee_pool, h.fee_multiplier, h.dosc_speed), (65535, 65535, 65535, 65535));
    let m = u32::MAX as u128;
    let h = random_header(m);
    assert_eq!((h.height as u128, h.fee_pool, h.fee_multiplier, h.dosc_speed), (m, m, m, m));
    let m = u64::MAX as u128;
    let h = random_header(m);
    assert_eq!((h.height as u128, h.fee_pool, h.fee_multiplier, h.dosc_speed), (m, m, m, m));
    let h = random_header(u128::MAX);
    assert_eq!(h.height, u64::MAX);
    assert_eq!((h.fee_pool, h.fee_multiplier, h.dosc_speed), (u128::MAX, u128::MAX, u128::MAX));
}

#[test]
fn header_hashes_are_random() {
    let a = random_header(0);
    let b = random_header(0);
    assert_ne!(a.transactions_hash, b.transactions_hash);
}

#[test]
fn header_at_height_overrides_height() {
    let h = header_at_height(42, u128::MAX);
    assert_eq!(h.height, 42);
    assert_eq!(h.fee_pool, u128::MAX);
}

#[test]
fn coin_data_shape() {
    for _ in 0..50 {
        let c = random_coin_data();
        assert_eq!(c.denom, Denom::Mel);
        assert!(c.additional_data.len() < 32);
    }
}

#[test]
fn transaction_shape() {
    for _ in 0..20 {
        let tx = random_transaction();
        assert_eq!(tx.kind, TxKind::Swap);
        assert!((1..32).contains(&tx.inputs.len()));
        assert!((1..32).contains(&tx.outputs.len()));
        assert!((1..32).contains(&tx.covenants.len()));
        assert!((1..32).contains(&tx.sigs.len()));
        assert_eq!(tx.data.len(), 2);
        assert!(tx.covenants.iter().all(|c| c.len() < 32));
        assert!(tx.sigs.iter().all(|s| s.len() < 32));
        assert!(tx.outputs.iter().all(|o| o.denom == Denom::Mel && o.additional_data.len() < 32));
    }
}

#[test]
fn recipient_goes_into_first_output() {
    let tx = transaction_to_recipient(99, "abCD01").unwrap();
    assert_eq!(tx.outputs[0].value, 99);
    assert_eq!(tx.outputs[0].additional_data, vec![0xab, 0xcd, 0x01]);
    assert!(transaction_to_recipient(1, "xyz").is_none());
    assert!(transaction_to_recipient(1, "abc").is_none());
}

#[test]
fn datablock_count() {
    assert_eq!(create_datablocks(0).len(), 0);
    assert_eq!(create_datablocks(5).len(), 5);
}

fn hashes() -> HeaderHashes {
    HeaderHashes {
        previous: [1; 32],
        history_hash: [2; 32],
        coins_hash: [3; 32],
        transactions_hash: [4; 32],
        pools_hash: [5; 32],
        stakes_hash: [6; 32],
    }
}

#[test]
fn header_takes_drawn_numbers_for_free_modifiers() {
    let h = header_from_draws(7, hashes(), (11, 12, 13, 14));
    assert_eq!((h.height, h.fee_pool, h.fee_multiplier, h.dosc_speed), (11, 12, 13, 14));
    assert_eq!(h.previous, [1; 32]);
    assert_eq!(h.transactions_hash, [4; 32]);
    assert_eq!(h.stakes_hash, [6; 32]);
    assert_eq!(h.network, NetId::Mainnet);
}

#[test]
fn header_ignores_drawn_numbers_for_fixed_modifiers() {
    let h = header_from_draws(255, hashes(), (11, 12, 13, 14));
    assert_eq!((h.height, h.fee_pool, h.fee_multiplier, h.dosc_speed), (255, 255, 255, 255));
    assert_eq!(fixed_header_numbers(7), None);
    assert_eq!(fixed_header_numbers(0), Some((0, 0, 0, 0)));
}

#[test]
fn structures_from_draws() {
    let c = coin_id_from_draws([8; 32], 3);
    assert_eq!((c.txhash, c.index), ([8; 32], 3));
    let d = coin_data_from_draws([9; 32], 77, vec![1, 2]);
    assert_eq!((d.covhash, d.value, d.denom, d.additional_data), ([9; 32], 77, Denom::Mel, vec![1, 2]));
    let s = stakedoc_from_draws([4; 32], 1, 2, 3);
    assert_eq!((s.pubkey, s.e_start, s.e_post_end, s.syms_staked), ([4; 32], 1, 2, 3));
}

#[test]
fn big_hash_document_count() {
    assert_eq!(big_hash_documents().len(), 800);
}
