use exex_loader::body::{
    blob_transactions, blob_versioned_hashes, has_blob_transactions, has_eip7702_transactions,
};

#[test]
fn blob_transactions_are_detected() {
    assert!(has_blob_transactions(&[0, 2, 3]));
    assert!(!has_blob_transactions(&[0, 1, 2, 4]));
    assert!(!has_blob_transactions(&[]));
}

#[test]
fn set_code_transactions_are_detected() {
    assert!(has_eip7702_transactions(&[4]));
    assert!(!has_eip7702_transactions(&[0, 3]));
}

#[test]
fn blob_transaction_positions() {
    assert_eq!(blob_transactions(&[3, 0, 3, 2]), vec![0, 2]);
    assert_eq!(blob_transactions(&[0, 1]), Vec::<usize>::new());
}

#[test]
fn versioned_hashes_are_concatenated() {
    let hashes = vec![vec![[1u8; 32], [2u8; 32]], vec![], vec![[3u8; 32]]];
    assert_eq!(blob_versioned_hashes(&hashes), vec![[1u8; 32], [2u8; 32], [3u8; 32]]);
}
