//! Queries on the transactions of a block body, given by their type bytes.
use vstd::prelude::*;

verus! {

/// The type byte of blob-carrying transactions.
pub open spec fn blob_tx_type() -> u8 {
    3
}

/// The type byte of set-code transactions.
pub open spec fn set_code_tx_type() -> u8 {
    4
}

/// Relies on `alloy_consensus::TxType::Eip4844` converted to `u8`: the envelope
/// tags blob-carrying transactions with type 3.
#[verifier::external_body]
fn eip4844_type_id() -> (r: u8)
    ensures
        r == blob_tx_type(),
{
    u8::from(alloy_consensus::TxType::Eip4844)
}

/// Relies on `alloy_consensus::TxType::Eip7702` converted to `u8`: the envelope
/// tags set-code transactions with type 4.
#[verifier::external_body]
fn eip7702_type_id() -> (r: u8)
    ensures
        r == set_code_tx_type(),
{
    u8::from(alloy_consensus::TxType::Eip7702)
}

/// The positions of the transactions of type `ty`, in block order.
pub open spec fn positions_of_type(tx_types: Seq<u8>, ty: u8) -> Seq<usize>
    decreases tx_types.len(),
{
    if tx_types.len() == 0 {
        Seq::empty()
    } else {
        let prev = positions_of_type(tx_types.drop_last(), ty);
        if tx_types.last() == ty {
            prev.push((tx_types.len() - 1) as usize)
        } else {
            prev
        }
    }
}

/// Whether some transaction has type `ty`.
fn has_type(tx_types: &[u8], ty: u8) -> (r: bool)
    ensures
        r == exists|i: int| 0 <= i < tx_types@.len() && tx_types@[i] == ty,
{
    let mut i: usize = 0;
    while i < tx_types.len()
        invariant
            i <= tx_types@.len(),
            forall|k: int| 0 <= k < i ==> tx_types@[k] != ty,
        decreases tx_types@.len() - i,
    {
        if tx_types[i] == ty {
            return true;
        }
        i += 1;
    }
    false
}

/// Whether the body holds a blob-carrying transaction, given the type byte of
/// each of its transactions.
pub fn has_blob_transactions(tx_types: &[u8]) -> (r: bool)
    ensures
        r == exists|i: int| 0 <= i < tx_types@.len() && tx_types@[i] == blob_tx_type(),
{
    has_type(tx_types, eip4844_type_id())
}

/// Whether the body holds a set-code transaction, given the type byte of each
/// of its transactions.
pub fn has_eip7702_transactions(tx_types: &[u8]) -> (r: bool)
    ensures
        r == exists|i: int| 0 <= i < tx_types@.len() && tx_types@[i] == set_code_tx_type(),
{
    has_type(tx_types, eip7702_type_id())
}

/// The positions of the blob-carrying transactions of the body, in block
/// order, given the type byte of each of its transactions.
pub fn blob_transactions(tx_types: &[u8]) -> (r: Vec<usize>)
    ensures
        r@ == positions_of_type(tx_types@, blob_tx_type()),
{
    let ty = eip4844_type_id();
    let mut found: Vec<usize> = Vec::new();
    let mut i: usize = 0;
    while i < tx_types.len()
        invariant
            i <= tx_types@.len(),
            ty == blob_tx_type(),
            found@ == positions_of_type(tx_types@.subrange(0, i as int), ty),
        decreases tx_types@.len() - i,
    {
        assert(tx_types@.subrange(0, i + 1).drop_last() =~= tx_types@.subrange(0, i as int));
        if tx_types[i] == ty {
            found.push(i);
        }
        i += 1;
    }
    assert(tx_types@.subrange(0, i as int) =~= tx_types@);
    found
}

/// All blob versioned hashes of the body, in block order, given the hashes
/// that each transaction commits to.
pub fn blob_versioned_hashes(per_tx: &Vec<Vec<[u8; 32]>>) -> (r: Vec<[u8; 32]>)
    ensures
        r@ == per_tx@.map_values(|h: Vec<[u8; 32]>| h@).flatten(),
{
    let mut all: Vec<[u8; 32]> = Vec::new();
    let mut i: usize = 0;
    while i < per_tx.len()
        invariant
            i <= per_tx@.len(),
            all@ == per_tx@.subrange(0, i as int).map_values(|h: Vec<[u8; 32]>| h@).flatten(),
        decreases per_tx@.len() - i,
    {
        let hashes = &per_tx[i];
        let mut j: usize = 0;
        let ghost start = all@;
        while j < hashes.len()
            invariant
                j <= hashes@.len(),
                hashes == per_tx@[i as int],
                all@ == start + hashes@.subrange(0, j as int),
            decreases hashes@.len() - j,
        {
            all.push(hashes[j]);
            j += 1;
            assert(all@ =~= start + hashes@.subrange(0, j as int));
        }
        proof {
            let s = per_tx@.subrange(0, i + 1).map_values(|h: Vec<[u8; 32]>| h@);
            assert(s.drop_last() =~= per_tx@.subrange(0, i as int).map_values(
                |h: Vec<[u8; 32]>| h@,
            ));
            s.drop_last().lemma_flatten_push(hashes@);
            assert(s =~= s.drop_last().push(hashes@));
            assert(hashes@.subrange(0, j as int) =~= hashes@);
        }
        i += 1;
    }
    assert(per_tx@.subrange(0, i as int) =~= per_tx@);
    all
}

} // verus!
