use ledger::batch::Batcher;
use ledger::tx::{Tx, TxType};

fn tx(tx_id: u32) -> Tx {
    Tx { client_id: 1, tx_id, tx_type: TxType::Deposit(1_000), disputed: false }
}

#[test]
fn batches_fill_and_flush_in_order() {
    let mut batcher = Batcher::new(2);
    assert!(batcher.push(tx(1)).is_none());
    let first = batcher.push(tx(2)).unwrap();
    assert_eq!(first.iter().map(|t| t.tx_id).collect::<Vec<_>>(), vec![1, 2]);
    assert!(batcher.push(tx(3)).is_none());
    let second = batcher.push(tx(4)).unwrap();
    assert_eq!(second.iter().map(|t| t.tx_id).collect::<Vec<_>>(), vec![3, 4]);
    assert!(batcher.push(tx(5)).is_none());
    let tail = batcher.finish();
    assert_eq!(tail.iter().map(|t| t.tx_id).collect::<Vec<_>>(), vec![5]);
}

#[test]
fn empty_stream_flushes_empty_batch() {
    let batcher = Batcher::new(4);
    assert!(batcher.finish().is_empty());
}
