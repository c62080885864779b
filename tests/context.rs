use exex_loader::context::{ExExContext, ExExContextDyn, ExExEvent, Head};

#[test]
fn mirror_keeps_every_field() {
    let (tx, mut rx) = tokio::sync::mpsc::unbounded_channel::<ExExEvent>();
    let head = Head {
        number: 42,
        hash: [7u8; 32],
        difficulty: [0u8; 32],
        total_difficulty: [1u8; 32],
        timestamp: 1_700_000_000,
    };
    let ctx = ExExContext { head, config: 5u64, reth_config: "loaded".to_string(), events: tx.clone() };
    let mirror: ExExContextDyn<String, String> =
        ExExContextDyn::from_context(ctx, |chain: u64| format!("chain {chain}"));
    assert_eq!(mirror.head, head);
    assert_eq!(mirror.config, "chain 5");
    assert_eq!(mirror.reth_config, "loaded");
    assert!(mirror.events.same_channel(&tx));
    let event = ExExEvent::FinishedHeight { number: 41, hash: [2u8; 32] };
    mirror.events.send(event).unwrap();
    assert_eq!(rx.try_recv().unwrap(), event);
}
