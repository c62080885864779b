//! The context handed to an extension at launch, and its type-erased mirror.
use vstd::prelude::*;

verus! {

/// The channel endpoint through which an extension reports to the host.
#[verifier::external_type_specification]
#[verifier::external_body]
#[verifier::reject_recursive_types(T)]
pub struct ExUnboundedSender<T>(tokio::sync::mpsc::UnboundedSender<T>);

/// The head of the chain when the extension is launched.
#[derive(Debug, Clone, Copy, PartialEq, Eq)]
pub struct Head {
    /// The block number.
    pub number: u64,
    /// The block hash.
    pub hash: [u8; 32],
    /// The block's difficulty, as a big-endian 256-bit integer.
    pub difficulty: [u8; 32],
    /// The total difficulty up to this block, as a big-endian 256-bit integer.
    pub total_difficulty: [u8; 32],
    /// The block's timestamp.
    pub timestamp: u64,
}

/// A notification that an extension sends to the host.
#[derive(Debug, Clone, Copy, PartialEq, Eq)]
pub enum ExExEvent {
    /// The extension has processed every block up to this one, and blocks
    /// before it may be pruned.
    FinishedHeight { number: u64, hash: [u8; 32] },
}

/// What an extension receives at launch, with the node's configuration in
/// its concrete type `C` and the loaded configuration file in `R`.
pub struct ExExContext<C, R> {
    /// The current head of the chain at launch.
    pub head: Head,
    /// The node's configuration.
    pub config: C,
    /// The loaded configuration file.
    pub reth_config: R,
    /// Where the extension sends its events.
    pub events: tokio::sync::mpsc::UnboundedSender<ExExEvent>,
}

/// The context of an extension with the node's configuration erased to `D`,
/// for passing across a library boundary.
pub struct ExExContextDyn<D, R> {
    /// The current head of the chain at launch.
    pub head: Head,
    /// The node's configuration, with its chain specification erased.
    pub config: D,
    /// The loaded configuration file.
    pub reth_config: R,
    /// Where the extension sends its events.
    pub events: tokio::sync::mpsc::UnboundedSender<ExExEvent>,
}

impl<D, R> ExExContextDyn<D, R> {
    /// The mirror of `ctx`: the head, the loaded configuration and the event
    /// endpoint move over as they are; the node's configuration is what
    /// `erase_config` makes of it.
    pub fn from_context<C, F: FnOnce(C) -> D>(ctx: ExExContext<C, R>, erase_config: F) -> (r: Self)
        requires
            erase_config.requires((ctx.config,)),
        ensures
            r.head == ctx.head,
            r.reth_config == ctx.reth_config,
            r.events == ctx.events,
            erase_config.ensures((ctx.config,), r.config),
    {
        let ExExContext { head, config, reth_config, events } = ctx;
        ExExContextDyn { head, config: erase_config(config), reth_config, events }
    }
}

} // verus!
