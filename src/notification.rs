//! The notification model: what happened to the canonical chain.
use std::sync::Arc;
use vstd::prelude::*;

use crate::chain::{Block, Chain};

verus! {

/// Notifications sent to an execution extension.
#[derive(Clone, Debug, PartialEq, Eq)]
pub enum ExExNotification {
    /// Chain got committed without a reorg, and only the new chain is returned.
    ChainCommitted {
        /// The new chain after commit.
        new: Arc<Chain>,
    },
    /// Chain got reorged, and both the old and the new chains are returned.
    ChainReorged {
        /// The old chain before reorg.
        old: Arc<Chain>,
        /// The new chain after reorg.
        new: Arc<Chain>,
    },
    /// Chain got reverted, and only the old chain is returned.
    ChainReverted {
        /// The old chain before reversion.
        old: Arc<Chain>,
    },
}

/// Event emitted by the canonical-state engine when the tip moves.
#[derive(Clone, Debug, PartialEq, Eq)]
pub enum CanonStateNotification {
    /// The canonical chain was extended by `new`.
    Commit { new: Arc<Chain> },
    /// The canonical chain switched from `old` to `new`.
    Reorg { old: Arc<Chain>, new: Arc<Chain> },
}

/// The mathematical model of a notification: which shape it has and the blocks of its chains.
pub ghost enum NotificationView {
    Committed { new: Seq<Block> },
    Reorged { old: Seq<Block>, new: Seq<Block> },
    Reverted { old: Seq<Block> },
}

impl View for ExExNotification {
    type V = NotificationView;

    open spec fn view(&self) -> NotificationView {
        match self {
            ExExNotification::ChainCommitted { new } => NotificationView::Committed { new: new@ },
            ExExNotification::ChainReorged { old, new } => NotificationView::Reorged {
                old: old@,
                new: new@,
            },
            ExExNotification::ChainReverted { old } => NotificationView::Reverted { old: old@ },
        }
    }
}

/// The chain that is canonical after the notification, if any.
pub open spec fn spec_committed(n: ExExNotification) -> Option<Arc<Chain>> {
    match n {
        ExExNotification::ChainCommitted { new } => Some(new),
        ExExNotification::ChainReorged { old: _, new } => Some(new),
        ExExNotification::ChainReverted { .. } => None,
    }
}

/// The chain that stopped being canonical with the notification, if any.
pub open spec fn spec_reverted(n: ExExNotification) -> Option<Arc<Chain>> {
    match n {
        ExExNotification::ChainCommitted { .. } => None,
        ExExNotification::ChainReorged { old, new: _ } => Some(old),
        ExExNotification::ChainReverted { old } => Some(old),
    }
}

/// The notification that undoes `n`.
pub open spec fn spec_inverted(n: ExExNotification) -> ExExNotification {
    match n {
        ExExNotification::ChainCommitted { new } => ExExNotification::ChainReverted { old: new },
        ExExNotification::ChainReverted { old } => ExExNotification::ChainCommitted { new: old },
        ExExNotification::ChainReorged { old, new } => ExExNotification::ChainReorged {
            old: new,
            new: old,
        },
    }
}

/// The notification that an upstream engine event stands for.
pub open spec fn spec_adapted(n: CanonStateNotification) -> ExExNotification {
    match n {
        CanonStateNotification::Commit { new } => ExExNotification::ChainCommitted { new },
        CanonStateNotification::Reorg { old, new } => ExExNotification::ChainReorged { old, new },
    }
}

impl ExExNotification {
    /// Returns the committed chain of the `ChainCommitted` and `ChainReorged` variants, if any.
    pub fn committed_chain(&self) -> (r: Option<Arc<Chain>>)
        ensures
            r == spec_committed(*self),
    {
        match self {
            ExExNotification::ChainCommitted { new } => Some(Arc::clone(new)),
            ExExNotification::ChainReorged { old: _, new } => Some(Arc::clone(new)),
            ExExNotification::ChainReverted { .. } => None,
        }
    }

    /// Returns the reverted chain of the `ChainReorged` and `ChainReverted` variants, if any.
    pub fn reverted_chain(&self) -> (r: Option<Arc<Chain>>)
        ensures
            r == spec_reverted(*self),
    {
        match self {
            ExExNotification::ChainReorged { old, new: _ } => Some(Arc::clone(old)),
            ExExNotification::ChainReverted { old } => Some(Arc::clone(old)),
            ExExNotification::ChainCommitted { .. } => None,
        }
    }

    /// Converts the notification into the one that undoes it: a commit becomes a revert of the
    /// same chain, a revert a commit, and a reorg swaps its old and new chains.
    pub fn into_inverted(self) -> (r: ExExNotification)
        ensures
            r == spec_inverted(self),
    {
        match self {
            ExExNotification::ChainCommitted { new } => ExExNotification::ChainReverted { old: new },
            ExExNotification::ChainReverted { old } => ExExNotification::ChainCommitted { new: old },
            ExExNotification::ChainReorged { old, new } => ExExNotification::ChainReorged {
                old: new,
                new: old,
            },
        }
    }
}

impl From<CanonStateNotification> for ExExNotification {
    /// Lifts an engine event: a commit becomes `ChainCommitted`, a reorg `ChainReorged`.
    fn from(notification: CanonStateNotification) -> (r: ExExNotification)
        ensures
            r == spec_adapted(notification),
    {
        match notification {
            CanonStateNotification::Commit { new } => ExExNotification::ChainCommitted { new },
            CanonStateNotification::Reorg { old, new } => ExExNotification::ChainReorged { old, new },
        }
    }
}

impl vstd::std_specs::convert::FromSpecImpl<CanonStateNotification> for ExExNotification {
    open spec fn obeys_from_spec() -> bool {
        true
    }

    open spec fn from_spec(notification: CanonStateNotification) -> ExExNotification {
        spec_adapted(notification)
    }
}

/// Inverting a notification twice gives back the notification.
pub proof fn lemma_inverted_involution(n: ExExNotification)
    ensures
        spec_inverted(spec_inverted(n)) == n,
{
}

} // verus!
