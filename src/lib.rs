//! Chain-state change notifications for execution extensions.

pub mod chain;
pub mod notification;
pub mod receipt;
pub mod serde_bincode_compat;

pub use chain::{Block, Chain};
pub use receipt::{gas_spent_by_transactions, BasicReceipt, FullReceipt, Receipt};
pub use notification::{CanonStateNotification, ExExNotification, NotificationView};
