//! The data that travels through the relay.

pub mod event;
pub mod history;
pub mod matrix_user_id;
pub mod principal;
pub mod proxy;
pub mod role;

pub use event::{
    EntryView, GroupMemberRoleChangedPayload, HistoryEvent, HistoryEventEntry, HistoryEventKind,
    UnknownKind,
};
pub use history::HistoryEventResult;
pub use matrix_user_id::MatrixUserID;
pub use principal::PrincipalId;
pub use proxy::{ApiError, HistoryPointResult};
pub use role::{InvalidRole, Role};
