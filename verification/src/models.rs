pub mod invite;
pub mod session;
pub mod tab;
pub mod tag;
pub mod user;

pub use invite::{
    CreatedInvite, Invite, InviteStatus, InviteUpdate, NewInvite, UserConfirmationPayload,
    UserInviteResponse,
};
pub use session::{NewSession, RenewSessionRequest, Session};
pub use tab::{NewTab, Tab, TabWithTags};
pub use tag::{NewTag, Tag};
pub use user::{CreatedUser, DeconfirmedUser, NewConfirmedUser, NewUser, User};
