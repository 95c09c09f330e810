pub mod auth;
pub mod tabs;
pub mod tags;
pub mod users;
