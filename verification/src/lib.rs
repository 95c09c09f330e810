pub mod auth;
pub mod db;
pub mod ids;
pub mod models;
pub mod routes;
pub mod store;
pub mod text;
pub mod types;
