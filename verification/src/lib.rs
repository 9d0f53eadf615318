pub mod api;
pub mod config;
pub mod db;
pub mod error;
pub mod model;
pub mod util;
