//! Release titles of fansub groups, read into structured records, and what
//! a watcher of their feed decides with them.

pub mod commands;
pub mod database;
pub mod dognzb;
pub mod examples;
pub mod groups;
pub mod models;
pub mod number;
pub mod options;
pub mod rss;
pub mod sabnzbd;
pub mod text;
pub mod theorems;
pub mod tosho;
pub mod utils;
