//! The logic of a small FTP server: command lines, answers, paths, directory
//! listings and the session of one client, each with its contract.

pub mod call_laws;
pub mod client;
pub mod cmd;
pub mod cmd_laws;
pub mod command_laws;
pub mod data;
pub mod error;
pub mod ftp;
pub mod line;
pub mod listing;
pub mod listing_laws;
pub mod message_laws;
pub mod path;
pub mod path_laws;
pub mod session;
pub mod session_laws;
pub mod text;
pub mod text_laws;
pub mod user;
pub mod user_laws;
