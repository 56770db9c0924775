//! The rules of the Ghost FTP desktop client: profiles and their secrets, host keys,
//! PATH, remote files, startup and the Agent Bridge.

pub mod agents;
pub mod archive;
pub mod archive_run;
pub mod bridge;
pub mod checksums;
pub mod cli;
pub mod cloud;
pub mod connections;
pub mod digest;
pub mod duplicates;
pub mod error;
pub mod external_url;
pub mod file_ops;
pub mod ids;
pub mod importers;
pub mod json;
pub mod known_hosts;
pub mod local_paths;
pub mod marker;
pub mod numerals;
pub mod path_integration;
pub mod path_list;
pub mod permissions;
pub mod pieces;
pub mod profile_copies;
pub mod profile_store;
pub mod profiles;
pub mod recovery;
pub mod remote_commands;
pub mod remote_paths;
pub mod rollback;
pub mod search;
pub mod sessions;
pub mod settings;
pub mod shell;
pub mod step_run;
pub mod sync;
pub mod text;
pub mod transfers;
pub mod tree_walk;
pub mod uninstall;
