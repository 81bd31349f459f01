//! The decision core of a music manager that keeps every acquired audio file
//! once in a flat cache and organises it onto attached devices by playlist.
//!
//! The library reads no file and runs no program; of its surroundings it
//! asks only which directories the platform gives the user. It is handed
//! what a directory holds and how a run of the downloader ended, and it
//! says what is in the index, which file is to be copied where, and which
//! command is to be run next.

pub mod audio;
pub mod cache;
pub mod command;
pub mod device;
pub mod folder;
pub mod index;
pub mod layout;
pub mod path;
pub mod rename;
pub mod source;
pub mod stability;
pub mod target;
pub mod text;
pub mod transfer;
pub mod views;
