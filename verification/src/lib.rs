//! Verified logic for downloading the attachments of a Gmail message.
//!
//! A download is a [`session::DownloadSession`]: it is started with what [`cli`] reads
//! from the command line, asks for one action after the other, and is told how each
//! went. It chooses [`parts`] of the message, gives each a [`filename`] and a place in
//! the output directory ([`plan`]), and reports what was written. [`promises`] states
//! what the single operations are for, [`course`] what a download does from its start to
//! its end, and [`laws`], [`run`] and [`files`] what follows.

pub mod clap_items;
pub mod cli;
pub mod course;
pub mod error;
pub mod filename;
pub mod files;
pub mod laws;
pub mod parts;
pub mod paths;
pub mod plan;
pub mod promises;
pub mod run;
pub mod session;
pub mod text;
pub mod validate;
pub mod write;
