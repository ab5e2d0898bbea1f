//! dano: checksums of the media streams inside files, recorded so that they
//! can be verified later.  This crate holds the decisions dano makes about
//! recorded and freshly computed file information: which paths to hash and
//! how, how ffmpeg's and metaflac's output is read, how fresh checksums are
//! checked against the record, and what is written and printed.

pub mod config;
pub mod dedup;
pub mod flac;
pub mod ingest;
pub mod lookup;
pub mod modes;
pub mod order;
pub mod output;
pub mod paths;
pub mod process;
pub mod requests;
pub mod sorting;
pub mod split;
pub mod text;
pub mod utility;
pub mod versions;
