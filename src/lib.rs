//! Reading NTFS on-disk structures from raw volume bytes: the boot sector,
//! MFT file records and their attributes, runlists, update sequence fixups,
//! directory indexes and the decisions that turn a path into an inode.

pub mod error;
pub mod bytes;
pub mod boot;
pub mod fixup;
pub mod runlist;
pub mod runlist_codec;
pub mod record;
pub mod names;
pub mod index;
pub mod attributes;
pub mod mft;
pub mod directory;
pub mod artifacts;
pub mod session;
