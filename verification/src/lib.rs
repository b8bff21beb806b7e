//! The rules behind a comic reader's file commands: which children of a
//! directory are listed and in which order, how entries get their
//! identifiers, which mounted volumes are shown, and how requests for local
//! images are answered. Reading directories, probing and re-encoding images
//! and talking to the window are left to the caller, who hands in what it
//! found as plain values.

pub mod entries;
pub mod errors;
pub mod identity;
pub mod natural;
pub mod protocol;
pub mod scan;
pub mod sorting;
pub mod text;
pub mod volumes;
pub mod window;

pub use entries::{DirItem, FileItem};
pub use errors::CommandError;
pub use identity::{derive_identity, md5_hash, uuid_from, Identity};
pub use natural::{compute_all_digits, natural_order, precedes};
pub use protocol::{asset_response, comic_protocol, Action, Response};
pub use scan::{
    scan_directory, scan_for_child_dirs, ChildEntry, EntryKind, Listed, Listing, ScanPolicy,
};
pub use sorting::sort_by_name;
pub use volumes::{show_drives, MountQuery, Platform};
pub use window::window_title;
