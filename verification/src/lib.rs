//! CloudGameSaver: two-way sync of game save folders with Dropbox.
//!
//! The library holds the logic of the sync, verified with Verus: the Dropbox content hash,
//! the requests and replies of the Dropbox and OAuth APIs, the path handling, the paged
//! file listing, the folder listing with token renewal, and the planning of a two-way sync.
pub mod text;
pub mod hash;
pub mod api;
pub mod paths;
pub mod folders;
pub mod files;
pub mod sync;
pub mod state;
