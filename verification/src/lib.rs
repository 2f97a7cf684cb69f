//! StreamWeave's download logic: the task registry and its lifecycle, the settings, the
//! search of a web page for an HLS playlist, the playlist and key handling, the
//! decryption of segments, the checks before and after the merge, and the texts that
//! tasks log and fail with. Network, file system, processes and the desktop shell are
//! the caller's; the library says what to do with what they return.
pub mod text;
pub mod order;
pub mod status;
pub mod settings;
pub mod task;
pub mod registry;
pub mod urls;
pub mod json;
pub mod fetch;
pub mod hls;
pub mod keys;
pub mod paths;
pub mod manifest;
pub mod messages;
pub mod headers;
pub mod args;
pub mod names;
pub mod sizes;
pub mod candidates;
pub mod tools;
pub mod process;
pub mod probe;
pub mod segments;
pub mod start;
pub mod browser;
pub mod extract;
pub mod pipeline;
