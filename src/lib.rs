//! Update-and-launch logic for the moonlight loader: locating the host
//! application, keeping the cached mod assets in step with the release feed,
//! and deciding what is handed to the injection facility.

pub mod branch;
pub mod json;
pub mod launch;
pub mod locate;
pub mod record;
pub mod release;
pub mod sync;
pub mod version;
pub mod text;
