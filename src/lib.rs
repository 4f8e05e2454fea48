//! On-disk layout and population protocol of an npm package cache.
//!
//! The library decides; the caller performs the file-system and network
//! operations that the decisions name and reports their outcomes back.

pub mod cache;
pub mod codec;
pub mod compile;
pub mod error;
pub mod readonly;
pub mod sync_lock;
pub mod text;

use vstd::prelude::*;

verus! {

/// Whether packages are downloaded one after another, so that output is
/// deterministic: the case where the `DENO_UNSTABLE_NPM_SYNC_DOWNLOAD`
/// environment variable is set. The caller reads the variable once per
/// process and passes its value.
pub fn should_sync_download(sync_download_var: &Option<String>) -> (r: bool)
    ensures
        r == sync_download_var.is_some(),
{
    sync_download_var.is_some()
}

} // verus!
