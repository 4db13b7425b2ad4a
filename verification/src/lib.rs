//! Verified core of the `dfx` extensions: parsing of command line values and
//! of `dfx` command output, construction of the argument lists handed to the
//! bundled tools, and generation of extension manifests.
pub mod text;
pub mod dfx;
pub mod network;
pub mod manifest;
pub mod sns;
pub mod address;
pub mod nns;
pub mod download;
pub mod install;
pub mod sorted;
