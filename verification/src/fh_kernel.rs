//! Filehandles that wrap the kernel's own inode handles.
//!
//! The handle names an inode and its generation instead of a path, so it
//! survives a rename and goes stale with the inode. Every handle carries a tag
//! that only the server's key makes.
pub mod handle;
pub mod identity;
pub mod kernel;
pub mod tree;

pub use crate::fh_kernel::handle::{
    decode_v4, encode_v4, v4_ino, FhError, FH_V4_MIN, FH_V4_VERSION,
};
pub use crate::fh_kernel::identity::IdentityResolver;
pub use crate::fh_kernel::kernel::{KernelFh, MintError, ResolveError};
