//! pNFS layouts: who gets one, what it says, and what becomes of it.
//!
//! The server around the library resolves filehandles, looks up volumes and talks
//! to the allocator. Each operation is decided here in steps: a first function
//! says what to refuse and what to ask for, and a second turns the answer into a
//! result.
pub mod codec;
pub mod commit;
pub mod device;
pub mod get;
pub mod give_back;
pub mod laws;
pub mod scsi;
