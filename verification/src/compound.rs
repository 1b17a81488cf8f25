//! COMPOUND: the one procedure that NFSv4 has. A request is a tag, a minor
//! version and a list of operations; a reply is a status, the tag and the
//! results up to the first that failed.
pub mod argument_laws;
pub mod context;
pub mod decode;
pub mod encode;
pub mod grammar;
pub mod laws;
pub mod ops;
pub mod reply_laws;
pub mod request;
pub mod request_laws;
pub mod response;
pub mod result_laws;
pub mod results;
pub mod types;
pub mod wire;

pub use crate::compound::context::CompoundContext;
pub use crate::compound::decode::decode_callback_sec_parms;
pub use crate::compound::encode::{encode_secinfo_flavors, encode_secinfo_flavors_with};
pub use crate::compound::ops::Operation;
pub use crate::compound::request::CompoundRequest;
pub use crate::compound::response::CompoundResponse;
pub use crate::compound::results::{
    ChangeInfo, CopyResult, CreateSessionResult, Delegation, DirEntry, ExchangeIdResult,
    LockDenied, LockType, OpenResult, OperationResult, ReadDirResult, ReadPlusResult,
    ReadPlusSegment, ReadResult, SeekResult, SequenceResult, WhyNoDelegation, WriteResult,
};
pub use crate::compound::types::{
    pick_cb_cred, CallbackSecParms, ChannelAttrs, LayoutReturn4Body, OpenClaim, OpenHow,
};
pub use crate::text::utf8str_cs_ok;
