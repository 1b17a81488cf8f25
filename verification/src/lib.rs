//! The decision core of an NFSv4.1/4.2 server.
#![allow(unused_imports)]

pub mod authz;
pub mod back_channel;
pub mod cb_compound;
pub mod change_counter;
pub mod compound;
pub mod deleg_recall;
pub mod dispatcher;
pub mod fh_kernel;
pub mod octets;
pub mod protocol;
pub mod rpc;
pub mod sec_policy;
pub mod segment;
pub mod text;
pub mod xdr;
