//! An AWS client's logic: names and addresses, attribute values, and what is asked of the services
//! and shown of their answers.
pub mod arn;
pub mod attribute;
pub mod bytes;
pub mod common;
pub mod ddb;
pub mod decimal;
pub mod endpoint;
pub mod ffi;
pub mod glob;
pub mod json;
pub mod lambda;
pub mod laws;
pub mod ops;
pub mod options;
pub mod paging;
pub mod percent;
pub mod region;
pub mod s3;
pub mod s3url;
pub mod split;
pub mod sqs;
pub mod sts;
pub mod text;
pub mod uri;
pub mod validate;
pub mod wire;
