//! The operations of the library: for each, what it asks of the service, given its options, and
//! what it answers, given what the service says.
pub mod cloudwatch;
pub mod ddb;
pub mod lambda;
pub mod s3;
pub mod secrets;
pub mod ses;
pub mod sns;
pub mod sqs;
pub mod ssm;
pub mod sts;
