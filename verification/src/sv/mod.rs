//! Supervision of cloud resources.
pub mod aliyun;
