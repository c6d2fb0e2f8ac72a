pub mod hash;
pub mod keys;
pub mod string;
pub mod timestamp;
pub mod topic;
pub use keys::{PrivateKey, PublicKey, Signable, Signature};
pub use string::{String16, String32, String8};
pub use timestamp::Timestamp;
pub use topic::Topic;
