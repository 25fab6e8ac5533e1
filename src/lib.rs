pub mod bytes;
pub mod cache;
pub mod callstack;
pub mod checksum;
pub mod entry;
pub mod error;
pub mod gas;
pub mod handles;
pub mod host;
pub mod link;
pub mod permission;
pub mod region;

pub use cache::ModuleCache;
pub use callstack::CallStack;
pub use checksum::Checksum;
pub use entry::CallableRequest;
pub use error::ErrorKind;
pub use gas::GasInfo;
pub use handles::{api_t, cache_t, AnalysisReport};
pub use host::{HostError, HostStatus};
pub use link::{CallFailure, LinkAction, LinkCall, LinkEvent, LinkPhase};
pub use permission::CallablePoint;
pub use region::{LinearMemory, Region};
