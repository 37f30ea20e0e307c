pub mod types;
pub mod check;
pub mod engine;

pub use types::FlacJob;
pub use types::FlacStatus;
pub use types::JobFile;
pub use types::Statistics;
