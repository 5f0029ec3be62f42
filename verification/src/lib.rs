//! A logging sink that forwards structured records to a Kafka topic.

pub mod broker;
pub mod json;
pub mod level;
pub mod logger;
pub mod record;
pub mod registry;
pub mod text;

pub use broker::ProducerHandle;
pub use level::{Level, LevelFilter};
pub use logger::{Delivery, FlushError, InitError, Logger, Publication};
pub use record::Record;
pub use registry::{init, shutdown, Registry};
