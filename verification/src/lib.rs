pub mod args;
pub mod counter;
pub mod pacer;
pub mod query;
pub mod store;
pub mod transport;
pub mod worker;

pub use args::Family;
pub use args::GenType;
pub use args::LogStructure;
pub use args::ParseError;
pub use args::Protocol;
pub use counter::CounterOp;
pub use counter::Counters;
pub use pacer::Pacer;
pub use query::EncodeError;
pub use query::simple;
pub use store::QueryInfo;
pub use store::Store;
pub use transport::RecordingLink;
pub use transport::TransportError;
pub use transport::frame_message;
pub use worker::DispatchError;
pub use worker::dispatch_batch;
