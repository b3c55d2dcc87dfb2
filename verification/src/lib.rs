pub mod cache;
pub mod digest;
pub mod graph;
pub mod laws;
pub mod pipeline;
pub mod text;
pub mod worker;

pub use cache::AssetCache;
pub use cache::CacheEntry;
pub use graph::DependencyGraph;
pub use pipeline::PipelineStage;
pub use pipeline::resolver::Resolver;
pub use pipeline::transformer::Transformer;
pub use worker::NativeWorker;
