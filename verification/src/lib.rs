pub mod filter;
pub mod model;
pub mod pipeline;
pub mod report;
pub mod text;
pub mod walker;
