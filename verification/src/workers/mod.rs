//! The stages of the pipeline.

pub mod circular_buffer;
pub mod eth;
pub mod eth_laws;
pub mod order_laws;
pub mod order_messages;
pub mod parse;
pub mod pipeline;
pub mod pipeline_laws;
