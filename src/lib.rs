pub mod cursor;
pub mod names;
pub mod order;
pub mod pipeline;
pub mod progress;
pub mod similarity;
pub mod store;
pub mod substring;
pub mod text;
pub mod views;
