pub mod token;
pub mod extractor;
