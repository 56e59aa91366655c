pub mod auth;
pub mod billing;
pub mod ocr;
pub mod segment;
pub mod task;
pub mod text;
