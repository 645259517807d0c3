pub mod date;
pub mod error;
pub mod record;
pub mod storage;
pub mod task;
pub mod text;
