pub mod duration;
pub mod encode;
pub mod error;
pub mod link;
pub mod catalog;
pub mod storage;
pub mod youtube;
