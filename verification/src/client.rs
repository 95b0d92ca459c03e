pub mod input;
pub mod network;
pub mod prediction;
pub mod protocol;
