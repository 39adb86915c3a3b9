pub mod decimal;
pub mod address;
pub mod clock;
pub mod monitor;
