pub mod handle;
pub mod scriptret;
