//! Numeric constants fixed by the host runtime's interface.
pub mod errno;
pub mod netdb;
pub mod af;
