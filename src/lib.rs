//! Decoding of authenticator export QR codes into standard `otpauth://` accounts.

pub mod account;
pub mod pipeline;
pub mod record;
pub mod report;
pub mod roundtrip;
pub mod state;
pub mod text;
pub mod wire;
