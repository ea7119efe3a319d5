//! Verified core of a QR code generator: the rules for the editor's state and
//! history, the conversion of a QR module matrix into pixels, and the choice
//! of what an export writes.

pub mod types;
pub mod qr;
pub mod history;
pub mod state;
pub mod theme;
