//! Geração de QR Codes e de payloads PIX (BRCode) com contratos verificados.

pub mod texto;
pub mod pix;
pub mod argumentos;
pub mod qr;
pub mod svg;
pub mod png;
