//! Wi-Fi credentials as a scannable `WIFI:` configuration string, and the QR
//! Code symbol of that string as an SVG document, a raster image or a block
//! of text for a terminal.

pub mod canvas;
pub mod code;
pub mod decimal;
pub mod escape;
pub mod exporters;
pub mod options;
pub mod qr;
pub mod text;
