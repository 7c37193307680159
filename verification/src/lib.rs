pub mod laws;
pub mod vga;
