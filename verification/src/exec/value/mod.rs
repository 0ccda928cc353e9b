//! Values that AutoLISP prints, event by event.
pub mod event;
pub mod laws;
pub mod number;
pub mod port;
pub mod printer;
pub mod printer_layout;
