//! The verified core of PenCast, a viewer that shows the screen of a pen
//! tablet on a computer and sends pointer and key input back to it.
//!
//! The modules hold what the viewer decides and computes: the wire format and
//! the frame buffers, the decoding of a frame, the input commands, the
//! conversation with `adb`, with the USB interface and with the stream, the
//! reaction to window messages, and the plan for drawing a frame. Windows, USB
//! transfers, processes and the graphics device belong to the program around
//! this library, which carries out what the library asks for.
pub mod adb;
pub mod input;
pub mod jpeg;
pub mod protocol;
pub mod renderer;
pub mod session;
pub mod stream;
pub mod text;
pub mod usb;
pub mod window;
