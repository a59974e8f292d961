# PenCast

PenCast shows the screen of a pen tablet in a window on a computer and sends
pointer and key input back to the tablet over USB.

- `src/` is the library: the wire format and the frame buffers (`protocol`), the
  decoding of frames (`jpeg`), touches and the on-screen keyboard (`input`), the
  answers to window messages (`window`), the plan for drawing (`renderer`), text
  (`text`), the use of `adb` (`adb`, `session`), the USB interface (`usb`) and
  the conversation with the tablet (`stream`). Every function has a contract
  that Verus proves.
- `app/` is the program for Windows around the library: the window, processes,
  files, USB transfers and the graphics device.
- `tests/` runs the library on concrete values.

What is believed without proof: what `jpeg_decoder::Decoder` makes of data whose
rows and columns it can count (others are refused before they are decoded), what
`String::from_utf8_lossy` makes of bytes, and which codes `char::from_u32`
accepts. Each is declared where it is used.

The program needs `adb` and the worker `pencast-work` beside it.
