# MeowOS

A small UEFI kernel: colored rectangles and widgets drawn straight on the
frame buffer, a window manager, a text shell and BMP screenshots.

`src/` is the kernel's logic, verified with Verus:

- `framebuffer` — the frame buffer as bytes laid out like GOP video memory
  (`stride` pixels per scan line, four bytes per pixel, RGB or BGR), with
  pixel, rectangle and clear operations stated over a mathematical picture.
- `gui` — buttons, checkboxes and progress bars.
- `window_manager` — eight window slots: adding, focusing, closing, clicking
  and dragging, with the invariant that identifiers are fresh and at most one
  window has the focus.
- `text_shell` — the text console on the frame buffer: cursor, wrapping,
  scrolling, line editing and commands.
- `shell` — the line-reading shell for the firmware's text console.
- `screenshot` — the 24-bit BMP encoding of the frame buffer.
- `text`, `mouse` — trimming and command words; the mouse stub.

`app/` is the UEFI application: it finds the graphics, keyboard, console and
file system protocols, copies the frame buffer to video memory, and feeds
keys to the shells.

Text is not rendered. There is no font here: writing a character moves the
cursor and records the character in its cell of the shell's text (a value
the contracts speak of), but sets no pixel. Widget labels and window titles
are not drawn either; everything else about widgets and windows is.
