# cosmic-altswitcher

A thumbnail alt-tab switcher for the COSMIC desktop, whose decisions are proved
correct with Verus. Hold Alt, Tab through a strip of live window thumbnails,
release Alt to switch.

- `src/` is the verified library.
  - `app` is the switcher: the selection, the overlay and its fades, and the
    effects that each message asks for.
  - `backend` is the compositor's side: capture sessions and the requests made to
    the compositor.
  - `carousel` lays out the strip, `pixels` handles captured frames, `input` gives
    the keys their meaning, `window` keeps the list of windows.
  - `args` and `json` hold the command line and the text form of an action.
  - `laws` proves what holds of the switcher over many messages.
- `app/` is the program around it: the toolkit, the Wayland connection, and the
  objects that the numbers in the library stand for.
- `tests/` runs the library on concrete values.
