# r_uwp

The logic of a helper for UWP Roblox, as a verified library, and the program
around it.

- `src/` (verified with Verus)
  - `commands/`: the command protocol. `Command::from_str` reads `ID|arg|...`,
    the `parse` function of each command reads its arguments, `CommandError`
    has its one-digit codes, `CommandResponse` its `id|item|...` text.
  - `ws.rs`: what a websocket text message asks for (`MyWs::parse_text`) and
    the frame sent back (`MyWs::reply`).
  - `uwp.rs`: whether Roblox is active, whether the mouse is clipped to its
    window, the Roblox processes of a `tasklist /apps` output, and the
    duplicate instances to close.
  - `args.rs`: the settings, their defaults, and the fixes they switch on.
  - `text.rs`, `number.rs`: splitting text and reading decimal integers.
  - `wire.rs`: the `bytestring::ByteString` frames.
- `app/`: the program: command line, logging, the websocket server, the
  Windows input hooks, cursor clipping, clipboard and process handling.
- `tests/`: tests of the library.
