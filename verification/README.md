# vim-telegam

A Vim-style terminal client for Telegram. Its logic is written in Verus and
proved against its contracts; the terminal, the network and the file system are
left to a thin program around it.

- `src/model.rs` says what every key and every event does to the state, and
  `src/laws.rs` what holds of that as a whole: modes and panes agree, drafts come
  back, the selection survives a reload, and the like.
- `src/app.rs`, `src/keymap.rs` and `src/event.rs` are the state and its
  transitions as code.
- `src/fuzzy.rs` ranks the rows of a picker, with `nucleo` for the scores, and
  `src/score.rs` tells which long queries it can score.
- `src/input.rs` holds the composer, a text area of `tui-textarea`.
- `src/wrap.rs`, `src/clock.rs` and `src/ui.rs` turn the state into styled lines.
- `src/backend.rs` decides what to ask Telegram and what the answers mean;
  `src/mock.rs` is an actor that needs no network.
- `src/config.rs`, `src/telegram.rs`, `src/text.rs` and `src/textmap.rs` are
  settings, shared types and helpers.
- `app/` draws, connects, downloads and starts the video player.
