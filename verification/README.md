# discord_fend

The core of a Discord bot for the [fend](https://github.com/printfn/fend)
calculator, verified with Verus.

- `src/` is the library: command recognition, help texts, ANSI colouring of
  fend's output, per-channel fend contexts and editable answers kept in ring
  buffers, interactive-session bookkeeping, and how answers are sent. Every
  function carries a contract, and the properties the bot relies on (context
  retention, one session per user and channel, edits finding their answer,
  bounded memory) are proved as lemmas.
- `app/` is the bot itself: it connects to Discord with serenity, runs fend
  evaluations on blocking threads, and applies the library's decisions.
- `tests/` runs the library on concrete inputs, including real fend
  evaluations.
