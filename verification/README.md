# neobot

The decision logic of a Minecraft chat bot, verified with Verus.

Players talk to the bot in chat with `n:` commands (`help`, `info`, `exe`,
`tellraw`, `tellraw+`, `login`, `loops`, `loop start|stop`, `core`, `kick`,
`light`, `list`, `disable`). The bot runs game commands through a small
"core" of command blocks that it places beside itself, relays chat lines to
a webhook, and only lets players who logged in with a TOTP code use `core`
and `loop`.

Layout:

- `src/bot.rs` — the bot's state and `State::handle`, which maps an event
  (chat line, spawn, player leaving, block update, entity event) to the next
  state and the list of actions to perform; `State::accepts` tells which
  events are handled without a panic.
- `src/command.rs` — `n:` messages and `BotCommand::parse`.
- `src/cmdcore.rs` — block positions, the command-block core and the plan for
  running a command through it.
- `src/chat.rs`, `src/markup.rs` — the texts the bot sends; markup messages
  are split with the `regex` crate.
- `src/auth.rs` — login codes (HOTP codes of the `otp` crate around the
  current 30-second step).
- `src/names.rs` — random user names (`fastrand`).
- `src/text.rs`, `src/number.rs` — text utilities and decimal numbers.
- `src/laws.rs` — properties that hold across operations.
- `app/` — the client around the library: connection, world reads, timers,
  command loops and the webhook.
