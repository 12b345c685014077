# terrible_quote_bot

The logic of a Discord quote bot, verified with Verus.

- `src/` is the verified library:
  - `message`: whether a chat message is a command (it starts with `!` and its
    author is no bot), the split into command word and arguments, the command
    the word names, and who holds the `BotGod` role;
  - `dialog`: what each command does, as steps that either answer or ask for
    database work (`parseCommand` starts a command, `resume` continues it with
    the database's answer);
  - `replies`: the answer texts;
  - `numbers`, `text`: decimal text of `i32` both ways, and whitespace trimming;
  - `activity`, `random`: the statuses of the bot and the random choices;
  - `laws`: properties that span several functions.
- `app/` is the program: the Discord client (serenity), the PostgreSQL
  connection, and the half-hourly status change. It reads the bot token from
  `DISCORD_TOKEN` and the database connection string from
  `POSTGRES_CONNECTION`.

The quotes live in a table
`CREATE TABLE quotes ( id INT GENERATED ALWAYS AS IDENTITY, quote VARCHAR NOT NULL )`.
