# Svoyak

A service for running games of "Свояк": sixteen players answer questions in
foursomes over three tours of four rounds, and the four best go to a final.
Players register and send questions through a Telegram bot; organisers
prepare question packs, announce games and run them on a web site.

## Layout

- `src/` — the library, verified with Verus. Each module states its
  behaviour in `requires`/`ensures` and proves it; the public `lemma_*`
  proof functions state properties that hold across calls.
  - `schedule` — the seating of the sixteen players, round by round.
  - `scoring` — what an answer writes to a game's score log, and undoing it.
  - `standings` — scores per tour, finalists, winner, statistics, tables.
  - `registration` — seats for players, reserve players and spectators.
  - `questions` — question packs: admission, stages, topics, layouts.
  - `navigation` — which page or question follows during a game.
  - `dialogue`, `conversation`, `invites` — the bot's states, replies and
    buttons.
  - `auth`, `web`, `announce` — sign-in, sign-up, sessions, announcements.
  - `text` — decimal text, parsing and splitting used by the others.
- `tests/` — tests of the library on concrete values.
- `app/` — the program around the library: the Telegram bot, the web
  routes and the SQLite database. It reads and writes the database and the
  network, checks the library's preconditions before each call, and leaves
  the game's rules to the library: who is seated and registered, what an
  answer scores, what a finished game adds to the players' statistics,
  which page or reply follows.

`Cargo.toml` also lists `takecell`: no source names it; the line holds that
dependency of `teloxide` at 0.1.1.
