# tn — Timmy's News

A terminal reader for RSS and Atom feeds. It fetches the configured feeds,
keeps their articles in a local database, and shows them in a keyboard and
mouse driven terminal interface; a line protocol (`--cli`) answers JSON
commands on standard input.

The library under `src/` is written in Verus and verified:

- `feed`, `xml`, `datetime`: the feed parser over quick-xml's events, article
  hashes, and date handling over chrono;
- `cache`: the model of the article, feed and index tables, with the refresh
  batch that stores fetched feeds;
- `cli`: the command protocol;
- `backend`: the refresh schedule and the decisions of the background worker;
- `input`: the decoder of terminal input bytes;
- `tui`, `views`: the interface as a state machine, and the lines it draws;
- `config`, `log`, `text`: configuration checks, log records, text helpers;
- `laws`: properties that span several operations.

`app/` is the program around it: arguments, files, the redb database, the
network, the terminal and the threads.
