# Album Cover Check

Checks a local music library for audio files without an embedded front cover
(`mp3`, `flac`, `m4a`, `mp4`), and lists the albums concerned. Image files such
as `cover.jpg` beside the songs are reported as a hint but never count as a
cover.

Layout:

* `src/` — the verified library (Verus). Every decision of the program lives
  here, with its contract:
  * `text`, `order`, `paths` — string helpers, string and path orders, and the
    path operations asked of `std::path`;
  * `audio` — junk files, extension classes, records from tags;
  * `counts`, `scanner`, `model` — the totals of a scan and what each entry does
    to them;
  * `grouping`, `report` — one row per folder and album, in path order, and the
    text and CSV reports;
  * `config`, `console`, `ui` — settings, console text and the terminal view's
    state;
  * `laws` — properties that span functions.
* `app/` — the program: command line and config file, the directory walk and
  tag reading, writing the reports, JSON, and the terminal.
* `tests/` — tests of the library.
