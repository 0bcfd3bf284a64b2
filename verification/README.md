# pathscan

A web path scanner. It requests the words of a wordlist under a target URL,
compares the answers with what the target says for paths that cannot exist,
and reports what it finds.

- `src/` is the library, verified with Verus: wordlists (`wordlist`), the
  calibration baseline (`baseline`), requests and answers (`engine`,
  `client`, `headers`), the result filter (`filter`, `pattern`), plugins
  (`plugin`, `plugins`), command-line configuration (`cli`), report
  formatting (`output`), the interactive view's state (`tui`), and the text
  and digest helpers they share (`text`, `digest`).
- `app/` is the program around it: argument parsing, the HTTP client, file
  reading, the asynchronous scan loop, JSON output and terminal drawing. The
  loop asks the library what to send (headers and cookie), whether to send
  now (pause), how long to wait between requests (rate limit), when to stop
  calibrating, and where to recurse.
- `tests/` runs the library on concrete inputs.
