# danger-write

A writing app that forces you to keep writing. If you stop typing for too long, the words
you've written fade out and are erased. Reach your goal (a time limit or a word count) to
survive and copy your text.

```bash
danger-write              # write for 5 minutes (default)
danger-write -w 250       # write until you reach 250 words
danger-write -i 5         # allow 5 seconds idle before erasure (default: 3)
```

## Layout

- `src/` is the library, verified with Verus: the rules of a session (`session`), word
  wrapping (`wrap`), the command line (`cli`), the clipboard protocol (`clipboard`), keys in
  the browser (`browser`), the palette and its fades (`theme`), the dissolve (`dissolve`) and
  every screen (`screen`), drawn on ratatui's buffer (`canvas`). What holds of all inputs is
  stated and proved as `law_...` beside the functions it is about, and for sessions and
  wrapping in `session_laws` and `wrap_laws`.
- `app/` is the program around it: the terminal and the browser, the clock, clipboard
  commands, and floating point.
- `tests/` runs the library.

The library reads no clock of its own. Every function that depends on the time takes a
reading as an argument, so a whole call sees one moment.
