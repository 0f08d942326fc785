# didrit-watcher

Watches mathematics course pages, extracts what was done in class, the
homework, announced tests, chapters and attached documents, compares them with
the recorded state, asks a Gemini model to summarise the change, and sends an
ntfy notification.

- `src/` is the library, verified with Verus: text routines (`text`), page
  extraction (`parser`), the recorded state (`storage`), change detection
  (`diff`), the prompt and the Gemini request and response (`ai`), the ntfy
  payload (`notifier`), page decoding (`fetcher`), settings (`config`), the
  decisions of a check cycle (`service`) and the HTTP clients (`http`).
- `app/` is the daemon around it: environment, state file, HTTP requests, the
  serde forms of the JSON documents, and the check loop.
- `tests/` runs the library on concrete pages, states and settings.
