# funkfabrik

The verified core of the FUNKFABRIK*B teletext-style radio website.

- `src/` — the library, verified with Verus:
  - `calendar` — day counts to proleptic Gregorian dates (400-year era
    decomposition) and `DD.MM.YYYY HH:MM` timestamps;
  - `weather` — weekday arithmetic, the decorative generator and forecast,
    the weather-string check and the current-conditions cache;
  - `pages` — the page table, titles and template selection;
  - `guestbook` — entries, submission checks and the entry list;
  - `text` — decimal formatting, trimming and substring search.
- `app/` — the Axum server around it: routing, Tera rendering, the
  guestbook JSON file and the outbound HTTP requests.
- `tests/` — tests of the library.
