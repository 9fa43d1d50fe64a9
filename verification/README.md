# zongce_web

A class's achievement-declaration service ("综测成果申报"): students enter with a class
code, declare achievements with evidence files (or declare that they have none), and
later look them up and edit them with a per-submission edit code; an administrator
reviews, manages academic years and rosters, and exports a two-sheet workbook.

## Layout

- `src/` — the library, verified with Verus. Every rule the service applies lives here
  with its contract: the form fields and their validation per category, the review
  decision, the dashboard filters and row order, the export rows and the per-student
  summary, roster reading (CSV and Excel, with the archive checks), configuration,
  edit codes and submission numbers, stored file names, recycle-bin selections, error
  statuses and pages' messages. Calls into outside crates (Argon2, chrono, csv,
  calamine, quick-xml, zip, urlencoding, mime, uuid, rand, the cookie private jar) sit
  behind small trusted wrappers whose contracts say what the crate documents.
- `app/` — the program around it: configuration from the environment, the SQLite
  tables, sessions, the HTTP routes and HTML pages, file storage, and writing the
  workbook (its numbers are floating-point values, which the library leaves to the
  caller).
- `tests/` — tests of the library on concrete values.

Run `zongce-web --hash-secret` to print the Argon2 hash of a secret read from standard
input, for `ADMIN_PASSWORD_HASH`.
