# AuditLens

Rule-based auditing of accounting journals, verified with Verus.

A journal (CSV, Excel or a database table) is read into transactions with
exact decimal amounts; a configurable set of rules (debit/credit balance per
voucher, amount thresholds, duplicates, date gaps, round amounts, related-party
patterns) reports findings; the findings become a report in the terminal, as
CSV, JSON, a printable HTML page or a PDF, together with a written analysis.
A small web service offers the same over HTTP, with accounts and
password-based encryption of exported data.

## Layout

- `src/` — the verified library. Every function carries a `requires`/`ensures`
  contract over spec models (`Seq`, `Map`, decimal parts, calendar day
  numbers) and is proved by Verus.
  - `money`, `date`, `text` — exact decimals, calendar dates and the texts that
    `Display` writes for them.
  - `models` — transactions, findings, reports and the rule configuration.
  - `rule_engine` — the rules and their executor.
  - `data_parser`, `database` — rows of files and queries into transactions.
  - `report`, `ai`, `ai_analysis` — the texts of the reports and analyses.
  - `auth`, `encryption` — accounts with bcrypt hashes; AES-256-GCM packages.
  - `web`, `cli` — the decisions of the web service and the program's commands.
- `app/` — the program around the library: argument parsing, files, the
  database and HTTP, the checks that measure in floating point (Benford's law,
  Z-scores, the month-end share), and the PDF drawing.
- `tests/` — tests of the library.

Calls into `rust_decimal`, `chrono`, `bcrypt`, `aes-gcm`, `base64`, `rand` and
std's hasher go through small trusted wrappers, each documenting what its
contract claims of the outside function.
