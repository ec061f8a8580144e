# Tally

Personal transaction aggregator: it imports bank exports, categorises them by
hand, by saved filters and by suggestion, links transfers between accounts, and
shows it all in a terminal interface. The rules are a library verified with
Verus; the program around it keeps the rows in SQLite and runs the terminal.

## Layout

- `src/store/` — the ledger: rows in tables, and every operation on them with its
  contract. Each change is noted in a journal that a database can follow.
- `src/tui/` — the interface as a state machine: widgets (search bar, note and tag
  editors, lists, tables), the application's state, and what each key does.
  `src/tui/session.rs` puts the application and the store together.
- `src/model.rs`, `src/search.rs` — rows and parsed queries.
- `src/time.rs`, `src/json.rs`, `src/fuzzy.rs`, `src/tag.rs` — dates, metadata,
  fuzzy matching and tag names, on top of `chrono`, `serde_json` and
  `nucleo-matcher`.
- `src/text.rs`, `src/find.rs`, `src/sort.rs` — text, searching and sorting.
- `app/` — SQLite, the exports folder and its scripts, the terminal.
- `tests/` — tests of the library.

## Reading the contracts

The store's view is `Tables`: one map per table. Operations that change it state
the tables afterwards in full. The application's state is one struct; a method
`x` states the state it leads to as `x_leads_to`. The application never touches
the store: it puts tasks on its agenda, and `session::carry_out` does them.

## Exports

```
exports/
└── YourBank/
    └── Checking/
        ├── import          # turns a CSV file into JSON
        ├── pull            # or fetches transactions itself
        └── transactions.csv
```

A script prints a JSON array of transactions with `date`, `description`,
`amount_cents` and `balance_cents`, and optionally `hash` and `metadata`.
