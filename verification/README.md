# Toy payments engine

A payments engine that reads a series of transactions (deposits, withdrawals,
disputes, resolves and chargebacks) from a CSV file, updates client accounts,
and writes the state of the accounts as CSV.

- `src/` is the library, verified with Verus: amounts (`amount.rs`, decimal
  parts handed to `rust_decimal`), accounts, transactions, the engine, and
  the laws the engine keeps (`laws.rs`).
- `app/` is the command line program: it reads the CSV file, feeds each
  transaction to the engine and prints the accounts.
- `tests/` runs the library on concrete transactions.

```bash
tpe-cli transactions.csv > accounts.csv
```
