# payments_engine

A toy payments engine: it reads deposits, withdrawals, disputes, resolutions and
chargebacks for client accounts, and lists the resulting balances.

The library under `src/` is verified with Verus:

- `decimal.rs` — amounts (`mantissa / 10^scale`), with the arithmetic, comparison,
  rounding and formatting of `rust_decimal` behind small trusted wrappers;
- `transaction.rs`, `account.rs`, `error.rs`, `text.rs` — the data the engine works on;
- `processor.rs` — the rules of each transaction, stated as a step function on
  the processor's state and proved of the code;
- `laws.rs` — what holds over every transaction and every run. Wherever the
  additions and subtractions are exact (rust_decimal never has to round), balances
  never go negative, held funds equal the disputed deposits, funds move only by the
  transaction's amount, and a resolution undoes its dispute. Unconditionally,
  locked accounts never change, settled deposits are forgotten, and only deposits
  and withdrawals of a positive amount open accounts;
- `engine.rs` — the engine: one transaction at a time in, the account listing out.

`app/` is the command-line program around it: argument handling, CSV reading and
writing, logging.
