# landingbench

Measures how fast endpoints land Solana transactions. In each round one signed transaction goes out
through every configured endpoint; all of them spend the same durable nonce, so that at most one can
land. A Yellowstone gRPC stream shows which one did, and the memo in the transaction names the
endpoint it was sent through.

- `src/` is a library, verified with Verus. It holds the rules of the benchmark: the configuration
  and its checks (`config`), the command line (`cli`), keys and signing (`keys`), the instructions
  of a transaction (`chain`, `payload`), the durable nonce (`nonce`), sending through one endpoint
  (`send`, `soyas`), reading the stream (`listener`), the record of sends and landings (`book`,
  `table`), the course of a run (`run`), the figures and the report (`stats`, `report`).
- `app/` is the program around it: files, connections, timers and printing.
- `tests/` runs the library on concrete values.

The functions marked `external_body` call `bs58`, `blake3`, `url` and the Solana crates. What is
claimed of those calls stands in their contracts; everything else is proved.

    landingbench [--config <PATH>]

Where the configuration file is missing, one with defaults is written.
