# memshark

A mempool transaction filter for EVM nodes: it subscribes to pending
transactions over a websocket, keeps those that pass every filter given on the
command line, and prints them (RLP, hash or JSON).

- `src/` is the verified library (Verus):
  - `uint` — 256-bit numbers as four 64-bit limbs, compared by value;
  - `bytes` — byte comparison and the hex text model, with the hex
    encoder/decoder of `ethers` behind trusted wrappers;
  - `tx` — the transaction fields that filters read;
  - `filters` — equality, range (exclusive bounds), calldata (selector,
    exact data, regex over lowercase hex) and cache filters, their
    conjunction `Filters`, and laws about them;
  - `abi` — function selectors of human-readable signatures (`ethers`);
  - `cmd::watch` — the command-line options as plain data, number parsing,
    `0x` stripping;
  - `process` — building the filters from the options, the per-transaction
    step, and the `--n` output counter;
  - `trace` — flattening call traces and picking calls for `--touches`.
- `app/` is the program: argument parsing with clap, the websocket
  subscription, tracing calls on the node, and printing.
- `tests/` exercise the library against the real outside crates.
