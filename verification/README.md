# paqus_wallet

The wallet-side logic of the Paqus command line wallet, written in Verus and
proved against its contracts, with the program itself around it.

- `src/` is the verified library:
  - `amount`, `decimal`, `chars`: reading and writing XPQ amounts
    (1 XPQ = 1,000,000 paqus, six decimals) and decimal numbers;
  - `cli`, `commands`: what each command reads from its command line;
  - `menus`: command names, menu entries, node answer views, prompt answers;
  - `http`: when a node response is complete, and its body;
  - `json`, `keys`: single JSON fields and hex text, through `serde_json` and `hex`;
  - `names`, `qcash`: QCash file names, lifecycles and vault totals;
  - `nonce`: the wallet's next free nonce;
  - `pool`: which mining-pool payouts are due, and their receipt keys;
  - `payout`: the `pool-payout` preview, one step of paying, and the law that
    a paid run pays nothing again;
  - `stats`, `text`, `tally`: an address's activity and the texts shown for it;
  - `laws`: properties that span functions (payouts recorded once are not
    due again, a response verdict is final, shown amounts read back, ...).
- `tests/` runs the library on concrete values.
- `app/` is the `wallet-cli` program: arguments, prompts, files, the node,
  keys and transactions (through the `paqus` crate), and printing.
