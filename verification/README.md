# pump_decode

Decoding of pump.fun bonding-curve and AMM activity from Solana block
notifications, verified with Verus.

- `decode` reads `Program data:` log lines: Base64, an eight-byte event
  discriminator, then a Borsh body, decoded field by field against a
  specification of the layout.
- `idl` finds a program among a transaction's accounts, collects its outer and
  inner instructions, and matches them against an Anchor IDL by discriminator,
  naming their accounts.
- `join` pairs each decoded event with the first matching instruction.
- `extract` runs the whole pipeline over a block.
- `time` renders Unix timestamps.

`app/` reads the JSON of IDL files and block notifications into the library's
types and holds the floating-point price helpers.
