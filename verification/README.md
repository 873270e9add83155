# subblock_host

The host side of executing an Ethereum block as subblocks plus an aggregation
program in a zkVM, with its logic verified in Verus.

- `src/` is the verified library: decimal text (`decimal`), the bincode
  encoding of program inputs (`encoding`), program input streams (`stdin`),
  the subblock and aggregation inputs (`aggregation`), file locations
  (`paths`), the execution-result cache (`cache`) and the order of the host's
  work (`schedule`).
- `app/` is the program around it: argument parsing, RPC, file I/O, the zkVM
  prover clients, and timing.
- `tests/` runs the library on concrete values.

The aggregation program itself (the zkVM guest that reads the aggregation
input and executes the aggregation) is not part of this crate: every step of
it is a call into the zkVM SDK or the block executor, neither of which is
available to build here.
