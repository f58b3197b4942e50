# bitcoin_funding

Pieces of a Bitcoin wallet that funds an account, written in Rust and verified with Verus. The
functions of the library carry contracts that are proved. Calls into other crates and into the parts
of std that Verus does not know stand behind small wrappers, marked `external_body`: Verus believes
what a wrapper states without proof, and a comment above each says which function it calls and what
is claimed of it. The wrappers of the clock, of the paths of the host and of the conversion of JSON
values state nothing.

- `src/address_ux.rs`, `src/funding.rs`: how a payment request is shown, and the steps of funding.
- `src/chain_select.rs`: which chain backend the settings lead to.
- `src/cashu.rs`, `src/cashu_backend.rs`, `src/cashu_cdk_helper.rs`: quotes of a Cashu mint, the
  backend of a mint, and the messages to the mint helper.
- `src/node_helper.rs`, `src/mint_helper.rs`: what the two helper programs decide.
- `src/bdk_bip84.rs`, `src/bdk_scan.rs`, `src/bdk_source.rs`, `src/bdk_sync.rs`,
  `src/bdk_update.rs`: a BIP-84 wallet and its synchronisation.
- `src/tapscript/`: the templates of bare leaf scripts.
- The remaining files of `src/` hold what these share: texts, JSON, paths, secrets, errors.
- `tests/` runs the library.
- `app/` holds the two helper programs, what reads their requests and replies, the requests over
  HTTP and the settings of the process.
