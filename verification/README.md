# anchor-derive

The expansion logic of the derive and attribute macros of a Solana program framework,
written in Rust and verified with [Verus](https://github.com/verus-lang/verus).

The library works on plain values. Items come as trees of its own (`syntax`, `attrs`,
`items`, `handler_fn`), interface descriptions as JSON values (`json`), and generated code
leaves as text. Every function says in its contract what text it gives, and each failure
with the inputs that cause it.

- `text`, `template`, `names`, `failure`: texts, templates with holes, case conversions,
  and what a macro reports.
- `outside`: what the library has from other crates. Nothing there is proved.
- `reading`, `nested_meta`: lists of tokens that are read by other crates, and where in
  them a failure points.
- `accounts`, `account_fields`, `derive_order`, `instruction_attrs`, `field_attrs`:
  `#[derive(Accounts)]`.
- `cpi_accounts`: `#[derive(ToCpiAccounts)]`.
- `account`, `event`, `idl_type`, `modes`, `pod_fields`, `pod_messages`, `wincode`,
  `wrappers`: the macros on accounts, events and described types.
- `program`, `program_config`, `handler`, `qualified_path`, `lifetimes`, `args`,
  `discriminator`: `#[program]`.
- `declared_program`, `declared_types`, `declared_constants`, `declared_events`,
  `declared_errors`, `type_defs`, `type_parts`, `account_groups`: `declare_program!`.
- `run_time`: what follows for the data and the accounts that pass through the generated
  code.

`app/` reads items with `syn`, hands them to the library and turns its results back into
tokens. What account constraints, interface descriptions and program addresses contribute
comes in through the trait `Around`.
