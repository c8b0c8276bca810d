# octos_agent

The tools of an agent runtime, with their behaviour stated in contracts and proved
by Verus: the registry of tools with its deferral, eviction and policies, activation
of tools, reading the output of background tasks, sending files, managing skills,
spawning child agents, and the contracts that background work is held to.

- `src/` is the verified library. It takes and gives plain values: what the file
  system, the network or a service of the host says comes in as an argument, and
  what is to be done goes out as a result.
- `tests/` runs the library on concrete values.
- `app/` is the host side: it reads and writes files, runs programs, sends messages,
  and asks the library what to do next.

The functions of other crates that the library relies on (`serde_json`, `regex`,
`sha2`, `flate2`, `tar`) are called behind wrappers whose contracts are taken on
trust; each says what it claims.
