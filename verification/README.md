# ic_nodes

Verified logic of Internet Computer services, in Verus:

- `consensus`: the cache of a replica — the finalized tip, the summary block, the
  catch-up package and the chain between summary and tip;
- `boundary`: the routing layer of a boundary node — what is known of a request, why it
  fails, which node it goes to, what is logged of it;
- `minter`: the withdrawal of ckBTC, from the first check to the burn and what follows it;
- `registry`: test records for the registry and the order in which they are written;
- `principal` and `text`: identifiers, numbers and messages.

`src/` decides and is proved; `app/` holds what talks to the outside (HTTP handlers,
canister calls, locks, stores) and asks `src/` what to do; `tests/` runs the library on
concrete values.

Each function states in its contract what it returns for every input that it admits. Where a promise
spans functions it stands as a proof function whose name starts with `law_`. The calls into
other crates (principals and numbers of candid, the random choice of rand, the URI builder
of http) stand in small functions whose contracts are trusted; their doc comments say what
is claimed of the call.
