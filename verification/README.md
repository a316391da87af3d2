# stellar_ticket

A verified ticket office for events, and the Soroban contract around it.

- `src/` is the library, with its contracts and proofs:
  - `types.rs`: accounts, symbols, events and tickets as plain values;
  - `error.rs`: the reasons for refusing a request and their numbers;
  - `table.rs`: the finite maps the office keeps its records in;
  - `model.rs`: the office as a state machine, one step per request, and
    the consistency that every reachable state has;
  - `contract.rs`: `StellarTicket`, whose operations follow the steps exactly;
  - `laws.rs`: the laws of the office, proved over the steps and over any
    sequence of requests, and that each request reads and writes only the
    records of its footprint, which is what `app/` loads and writes back.
- `app/` is the Soroban contract: it checks authorization, reads the records
  a request concerns from persistent storage, lets the office answer, and
  writes back what changed.
- `tests/` runs the library on concrete requests.
