# geo_relay

Relay selection by the location of two peers, verified with Verus.

A server hands configuration documents over through temporary files. A document
lists the relay servers and the Geo rules, which name relays for pairs of
clients. MaxMind databases tell where a client is.

- `src/runtime_config.rs`: the document, its validation and its normal form
- `src/handoff.rs`: the steps by which a handed-over document is put in force
- `src/checksum.rs`: the SHA-256 checksum of a document
- `src/geo_relay.rs`: the selection state, its reload, selection and status
- `src/facts.rs`: what the databases say of a peer
- `src/mmdb.rs`: opening, checking and querying databases
- `src/rules.rs`: what is asked of compiled rules
- `src/files.rs`, `src/text.rs`: files that are read whole, and text
- `src/names.rs`: names that are told apart without regard to ASCII case
- `src/laws.rs`: what holds of the library as a whole
- `app/`: shared state, files and JSON

The language of the endpoint expressions is supplied by the embedding program,
as a compiler from a configuration to a rule set and as a selector on it.
