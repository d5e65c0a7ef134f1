# airpulse_dsl

A verified library for the AirPulse diagnosis language: the lexer and
parser of rulesets (with a grammar stated as a specification), the
compiled rule image, the event/cause catalog, the per-scope graph store and
the evaluation engine that turns events into causes, problems and actions,
with a SARIF writer.

Layout:

- `src/syntax` – lexer, directives, parser, and the grammar specs
  (`grammar.rs` for expressions, `ruleset_grammar.rs` for rulesets).
- `src/catalog` – event and cause tables, metric paths, topology functions.
- `src/ir` – the compiled program image and rule instances.
- `src/store` – ring buffers, wait queues, per-scope subgraphs, the store.
- `src/eval` – predicate evaluation, bindings, the engine, sinks, SARIF.
- `app/` – file loading around the library.

## Catalog notes

The event table holds 44 base events followed by 26 Wi-Fi and cross-layer
events (13 raw frames, 9 client outcomes, the AP and client summaries, and
`tcp.rtt_sample` / `tcp.throughput_sample`). Each Wi-Fi event carries
`target` and `time`, then its privacy-marked fields, then its plain fields;
`wifi.mgmt.deauth` and `wifi.mgmt.action` append a sibling-scope routing
field. The field lists of the raw frames, both summaries and
`tcp.rtt_sample` are fixed; the nine outcome events carry only `target` and
`time`, `tcp.throughput_sample` carries `throughput_kbps`, and the target
scope of each raw frame follows its direction (client frames: `ClientMac`,
AP frames: `AccessPoint`). These last choices are not pinned by any
recorded field list.

The problem catalog (problem kinds and their SARIF ids) is not part of this
crate; the engine's ambiguity problem uses the id `ap_ambiguous`.

## Store layout

The graph store keeps its per-scope partitions, ring buffers and wait
queues in `Vec<(ScopeId, _)>` lists holding each scope at most once,
rather than in concurrent hash maps: the engine is driven from one thread,
and these lists are what the store's contracts are stated over. The `dashmap` dependency is not used by the library.
