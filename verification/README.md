# pcapraven

The verified core of an offline network forensics analyzer: the detection engine, its
built-in detectors and correlator, finding filtering, capture diagnostics and report
records, all written in Verus and proved against their contracts.

## Layout

- `src/` — the library. Every function carries a `requires`/`ensures` contract that Verus
  proves; properties that relate several calls are stated as proof functions in
  `src/laws.rs` and, for the determinism of detection runs, `src/determinism.rs`.
  - `domain`, `flow`, `ratio`, `text`: the data model (identifiers, references, flows,
    protocol observations, exact ratios and durations, text rendering).
  - `config`, `params`, `limits`, `input`: detector configuration, parameter rules,
    engine limits and validated detection input.
  - `detector`, `registry`, `periodic_beaconing`, `dns_anomaly`, `connection_behavior`:
    the detector interface, the registry in canonical order and the built-in detectors.
  - `correlation`, `provenance`, `multi_signal`: correlators and the provenance rules their
    findings must follow.
  - `canonical`, `engine`, `error`: canonical ordering of drafts and the transactional
    detection engine with its errors.
  - `filtering`, `analysis`, `builtin`, `capture`, `validation`, `report`, `presentation`,
    `args`: finding filters, the decisions of an analysis run, capture diagnostics and
    report records, bounded diagnostic emission, table headers and argument handling.
- `tests/` — executable tests of the library.
- `app/` — the command-line program around the library (argument parsing, standard
  streams, files).
