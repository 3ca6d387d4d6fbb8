# quantum_core

The verified core of the Quantum reasoning platform, written in Verus.

- `src/` — the library, every function proved against its contract:
  - `memory` — the ephemeral/persistent memory boundary, the append-only
    cognitive trace store, knowledge lineage and reputation records;
  - `pd_continuum_contract` — the digest chain `i + U → i₀ → i₀ + 1Q → output + iZ → next i₀`;
  - `living_trust_contract` — the SHA-256 living trust seal;
  - `runtime_pulse` — organ readiness and the replayable action ledger;
  - `pro_nk_gate` — sealed negative-knowledge exports and the vault;
  - `progressive_debatic` — the excavation engine: signals, trace, genius
    detector, pressure budget, sealed entry points, and the release path
    (`finalize`): pre-seal after Spine 9, candidate binding, and
    `PD output + iZ → next i₀` on a verified receipt;
  - `project_workspace_router` — orientation of project workspace requests;
  - `collapse` — the XiYi → XY search for the most co-present pair;
  - `reasoning`, `lim_types`, `phase9_integration`, `pim`, `npim` — territories,
    labels and law checks;
  - `codec`, `text`, `words`, `assoc`, `sha` — byte, text and word primitives.
- `tests/` — the behaviour tests.
- `app/` — the process around the library: standard input, and the
  floating-point kernels (among them the mass of a proposed XY pair).

## Boundaries

Some inputs of the library come from other components of the platform and
enter as plain values:

- a Spine 9 completion enters as `PdSpineCompletionFacts`: the outcome of
  its GCL process check, its layer lineage, its law flags and the digests
  it binds;
- the identifier that the verification authority derives for a receipt is
  handed to `finalize_after_verification` as `expected_receipt_id`;
- negative-knowledge entries keep their text: the semantic stems of the
  platform's tokenizer are not computed here.

Not part of this library, because they are built from those components or
from floating-point scores: building the Spine 9 activation request
(`ingest_for_spine_sealed`), the hardware spine and its readiness for the
verification authority (`QuantumSpine::is_ready_for_shadow`), the operator
engines that score in floating point (PRO, NPRO and their hardening, LIM
measurement, the NK similarity gate, module reputation scoring), and the
command-line pipeline with its file hand-offs.
