# sparseio

Sparse, chunked materialization of large objects: a requested range is
fetched from its upstream source one chunk at a time, stored, and served from
the store on later reads; concurrent misses of one chunk share one fetch.

- `src/` is the verified library (Verus): chunk arithmetic, coverage
  tracking, metadata validation, the read-path decisions (`ReadState`),
  builders, the reader registry, HTTP header parsing and the decisions of
  ranged reads and length discovery, path normalization, the MT19937
  generator and latency profiles, in-memory stores, and the judgements of the
  validation harnesses.
- `app/` is the asynchronous plumbing around it: the `Reader`/`Writer`
  traits, the async read path, file and HTTP sources, test doubles, and the
  harness drivers.
- `tests/` exercises the library on concrete values.
