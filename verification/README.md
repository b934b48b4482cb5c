# bongas_ai

The decision core of the Bongas-AI discovery engine, written in Verus and
proved against its specifications.

`src/` holds the verified library:

- `metrics` – database query counters and average latency.
- `pool` – how a query that went through the circuit breaker is counted and
  reported; the pool statistics line.
- `json` – a plain model of JSON values (rule conditions, scopes, reports).
- `strategy` – the strategy resolver: targeting, JSON conditions, first
  serving rule.
- `scenario`, `scenario_store`, `cap` – scenario definitions, scope
  enforcement, execution planning and statistics, the scenario registry, the
  cap on active scenarios, and what the scenario repository reads and writes.
- `pages`, `layout_cache` – page layouts, the landing page registry with its
  fallback chain, the navigation mesh, and the LRU cache of resolved layouts
  (an `lru::LruCache`).
- `discovery` – per-device discovery configuration with its fallbacks.
- `queries` – SQL text that depends on the request, glob patterns, suggestion
  texts, arrival-pattern bits.
- `insight`, `stages`, `symphony`, `rows`, `table`, `text` – the remaining
  decisions, data rows and helpers.

`app/` is the service layer around it: JSON and wire formats (serde),
shared metrics and their report, the PostgreSQL-backed page layout service
(sqlx, tokio) and the pool configuration.

`tests/` exercises the library on concrete values.
