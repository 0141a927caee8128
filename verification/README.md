# routerd

A model router and protocol gateway daemon for `syntropd`, with its control
tool `routerctl`. The routing, configuration and protocol logic is a Verus
library whose behaviour is stated in `requires` / `ensures` contracts and
proved; the daemon and the CLI around it are ordinary Rust.

## Layout

- `src/`: the verified library.
  - `models`, `scoring`, `router`: requests, token estimates, candidate
    eligibility, provider health counters and failover across ranked
    candidates, the advertised model catalogue.
  - `varlink`: framing of NUL-terminated Varlink messages, the incremental
    frame reader, method dispatch and error replies.
  - `adapters`, `probe`: endpoints, headers and payload limits of the HTTP
    providers, the local inference broker's replies and stream events, model
    listings.
  - `config`, `credentials`, `telemetry`, `gateway`, `error`: configuration
    defaults, credential settings, pressure levels, HTTP status mapping.
  - `activation`, `notify`, `rss`, `daemon`, `cli`: socket activation,
    service-manager notifications, `/proc/self/statm` figures, listener
    selection and command-line shapes.
  - `setup`, `setup_steps`, `ctl`: the configuration edits of
    `routerctl setup` and `routerctl default` as a model of the document, and
    the model filtering of `routerctl models`.
  - `laws`: properties that span several of these.
  - `text`, `num`: string and number helpers.
- `tests/`: tests of the library.
- `app/`: the daemon and the CLI (I/O, async plumbing, serde, HTTP, TOML,
  floating-point scoring).
