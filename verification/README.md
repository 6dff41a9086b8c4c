# maxwell

The verified core of the Maxwell security workbench: the shared data
contracts (requests, responses, events, findings, binary listings), the
collaboration session model with its analyst-gated validation decisions, the
proxy's response heuristics and header rules, the local CA (what its
certificate and each minted leaf say, loading it and minting leaves), and the
binary analysis that lists and disassembles the functions of ELF, PE and
Mach-O images.

Layout:

- `src/` — the library, written in Verus and proved against its contracts.
  Calls into `uuid`, `chrono`, `tokio`, `http`, `goblin`, `iced-x86`,
  `rcgen`, `rustls` and `rustls-pemfile` stand behind small trusted functions whose
  doc comments say what is assumed of them; several of these (the tokio
  channel handles, for one) promise nothing, so the functions built on them
  state only what holds whatever they return.
- `tests/` — ordinary Rust tests of the library.
- `app/` — the `maxwell` command-line program: argument handling, the
  network proxy (hyper, rustls), the CA files on disk and logging. The
  session registry (`Orchestrator`) has one owner, `main`, which lends it to
  the calls that read or change a session.

Run `maxwell proxy --listen 127.0.0.1:8888` and point an HTTP client at it;
only intercept authorized targets.
