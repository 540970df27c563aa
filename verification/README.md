# MiniAgentOS runtime logic, verified

The decision logic of an agent-first runtime, written in Verus: every function in
`src/` carries a contract that Verus proves.

- `src/`: the library (crate `lib`)
  - byte, UTF-8, JSON and URL handling: `bytes`, `utf8`, `json`, `url`
  - network protocols: `net` (Ethernet/IPv4/ARP/UDP/TCP/ICMP frames), `dns`,
    `http` (incremental response parser, dates), `tls` (ordered receive stream),
    `fetch` (requests, replies, errors), `fetch_engine` (the per-tick fetch state
    machine), `fetch_rx` (received segments, address answers, keeping and closing
    the connection), `cache` (TTL, DNS and ARP caches), `capture` (response bodies and
    redirects)
  - devices: `virtio`, `dtb`, `uart`, `timer`, `allocator`
  - credentials: `openai`, `oauth`
  - the agent: `policy`, `goal`, `model`, `memory`, `session`, `turn` and
    `turn_state` (the session tool loop), `agent_task` (JSON tasks and goal
    lines), `console` (console commands and settings, the UDP control port, line
    editing), `trace` (the structured `TRACE {...}` event lines)
- `tests/`: tests on concrete values, including one for each law
- `app/`: a hosted console that reads lines from standard input, performs the
  transfers the library asks for over plain TCP, and prints the results

State machines are written as functions from a state and an event to the next
state and an action; the runtime around them performs the action and feeds back
the next event.
