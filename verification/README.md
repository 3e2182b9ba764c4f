# `rot_reducer`

A Root-of-Trust state machine for platform security, written as a reducer that does no
input or output, and verified with Verus. The world speaks to the core through `Event`s,
and the core answers with `Effect`s that a `Platform` carries out.

The engine is `statig`, with its traits implemented by hand; the bounded vectors are those
of `heapless`.

```rust
let mut chain = heapless::Vec::<ComponentId, 8>::new();
let _ = chain.push(ComponentId::new(0));
let _ = chain.push(ComponentId::new(1));

let mut orch = Orchestrator::new(chain, 3);
orch.dispatch_with(Event::PowerGood(Provisioning::Provisioned), |effect| carry_out(effect));
```

## Layout

| Where | What |
| --- | --- |
| `src/vocabulary.rs` | component ids, events, effects, states |
| `src/model.rs` | the mathematical model that every contract speaks of |
| `src/buffer.rs` | `heapless::Vec` and what is trusted of it |
| `src/sink.rs` | the effect buffer |
| `src/rot.rs` | the shared storage, and the handlers and entry actions of the states |
| `src/machine.rs` | the machine, and what is trusted of the `statig` engine |
| `src/seams.rs` | `Platform`, `OnEffect` and `EventSource`, and what they are put through |
| `src/orchestrator.rs` | the dispatch loop |
| `src/laws.rs`, `src/runs.rs` | what holds of every event, and of every script of events |
| `app/lib.rs` | a loop that runs forever around the core |

The board chooses the chain and its order, the capacity of the chain, and how many
restores in a row are allowed. The restores are counted from the last time the machine was
ready. A chain is walked to its end however long it is, one component at a time: a report
about any other component than the one under measurement is dropped.
