# xmtp_mls

The rules of a messaging client for encrypted groups, written in Verus: how groups are configured,
how intents are published and messages taken in, how conversations and messages are streamed, and how
the devices of one user are kept in step.

* `src/` holds the rules. Work that needs the store, the network or the MLS engine in between is
  written as a state machine: a start function, a step function from state and event to state and
  action, and a specification of the transitions that the step function is proved against. What holds
  of whole runs stands beside them as proof functions.
  * `groups/` - groups, their configuration and metadata, messages and proposals; `groups/app_data/`
    - components of the application data and sets of inbox ids on the wire; `groups/mls_sync/` -
    publishing, receiving, welcomes and waiting.
  * `subscriptions/` - streams of conversations and messages, and events.
  * `device_sync/` - messages, archives and the group between devices, and the worker.
  * `bindings/` - values as other languages see them.
  * `codec.rs`, `crypto.rs` - the calls into outside crates, each with the contract that is relied on.
* `app/` drives the state machines: locks, asynchronous loops and streams over ports that a host
  application fills in.
* `tests/` runs the library on concrete values.
