# Dynamic virtual channels, server side

The channel manager of a remote desktop server, verified with Verus. It agrees on capabilities with
the client, asks it to create the registered channels one after the other, the graphics channel
first, routes data to the processors of the channels, and puts messages in several blocks together.

- `src/server.rs` is the manager, `src/model.rs` the transition system that its contracts speak of,
  and `src/laws.rs` what holds of the whole.
- `src/pdu.rs`, `src/wire.rs`, `src/complete_data.rs` and `src/svc.rs` are the formats: reading and
  writing messages, cutting them into blocks and putting them together.
- `src/processor.rs` holds the trait that channel processors implement, and processors whose type is
  forgotten; `src/type_registry.rs` finds channels by the type of their processor.
- `src/gfx.rs` is the bridge to the graphics pipeline.
- `app/` puts the manager on a static channel of `ironrdp-svc`, and shares a graphics pipeline of
  `ironrdp-egfx`.
