# midas

The decision logic of a crypto-currency trading back end, written in Verus
and proved against its contracts.

- `src/` is the verified library: the records the services exchange
  (`rpc`, `config`, `errors`), how an observer node spreads symbols over its
  sockets (`observers::sockets`), how the controller rebalances symbols over
  observer nodes (`observers::balancer`, `observers::init`), the aggregation
  of the history download progress (`historical`), the bookkeeping of the
  order executor (`executors`), the websocket handshake and trade
  subscription requests (`streams`), store key names (`kvs`) and the checks
  of the bot routes (`bot`).
- `app/` holds the edges: reading the configuration file, connecting to the
  store with the library's retry policy, and the wire encodings.
- `tests/` exercises the library on concrete values.
