# channel

Topic channels of a websocket service that reports on a chain: who is
subscribed to a topic, what a channel reads from the cache at every block, and
what it publishes to whom.

- `src/` is the verified library. `channel` holds the subscriptions, `round`
  the step-by-step course of one pass over the cache, `rules` the rules that
  `round` is proved to follow, `round_laws` and `channel_laws` what holds of
  whole rounds and of subscriptions over time.
- `app/` is the actor around it: timer, cache connection, serialisation,
  delivery.
- `tests/` runs the library on concrete values.
