# dnsglobe

A global DNS propagation checker for the terminal. It queries public
resolvers around the world, compares their answers and shows how far a
record has propagated.

The decisions are verified with Verus in `src/`:

- `dns` — a resolver's lookup outcome as plain values, its classification
  into records, "no such record" or error, and the normalisation of answer
  sets (sorted, without repeats, labelled by record type).
- `answer_set` — ascending, repeat-free answer sets and their uniqueness.
- `view` — what each table row and map dot shows, the propagation gauge,
  layout decisions, the header, the map panel and the footer.
- `text` — character-level helpers: decimal rendering, lexicographic
  comparison, case-insensitive search, joining.

`app/` performs the I/O: querying resolvers with hickory-resolver on tokio,
and drawing with ratatui.
