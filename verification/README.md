# completion

The completion menu of a modal text editor, written in Rust and verified with
Verus.

- `src/completion.rs`: the menu: its options, the filter, what is shown.
- `src/ranking.rs`: which options match and in what order they are shown.
- `src/fuzzy.rs`: the calls into the `nucleo` fuzzy matcher.
- `src/text.rs`: characters, and the word in front of the cursor.
- `src/items.rs`, `src/edits.rs`: completion items and the edits they stand for.
- `src/insertion.rs`: what is done to the document when an item is selected or
  accepted, as a machine that says what to do next after each answer.
- `src/rows.rs`, `src/documentation.rs`: how an item is drawn in the menu, what is
  shown of it beside the menu, and where.
- `src/laws.rs`, `src/runs.rs`: what holds of the menu over several operations,
  and of everything that is done after one event.

`app/` is the popup around the menu. It reaches the document, the language
servers and the screen through the traits in `app/host.rs`.
