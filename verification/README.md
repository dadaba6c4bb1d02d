# druid

Two pieces of a GUI toolkit, with their behaviour stated as contracts and proved with Verus:

- `src/list.rs`: the decisions of the `List` widget (how many children it keeps for its data,
  which children are handed an event, a paint or an update, when the widget tree is told that
  the children changed), and the `ListIter` collections it shows (`Arc<Vec<T>>`, and a shared
  value beside such a vector);
  `src/data.rs` holds the `Data` trait those items implement.
- `src/disable_if.rs`: the `DisabledIf` wrapper and what it sets as its widget's disabled state.
- `src/transfer.rs`, `src/property.rs`, `src/clipboard.rs`: the decisions of the X11 clipboard —
  the selection transfer (including incremental `INCR` transfers) as a state machine, the
  conversion of property replies, the choice of formats and the decoding of names.

`app/` holds the X11 connection work (through x11rb) that drives the clipboard decisions, and
the list's layout, which computes in floating point.
