# sempal

The decision logic behind SEMPAL's sample library, verified with Verus.

`src/` holds the verified library: watcher cursors and the rule that advances them, the
validation of stored cursor records, checkpoint requests and journal recovery, the
source-processing supervisor's control state, discovery bookkeeping, the coalescing queue that
persists harvest-touched files, folder-scan progress reporting, committed file mutations and
their completion decisions (lifecycle and cursor fences, rating re-keys, default refresh), the
targeted filesystem sync's admission and completion, the browser tree of a committed snapshot
and the announcements of committed scan batches, ratings, rating plans and unlocking, metadata
tag reports, grouping of work by source (sources in the order of their paths), watcher event
capture and the relative form of watched paths, the watcher's queue of source-audit requests and its admission
lane decisions, the order of text, the operation-journal owner's lifecycle, startup and shutdown,
and the waveform status line.
Each public function states in its `ensures` what it returns or changes, as far as the model
holds it: a work token's cancellation flag is modelled by the serial it was issued under and
the set of serials whose flag the control state has set. Laws that relate
several operations are public proof functions. Paths are compared and taken apart by std's
`Path`, through a few trusted wrappers whose contracts name what those calls return.

`tests/` runs the library on concrete values. `app/` holds what touches the outside world:
the JSON text of stored cursors and the coordinator loop that writes requested cursors.
