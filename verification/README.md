# index_writer

The index writer of a full-text search engine, verified with
[Verus](https://github.com/verus-lang/verus).

An `IndexWriter` takes documents through a bounded pipeline. A number of indexing
workers pack them into segments, a segment updater registers the finished segments,
and the user publishes all changes by a commit or throws them away by a rollback.

## Layout

- `src/` is the verified library. It takes all decisions: the writer, the workers and
  the updater are state machines that ask for a piece of work by an action and are told
  how it went by an event.
  - `index_writer`, `indexing_worker`, `segment_updater`: the three state machines.
  - `segment_manager`, `index`: the registers of committed and uncommitted segments.
  - `channel`: the two channels, made with the `chan` crate. What is believed of that
    crate stands here.
  - `worker_laws`, `updater_laws`, `writer_laws`: what each machine promises.
  - `system`, `system_steps`, `system_laws`: the threads at work together, what holds of
    them at every step, and what the writer promises in whatever order they take their
    steps.
  - `file_laws`: which files are deleted then.
- `app/` runs the machines on threads, over an implementation of the `Store` trait,
  which stands for the files, the searchers and the merge policy of an index.
- `tests/` runs the machines over a store in memory.

## What is proved

- A commit publishes exactly the documents that were added since the last one, besides
  those that were published before, and comes to the docstamp of the last of them. Left
  out are generations of which a worker has failed, and documents that wait in the
  pipeline while there is no worker at all: those documents can be lost.
- Nothing but a commit changes which documents are published. Of merges this is stated
  where no segment is named twice.
- The files of a committed or uncommitted segment are never deleted, and no segment is
  both, if no deletion was left over when the writer was opened.
- A rollback leaves nothing of what was added since the last commit, and returns to its
  docstamp and, if no committed segments were merged since, to its segments. It deletes
  the files of the segments that were finished since. Left out are rollbacks after an
  earlier failure, as long as a worker of that time is still running.
- The docstamp is the number of documents that were added since the creation of the
  index, those aside that were rolled back. This holds if it was so when the index was
  opened, no generation was committed of which a worker had failed, and the last rollback
  did not fail when it was saved or made known.
- At most as many documents wait as the pipeline holds.
- A worker puts every document that it receives into exactly one segment, in order, and
  describes each segment by the number of documents in it, if the segment writer counts
  its documents.
- Every operation comes to an end, and, if no worker has failed, replaces every worker
  that it stops.

Taken for granted are what `src/channel.rs` says of the channels, and what the head of
`src/system.rs` says of threads, segment ids and files.
