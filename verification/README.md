# sequential-storage

Storage of data in NOR flash with minimal erase cycles, written in
[Verus](https://github.com/verus-lang/verus) and verified.

A flash range is divided in pages. The markers at the start and the end of a page tell whether it is
open, partially open or closed; the start marker also records the version under which the page was
written. On top of that stands a queue that buffers items in RAM until they are drained to flash.

## Layout

- `src/` is the library. All of it is verified, and nothing in it is trusted.
  - `geometry`, `flash_layout`, `marker`, `le`: sizes, addresses, markers and versions.
  - `operation`: operations as state machines. An operation says what is to be read, written, erased
    or told to the cache, and decides from what came of it how to go on.
  - `storage`: the operations (page states, opening and closing pages, the search for a page, repair,
    verification of the version, the report of all items), and what holds of them.
  - `device`: a flash and a cache in the abstract, on which whole runs of operations are reasoned
    about: what they come to, and what they leave behind when they are cancelled.
  - `queue`: the RAM ring, the buffered queue, and what holds of them over many calls.
  - `versioning`, `versioning_disabled`: start markers with mismatches told apart, and without a
    version.
- `tests/` runs the library on a flash in memory.
- `app/` drives the library over `embedded-storage` and `embedded-storage-async` drivers.

## What is proved

Every function states what it returns and changes. Beyond that, the functions named `law_..` state
what holds of several calls together. Among these:

- opening, partially closing and closing a page lead to the state that they are named after, and
  change no byte but those of the page, or of its markers;
- a search finds the first page in a given state; a repair erases the corrupted pages, and changes
  no other byte;
- a storage is verified under the version that it was written under, and no other;
- an operation may be stopped between any two requests: the cache tells the truth then, or knows that
  it might not;
- items leave a buffered queue in the order in which they were accepted, and a drain discards from
  RAM the items that flash has taken and no others;
- a report of all items has for each page its line and those of its items.
