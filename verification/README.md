# Bilibili tasks

The task registry of a media cache server: downloads and progressive playbacks of Bilibili
content, from the request of a client to the day the task is forgotten. The library is written in
Verus and proved against its contracts. What it trusts are two short functions around calls to
the standard library and to `uuid`: they read the clock and make random identifiers.

## What it does

* Requests become tasks. A download that is asked for twice while it is active is one task; a
  playback is never shared.
* Workers claim queued tasks, report progress, and bring tasks to an end. An end is final, and a
  request to stop wins over a worker that finishes later. A worker is told to stop through a
  cancellation, which names a flag of the registry; every copy of it names the same one.
* A change is shown to clients only once it may be: what a file must hold first is saved first, and
  what could not be saved is taken back. Bodies of resources are deleted only when no task, visible
  or not, and no lease owns them any more.
* The state survives a restart. Tasks that were running are queued again, playbacks that cannot go
  on fail, and ended tasks are kept as long as the retention policy says.

## Layout

* `src/model` holds the types, each with its mathematical view.
* `src/inner` holds the steps that operations are made of: publication, resources, retention,
  requests to stop, and roll-back.
* `src/registry` holds the operations. An operation says what has to be committed; `commit.rs`
  says what a commit does for each way in which a save can end; `restore.rs` opens a registry.
* `src/store` holds what may stand in the file: schema versions, limits, identities, intents to
  delete files, and the layout of the file around the JSON of each task.
* The other modules of `src` hold text, identifiers, time, tables, and the rules for playback
  sessions and results.
* `app` is the part around the library: threads, files, channels and JSON. It takes the outputs of
  tasks from the server through the trait `ServerRules`, and files from `BodyStorage`.
* `tests` runs the library.

Laws that span several operations are public proof functions whose names begin with `law_`.
