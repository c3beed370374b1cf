# repo-auto-puller

Keeps local Git repositories up to date: each is checked at an interval of its
own, and pulled by fast-forward where the branch that it follows has new commits
and pulling is safe. What that means is stated and proved in the library with
[Verus](https://github.com/verus-lang/verus).

## Layout

`src/` is the verified library. It runs no command, reads no file and no clock:
where something is to be learnt, a function says what to ask for next, given all
that was answered so far.

| Module | What it holds |
| --- | --- |
| `repo` | reading one repository through Git, and the decision on it |
| `config`, `schema`, `settings` | the configuration, when it is valid, and how it is changed |
| `quiet`, `effective` | what pauses, quiet hours and allowed branches make of a decision |
| `sync` | one round: what is asked, done and remembered |
| `schedule` | when each repository is due |
| `command` | hooks and desktop notifications |
| `state`, `log` | what is recorded and logged |
| `status`, `doctor` | what is shown on demand |
| `service` | the background service on Linux, macOS and Windows |
| `dashboard`, `url` | the status page and its requests |
| `puller` | a puller for one repository without a configuration |
| `text`, `bytes`, `escape`, `names`, `paths`, `outcome` | the ground the rest stands on |

`app/` is the program around it: the command line, files, processes, the network
and the clock. `tests/` runs the library on examples.

## What is proved

Besides the contract of each function, the public proof functions state what
holds of the library as a whole, among it:

- Git is made to pull only where the branch lacks commits of the one that it
  follows, has none of its own and no uncommitted changes, the repository is
  neither paused nor in quiet hours nor on a branch that is not allowed, nothing
  asks for a dry run, and the hook before the pull has passed; and there it is.
- Every round that goes well is recorded once, at its end, and a round takes
  nothing back of what it has done.
- An error is told when it comes, and not again while it lasts.
- The puller for one repository remembers what it read once it has told it, and
  what it remembered before if the log did not take it.
- A configuration stays valid when repositories are paused, resumed or added and
  when it is migrated.
- The links on the dashboard lead back to the repository that they stand for,
  whatever its name.
- Different arguments never look the same in the file of a service.
