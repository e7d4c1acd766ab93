# microbox

A policy-first sandbox for running commands: a policy says what a command may read, write,
connect to and consume, and a backend enforces it. The decisions are a Verus library; what
touches the machine is a small program around it.

## Layout

- `src/` is the verified library.
  - Text and numbers: `text`, `number`, `duration`, `units`, `paths`, `lists`, `glob`.
  - Policies: `levels`, `layers`, `grants`, `policy`, and what holds of every policy in
    `policy_laws`.
  - Requests: `command`, `request`, `errors`.
  - Enforcement: `backend`, `launch`, `hardening`, `landlock`, `seccomp`, `network`.
  - The command line: `args`, `runner`, `diagnose`, `workspace`.
  - Benchmarks: `scenario`, `sampling`, `report`, `render`, `peers`.
- `app/` is the program: argument parsing, files, processes, kernel calls, JSON and TOML.
- `tests/` runs the library on concrete values.

## How the two halves meet

The library never reads the machine. Where an answer depends on it, the library says what to
ask, takes the answer as an argument and decides: which programs exist, what a name resolves
to, what a kernel call returned, how long a sample took. Loops that wait for the outside are
step functions from an event to the next action. So every decision is proved for every answer
that the machine may give.

## Laws

Public proof functions named `lemma_..` state what holds of the library as a whole, for
instance that a later policy layer wins, that a variable that a deny pattern matches never
reaches the command, that a denied path is hidden behind every bind of the launcher and gets no
rule of the kernel, that the filter program decides every system call as intended, that no
supervised call gets past the allowlist, and that a restored snapshot comes back as it was taken.

The kernel's filesystem rules grant everything beneath a path. Where a policy grants a directory
and denies something below it, a run without the launcher is therefore refused, with the
directories named; the launcher masks the denied path instead.
