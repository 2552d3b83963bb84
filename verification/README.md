# ao_core

The core of an orchestrator for coding agents. Each agent works in a session of its own, in a
worktree of its own, on a branch of its own. The core watches the sessions, follows their pull
requests, lets reactions run, and tells everyone who watches.

The library in `src/` is written in Verus: every function states what it returns or changes, and
the statements are proved. `app/` is what surrounds it: files, processes, the clock, and the loop
that drives the sessions.

## How the lifecycle works

A tick never touches the world. It is a function of the state with which it began and of the
answers that have come in so far, and it yields a list of effects, in order. Where an answer is
missing the list ends with the question. The loop in `app/` carries out what is new in the list,
puts the answer to the question in its place, and runs the tick again from the same state.
`lifecycle::replay` and `lifecycle::resume` prove that what was in the list before stands in the
new one unchanged.

## Layout

- `lifecycle`: ticks, polls, changes of status, stuck agents, branches, pull requests, and in
  `lifecycle::laws` and `lifecycle::history` what holds of all that.
- `config`: the configuration file, its defaults, and what can be wrong with it; `config::clash`
  tells projects that cannot stand side by side.
- `activity_log`, `cost_log`, `cost_ledger`: what agents write down about themselves.
- `lockfile`, `instructions_file`, `gh`: the lock of the daemon, the prompt of an agent, and the
  `gh` command.
- `dashboard_payload`, `events`: what is shown.
- `text`, `number`, `calendar`, `lines`, `keyed`, `order`, `paths`: what the rest is built on.

Prices are floating-point numbers. The library carries their bits and never computes with them.

The agent that runs by default, with the file that it reads by itself, is a value of
`instructions_file::NativeAgent` that the caller supplies; `app/` takes it from the environment.
