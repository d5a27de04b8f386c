# ceilidh

A caller hands turns of agent sessions to runners; a runner plays each turn
through a harness CLI in a git checkout of the session's own. The library under
`src/` holds the rules of both sides, each stated as a contract and proved with
Verus. `app/` is the program around it: the command line, HTTP, SQLite, git and
the harness processes.

## The caller's side

- `caller` is the state machine of a turn.
- `store` is the model of the books (sessions, turns, runners) and what it means
  for them to be in order. `sessions`, `turns`, `claims`, `runners`, `release`,
  `tree` and `archive` are the operations on them. Each says exactly what the
  books are afterwards, what is answered and what is broadcast.
- `laws` states what holds across requests: finished turns stay, a session stays
  with its runner, one turn of a session is in flight at a time, a report is read
  back.
- `audit` tells whether books that were loaded are in order.
- `auth` and `access` are the signed cookies and the sign-in, `config` and `repos`
  the menus the client is shown.

## The runner's side

- `runner` and `drive` decide what a turn's run amounts to, `workspace` which git
  step comes next, `adapters` how each harness is called, and `streams` what its
  output says.
- `mcp` and `subagents` are the tools a harness is offered.
- `startup` is what happens before either side runs: the bind address, the token
  and the harnesses that were found.

## What is trusted

Calls into other crates stand behind wrappers in `outside` and `json`, and one
declaration in `text`. Each wrapper's comment names the function it calls and
what is claimed of it.
