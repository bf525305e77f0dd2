# cocos-build-lan-server

A LAN build server for Cocos Creator projects: it keeps projects, task
groups and package tasks, runs their builds one after another (preparation
projects, code obfuscation, the Cocos build itself, git commits), and
reports progress and results to the web page and to Feishu bots.

## Layout

- `src/` is the library, written in Verus and verified: the data model, the
  normalization and migration of settings, the run-time state of tasks, the
  build queue's decisions, parameter and placeholder handling, preparation
  project checks, git output parsing, notification texts and the other rules
  of the server. Each public function states in `requires`/`ensures` what it
  does; the `law_*` proof functions state properties that span several
  functions (for example that normalizing settled settings changes nothing,
  or how the build flag behaves over any sequence of calls).
- Calls into outside crates (`base64`, `uuid`, `serde_json`) and the few std
  functions that vstd does not specify stand behind small trusted wrappers,
  each with a doc comment saying what is claimed of it.
- `app/` is the program around the library: the HTTP server, file and
  process I/O, git and Cocos processes, Feishu requests, and the serde copies
  of the library's types.
- `tests/` runs the library on concrete values.
