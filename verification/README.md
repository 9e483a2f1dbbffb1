# comlink

Local-first speech and meeting transcription: microphone memos, audio files and long
meetings, recognised by whisper.cpp on this machine, with an optional rewrite by a local
language model and an MCP server for agents.

- `src/` is the library. It holds every rule: text modes, configuration layers, WAV
  levels, the lifecycle of a meeting, exports, retention, history, health checks and the
  MCP addresses. It is verified with Verus: each function carries a contract, and the
  proof functions named `law_*` state what holds across functions.
- `app/` is the program. It runs processes, reads and writes files, talks to SQLite and
  to MCP clients, and hands the library plain values.
- `tests/` runs the compiled library on concrete values.

## The library

| module | what it holds |
| --- | --- |
| `strings`, `numbers`, `ordering`, `paths` | text, decimal numbers, sorting and paths, with their models |
| `error` | every failure, its message, code and exit status |
| `config`, `deps`, `clipboard`, `system_audio`, `record` | settings and where they come from, the programs that are needed, devices and recorders |
| `audio`, `asr`, `repetition`, `text`, `llm`, `output` | sound levels, recognition, repeated phrases, text modes, rewriting, the transcript record |
| `meet`, `meet_store`, `meet_recorders`, `meet_export` | a meeting session, its store, its recorders, its segments and exports |
| `meet_service`, `meet_flow`, `meet_status`, `meet_audit` | starting, stopping, finishing and reporting a meeting; sound left behind |
| `mcp`, `doctor`, `storage`, `cli` | what agents are answered, the health report, history, what commands print |

Times, identifiers, directory listings, file contents and what processes report are
arguments: the library decides, the program acts. Where a decision and an action
alternate, as in a stop, the library has a flow with stages, and the program performs the
action of each stage and answers with an event.

## What is trusted

The library calls `serde_json` to write a string and to find one in a reply, and the
standard library to decode bytes, to quote a text and to classify a character. Those
calls stand behind functions marked `external_body` or behind `assume_specification`, each
with a comment that says what is claimed of the call.

Decibels need logarithms and are computed in `app/`; the library keeps exact sums of
squares and decides from them whether a recording is near-silent.
