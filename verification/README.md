# openchatcut_daemon

The verified core of the OpenChatCut local daemon: the rules it applies to
requests, media, jobs, agent plans and project edits, written in Verus with
their contracts proved.

- `src/` is the library. Each public function states in `ensures` what it
  returns for every input; the laws that relate several functions stand as
  public proof functions (`lemma_*`). Calls into outside crates (`url`, `hex`,
  `sha2`, `subtle`, `rand`, `serde_json`) go through small trusted wrappers
  whose contracts say what those crates document.
- `tests/` runs the library on concrete values.
- `app/` is the daemon program around the library: command line, the HTTP
  server with its security layer, health, status, browser session bootstrap
  and the agent tool route. It converts between wire values and the
  library's types and calls the library for every decision. The tool route
  runs the steps of `dispatch::tool_step`; this front end holds no project
  store, job queue or media worker, so every step that asks for such outside
  work is answered as unavailable (501), and only the status tool is served
  in full. `app/codex_turns.rs` drives the Codex app-server through
  `codex::PlannerSession::step` and `codex::ImageSession::step`, sending the
  requests `codex_requests` builds; no route calls it yet, since a planning
  turn needs the project store to assemble its context.

Modules by subject: text, encoding and JSON model (`text`, `encoding`,
`json`); errors and requests (`error`, `requests`, `tools`, `dispatch`, `uploads`); network and
origin policy (`net`, `config`, `auth`); media and content store (`media`, `media_gc`,
`content`, `paths`, `imports`); agent work (`agent`, `codex`, `codex_requests`, `conversation`,
`image_jobs`, `jobs`, `status`, `events`); editing (`script`, `script_edits`,
`story`, `captions`, `caption_edits`, `broll`, `placement`, `motion`,
`audio`).
