# acp_adapter

An adapter between a client that speaks the Agent Client Protocol and a coding
agent that runs as a child process and speaks newline-delimited JSON. The logic is
a library verified with Verus; the programs around it do the input and output.

- `src/` is the library. Each public function states what it returns over a plain
  model of its arguments. Laws that relate several functions are public proof
  functions named `law_*`. What the library takes from `serde_json` and `serde`
  stands in `src/json.rs`, what it takes from `agent-client-protocol` in
  `src/recorder.rs`.
- `tests/` runs the library on concrete values.
- `app/` holds the programs: the agent on standard input and output, the recorder
  (`record <agent-cmd> <script.json> <out.jsonl>`) and the playback of a transcript
  in place of a child (`replay`).

The program of the child is taken from the options, from `CLAUDE_CODE_EXECUTABLE`
or from the search path.
