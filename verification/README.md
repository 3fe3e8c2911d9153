# douyin_creator_tools

The analysis core of a short-video creator toolkit, written in Verus. Every
function under `src/` carries a contract and is proved against it, except the
few thin wrappers that call std, serde_json, reqwest, image, font8x8 and
futures-util: their contracts are trusted, and their doc comments say what
each one claims.

## Layout

- `src/text.rs` — decimal rendering, whitespace trimming, substring search and
  path joining over character sequences.
- `src/deep_video/` — the deep video analysis: the evidence model (`types`),
  `MM:SS.T` time labels (`time_format`), keyword-guided candidate mining
  (`candidate_mining`), the ordered evidence timeline (`evidence_timeline`),
  frame sampling plans and ffmpeg `showinfo` parsing (`frame_sampling`), the
  contact sheet picture (`contact_sheet`), the Markdown report (`report`), the
  artifact layout (`artifacts`) and the run itself as a sequence of decided
  steps (`runner`).
- `src/ai/` — the AI service state and provider requests (`service`), JSON
  values of model replies (`json`), and the agent skill workflow (`agent`).
- `src/commands/` — task descriptions and the abort registry of running tasks.
- `src/host/` — where the Python sidecars are looked for and how they are
  started.
- `app/` — plain Rust around the library: JSON shapes with serde, files,
  processes, HTTP requests, and the command entry points. It performs the
  steps that the library decides.
- `tests/` — tests of the library's public functions.

Times are whole milliseconds throughout the library; the JSON shapes in
`app/model.rs` keep the seconds that the front end uses.
