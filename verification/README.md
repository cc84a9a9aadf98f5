# jev-terminal-doctor (verified library)

A live terminal assistant: it watches build and test output, detects
errors, gathers context, asks a provider (or the offline mock) for a
patch, and applies it hunk by hunk with a backup.

The logic lives in `src/` and is proved with Verus:

- `errors/` — the detection rules (regular expressions tried in priority
  order), line-number parsing, and the bounded error snippet.
- `context/` — project kind from marker files, the capped diff, file
  slices around the reported line, and the untracked-files section.
- `ai/` — the mock provider, the prompt, and reply cleaning.
- `hook.rs` — shell hook snippets, profile locations, reports, exit codes
  and the capped stream buffer.
- `pty/` — shell choice and the analyzer state machine (sliding window,
  cooldown, repeat suppression).
- `tui/` — key bindings, patch path checks, patched content, and the diff
  overlay lines.
- `text.rs` — character-level helpers (lines, joins, trimming, search).

`app/` holds the command-line program: argument parsing, files, git,
processes, the PTY, HTTP and JSON.

The Anthropic provider is used when `ANTHROPIC_API_KEY` is set and not
blank and `JEV_MODEL` names the model; otherwise the offline mock runs.
