# StreamWeave

A local HLS video downloader for macOS. This crate is its download logic, written in
Verus: every function carries a contract that Verus proves.

- `src/` – the verified library (`streamweave`):
  - `registry`, `task`, `status`, `settings`, `order` – the task queue, the running set,
    pause/resume/cancel/retry/delete, scheduling under the concurrency limit, the
    history order and what is stored of each task;
  - `extract`, `browser`, `candidates`, `headers`, `fetch`, `json` – finding a playlist in
    a web page: static scan, extraction browser runs, candidate checks, request headers;
  - `hls`, `manifest`, `keys` – playlists, master variant choice, segment lists, AES-128
    keys and decryption;
  - `segments`, `probe`, `pipeline`, `args`, `tools`, `process`, `messages` – the steps
    of a download, the commands for aria2c/ffmpeg/ffprobe, the checks before and after
    the merge, tool search, and the messages;
  - `names`, `paths`, `sizes`, `text`, `urls` – file names, data directories, sizes and
    durations, text primitives, URLs.
- `tests/` – tests on concrete values.
- `app/` – the Tauri application around the library: commands, events, workers that
  perform the network requests, file operations and external programs.

Outside crates: `url`, `aes`/`cbc`/`cipher` and `serde_json` are called from the
library through small trusted wrappers whose contracts name their results; `reqwest`,
`chrono`, `serde` and `tauri` are used by the application.
