# online_media_ingest

A service that downloads online media with yt-dlp into a media library, and fetches
subtitles from assrt. The decisions it makes are a Verus-verified library; the
server around them is ordinary Rust.

- `src/` — the verified library: provider matching and URL analysis, the yt-dlp
  command lines and output parsing, progress reports, the task table, music metadata,
  file and directory naming, the `.nfo` sidecar, thumbnail and import planning,
  post-processing routes, the subtitle search and selection, and tool lookup. Every
  public function states its result in `ensures`; the laws that relate several
  functions are public proof functions (`law_*`). Calls into `std::path`, `url`,
  `regex`, `scraper` and `uuid` go through small trusted wrappers whose contracts
  state or name their results.
- `tests/` — tests over the library, run against the real outside crates.
- `app/` — the HTTP server (axum), the file system, the child processes (yt-dlp,
  FFmpeg, curl), HTTP downloads and archive extraction, and the JSON
  (serde) copies of the library's records.

The provider catalog and yt-dlp's extractor domain map are JSON files read when the
server starts (`ONLINE_MEDIA_PROVIDER_CATALOG`, `YTDLP_DOMAINS_FILE`).
