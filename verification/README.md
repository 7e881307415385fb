# book_studio_ui

The decisions behind the windows of a book studio, as executable Rust whose
behaviour is stated in contracts and proved with Verus: the AI sidebar, the
window of background jobs, the settings window and the choice of a data
directory.

Each window is a value with operations on it. What an operation does is stated
over a view of that value; what the host has to be told or to carry out comes
back as a result or stands in an outbox until the host takes it. What holds of
every window, whatever is done with it, stands in the `*_laws` modules and at the
end of the modules that it concerns.

- `src/` — the library
  - text and sequences: `text`, `seqs`, `json`, `calendar`
  - the sidebar: `scope`, `sessions`, `references`, `document`, `sources`,
    `citations`, `conversation`, `conversation_laws`, `sidebar`, `sidebar_laws`,
    `sidebar_display`, `endpoint`, `citation_script`
  - answers: `controller`, `submission`, `reference_freeze`, `display_markdown`,
    `message_html`
  - background jobs: `jobs`, `job_order`, `block_inspector`, `block_pages`,
    `block_detail`, `jobs_window`, `jobs_display`, `jobs_laws`
  - settings: `settings`, `settings_form`, `settings_fields`, `settings_window`,
    `settings_operations`, `settings_display`, `settings_laws`, `data_directory`,
    `data_dir_setup`, `window_tracker`
- `app/` — sizes on the screen, numbers with fractions, stored forms, awaiting,
  opening windows
- `tests/` — the library from outside

What is believed without proof is what the library takes from outside: Markdown
trees from `markdown`, addresses from `reqwest`, JSON from `serde_json`, random
bytes from `getrandom`, and a few functions on text of the standard library. Each
such item says what it claims.
