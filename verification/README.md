# datazen

The verified core of the DataZen native database client.

- `src/` is the library, written in Verus:
  - `api` — the shared types (languages, themes, database kinds, connection
    records, query and table snapshots) and the stored codes of languages
    and themes;
  - `model` — the stored configuration, settings and driver results;
  - `service` — what the backend decides: checking and trimming a
    connection draft, mapping configurations to drafts and summaries,
    rendering result cells, reading and writing settings, stamping the
    time of connecting;
  - `store` — the saved connections and settings, with the laws that a
    read gives back what was saved and nothing after a delete;
  - `text`, `textmap` — trimming, decimal numbers, port parsing, and a
    text-to-text map;
  - `i18n` — parsing locale files (through serde_yaml), flattening their
    documents, the locale catalogue and message lookup with English
    fallback;
  - `form`, `roster`, `window`, `display` — the main window's state
    machine: the connection form, the sorted connection list, the reaction
    to every backend answer, and the texts the window shows;
  - `gateway`, `ssh_tunnel` — how a backend reply becomes a result, and the
    refusal to open SSH tunnels.
- `app/` runs it: logging, reading the locale files, the
  backend thread with its tokio runtime, and the loop that hands backend
  answers to the window state.
- `tests/` exercises the library on concrete values.
