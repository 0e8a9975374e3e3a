# aipet

The core of AIPet, an AI-generated desktop pet, as a library verified with
Verus, and the programs around it.

## Layout

- `src/` — the verified library.
  - `types`, `layout_guides`: the atlas layout (nine animation rows of up to
    eight 192×208 frames), pet ids, the creation request and progress.
  - `pipeline`, `creation`, `run_schedule`: the decisions of a creation run —
    the order of its seven steps and where a cancelled task stops, batches
    per strip, retries and back-off, cached and mirrored strips, resuming.
  - `image_ops`, `codec`: chroma-key removal, frame slicing and centring, the
    atlas, and PNG/WebP through the `image` and `webp` crates.
  - `package`: building and checking pet packages (zip, SHA-256).
  - `ai_config`, `ai_reply`, `provider_size`: provider settings, the requests'
    sizes and the replies of DashScope, OpenAI and Gemini.
  - `server_state`, `server_api`, `audit`: the creation server's single task,
    its HTTP answers and its records.
  - `remote`: the desktop side of creating on the server.
  - `state_config`, `monitor`, `window_place`: triggers, watched processes and
    keeping the pet window on screen.
  - `order`, `text`: stable sorting and string helpers the proofs build on.
- `tests/` — tests of the library.
- `app/` — the server binary (HTTP, files, the run loop, the provider client)
  and the desktop pet's commands.

## Running the server

```bash
aipet-server --bind 0.0.0.0:8787 --data-dir ./data --ai-config ./ai-config.json \
  --resources ./assets --prompts ./prompts
```

`--resources` holds `layout-guides/<state>.png`; `--prompts` holds the prompt
templates `base.txt`, `row.txt` and `batch.txt` (see `app/prompts.rs`).
