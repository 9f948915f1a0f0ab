# comfy_launcher

A terminal launcher for ComfyUI: it edits the launcher's and ComfyUI's
settings, builds the command line and environment ComfyUI starts with,
manages the ComfyUI checkout and its custom nodes (versions, updates,
installs from the node registry), and shows the launcher's logs.

## Layout

- `src/` is the library, verified with Verus. It holds every screen's state
  and how keys, clicks and the wheel change it; the settings schema and the
  command-line and environment building; the parsers of what `git`,
  `nvidia-smi`, `lspci`, PowerShell and `system_profiler` print; text width,
  truncation and wrapping; and the laws that tie these together (proof
  functions named `law_*` and `lemma_*`).
- `app/` is the program around it: the terminal loop, drawing, files, the
  processes it runs, the clipboard and the network.
- `tests/` runs the library on concrete inputs.

Outside crates are reached from `src/` only through a few trusted items:
`unicode-width` for cell widths (`text::width`, `text::char_width`),
ratatui's layout solver (`layout::split`: pieces end to end in the rules'
order, each rule's exact size whenever all rules fit), and
`str::to_lowercase` / `str::to_uppercase`. The JSON that macOS and Windows
print about their displays is read by `app/` into the library's own types
(`gpu::MacDisplay`, adapter name and memory) with serde, and interpreted in
`src/`.
