# w2m

Download a web page (including JS-rendered SPAs) and convert it to Markdown,
downloading inline images alongside.

The library in `src/` holds the converter's logic, verified with Verus:

- `pipeline` — a run as a state machine (`step`): static fetch first, headless
  render when forced or when the page looks like an empty SPA shell, one
  headless retry of an empty extraction, image downloads, the bundle write.
- `extractor`, `converter`, `html` — picking the article (CSS selector or
  readability), collecting its image URLs, rewriting image sources to the
  downloaded copies, HTML to Markdown.
- `cli`, `config` — how command-line flags, per-host config and built-in
  defaults combine, and the output directory derived from the URL.
- `assets`, `output`, `report`, `renderer`, `error` — file names of the
  images, the `index.md` text and its frontmatter, the summary figures,
  browser failures and exit codes.
- `text`, `web_url` — string helpers and URLs (parsed by the `url` crate).

`app/` is the `w2m` command: argument parsing, config file, HTTP, Chrome,
file system and the loop that performs the state machine's actions.
