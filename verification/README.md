# serpeo

A verified SEO analysis library. Pages are parsed into plain values (titles,
meta tags, headings, images, links), a registry of rule plugins checks each
page and the site as a whole, and the results are grouped and counted for
storage and display. Every function under `src/` carries a contract that
Verus proves, except the small wrappers in `src/web_url.rs`, `src/html_doc.rs`
and `src/seo_plugins/utils/sitemap_parser.rs` that call the `url`,
`scraper` and `roxmltree` crates: their contracts are trusted, not proved,
and most of them only name what the outside call returns.

Layout:

- `src/text.rs`, `src/text_map.rs`: string helpers and an insertion-ordered
  string-keyed map with a `Seq` model.
- `src/web_url.rs`, `src/html_doc.rs`: the trusted boundary to the `url`,
  `scraper` and `roxmltree` crates; each outside call sits in a small wrapper
  whose contract names or states its result.
- `src/seo_plugins/`: page and site rules, the plugin registry, the rule
  configuration, link and sitemap parsing, and the site crawler state.
- `src/html_parser/`, `src/seo_analyzer/`, `src/desktop/`: page analysis,
  the crawler/analyzer state machines and the desktop-side statistics.
- `src/seo_storage/`: storage enums and models, and the grouping and
  counting of stored rule results.
- `app/`: the network side (blocking HTTP fetches) that drives the verified
  state machines.
- `tests/`: runtime tests of the library.
