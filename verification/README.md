# licensor

A command line tool to pick a LICENSE for your software. `update` downloads
the license catalogue and records its templates in
`~/.config/licensor/licensor.yml`; `select` lets you choose a license and
writes it, rendered with your variables and the special variables `YEAR`,
`MONTH` and `DAY`, to `LICENSE`.

Layout:

- `src/` is the verified library: the configuration and its YAML form
  (`configuration.rs`, `template.rs`, `variable.rs`, over the document model
  of `yaml.rs`), rendering (`render.rs`), the safe paths of archive entries
  (`paths.rs`), the order of template names (`order.rs`) and the command
  line values (`cli.rs`).
- `app/` is the program around it: argument parsing, downloads, unzipping,
  the interactive prompt and the files under `~/.config/licensor`.
