# copernicus_viewer

The logic of a viewer for Copernicus EOPF Zarr products, verified with Verus:
locations and S3 credentials, the product hierarchy and its comparison,
the inspector's text, plot requests and the plot workspace, CF flags,
the open-product and download windows' state, and the extraction of
downloaded archives.

- `src/` — the verified library. Public functions state what they return in
  their `ensures`. Where an answer comes from the disk (whether a path is a
  directory, holds `.zgroup`, and so on), nothing is promised of that answer:
  the decision taken from it stands in a function of its own that takes the
  answers as arguments and states its result exactly (`zarr_dir_verdict`,
  `zarr_root_verdict`, `local_root_after_probe`, `open_target_after_probe`,
  `browser_dir_decision`, `can_go_up_given`, `is_safe_dir`). The function
  that asks the disk states its result as that decision for some answers,
  and takes the paths it asks about from functions with exact contracts (`zarr_marker_paths`, `safe_manifest_path`,
  `up_probe_path`). The proof functions named `lemma_*` state the laws that
  hold across calls (round trips of `s3://` URIs and of `s3.conf`, chunk
  tiling, the pixel budget, one plot tab per array, and others).
- The calls whose contracts are trusted stand in `src/host.rs` (`std::path`
  and the filesystem), `src/json_text.rs` and `src/safe/mapping.rs`
  (`serde_json`), `src/text.rs` (`str::chars`, collecting characters),
  `src/debug_text.rs` (`{:?}` of a string), `src/platform.rs` and
  `src/safe/product_type.rs` (`to_lowercase`, `to_uppercase`).
- `tests/` — tests of the library on concrete values.
- `app/` — a command-line front end: it reads the disk, the environment and
  zip archives, and hands what it read to the library.
