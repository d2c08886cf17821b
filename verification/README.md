# quantum_launcher

The decisions and text handling of a Minecraft launcher, written in Verus
and proved against their contracts.

- `src/` is the verified library. Each module states, over a mathematical
  model (`Seq`, `Set`, spec functions), what its functions return: mod
  removal with its dependency clean-up (`mods`), mod presets (`presets`),
  the loader catalogues of the Fabric-like backends and the look-up that
  fetches them (`version_list`, `fabric`, `fabric_install`), instance
  settings (`instance_config`, `edit_instance`), game logs (`read_log`),
  accounts (`auth`, `startup`), Java downloads (`java`), NeoForge and
  MultiMC imports (`neoforge`, `multimc`), cache clean-up (`clean`),
  exports (`export`), the screens' decisions (`launcher_state`,
  `mods_menu`, `screens`), servers (`server_run`) and the command line's
  layout (`cli`). Calls into `chrono`, `colored`, `owo-colors`,
  `any_ascii`, `urlencoding`, `lzma-rs` and `rust-ini` sit behind small wrappers whose
  contracts are believed, each documented where it stands.
- `tests/` runs the library on concrete values.
- `app/` is the command line around it: argument parsing, reading and
  deleting instance folders, JSON and XML reading, and printing.
