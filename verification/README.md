# tuxmate_companion

A companion for TuxMate that installs applications listed in the TuxMate
registry with the host's package managers.

- `src/` is the library, verified with Verus:
  - `text` — character-level string operations (trimming, searching,
    splitting, joining) proved against specifications on `Seq<char>`;
  - `package` — registry categories and installation targets;
  - `distro` — distribution families, os-release parsing, host facts;
  - `target_map` — an insertion-ordered map keyed by target;
  - `registry` — registry records, package arguments, package resolution;
  - `probe` — AUR, unfree Nix, and verified Flathub/Snap checks;
  - `generate` — sorting packages by target and composing the command;
  - `tui` — the console screens and their key handling.
- `app/` is the command-line program: arguments, prompts, colours, the
  filesystem, the network and running commands.
- `tests/` exercises the library on concrete values.
