# crabfetch

A command-line system information fetcher for Linux: it gathers details of the machine
(OS, host, CPU, GPU, memory, mounts, displays, packages, shell, terminal and more) and prints
them beside an ASCII art logo, as a configuration file lays them out.

The program is split in two.

- `src/` is the library, written in Verus. It holds the logic: how each entry is read from the
  text that the system gives (`/proc`, `/sys`, package databases, `os-release`, EDID blocks,
  `pci.ids`, ...), how placeholders and colors are filled in, how titles, segments and the ASCII
  art are laid out, and how the package cache merges what several package managers report. Every
  function carries a contract. Verus proves each body against it, except for a few small
  functions marked `#[verifier::external_body]`, each of which makes one call into std or an
  outside crate (`colored`, `chrono`, `which`, `shellexpand`, `strip-ansi-escapes`, `raw-cpuid`,
  `humantime`): their contracts are trusted, and their doc comments say what they claim.
  - `text.rs`: the string toolkit and its specifications (search, split, replace, trim,
    numbers in decimal and hexadecimal, byte lengths).
  - `color.rs`, `module.rs`: colors, color placeholders and the common layout of an entry.
  - `modules/`: one file per entry.
  - `package_managers.rs`, `versions.rs`, `process_info.rs`, `gtk.rs`, `config.rs`,
    `fetch.rs`: the package cache, program versions, process details, GTK settings, where the
    configuration lives, and the final layout.
- `app/` is the program around it: command-line parsing, reading files, directories and the
  environment, system calls, the display servers and D-Bus, and the floating-point formatting
  of sizes and percentages. It hands the library plain values and prints what comes back.

`tests/` runs the library on concrete inputs.
