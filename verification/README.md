# deskutils

Small desktop command-line utilities with a verified core:

* `backlight` – monitor brightness through `ddcutil`;
* `luksctl` – open, close and inspect LUKS container files;
* `notifi` – dunst notification status for Waybar / Polybar;
* `search` – web search from a launcher, with `!bang` engines;
* `wallpaper` – a random wallpaper through `feh`, `awww` or `swww`;
* `writeback` – the kernel's `Writeback:` memory figure.

`src/` is the library, verified with Verus: argument and output parsing,
the search engines and their URLs, path handling, the status formats, and
the `luksctl` sub-commands as a state machine (`luks_flow`) whose laws
(termination, read-only `status`, rollback of a failed `open`) are proved.
Calls into `urlencoding`, `memchr`, `serde_json` and `rand` go through small
trusted wrappers whose contracts state what those crates document.

`app/` holds the executables: argument parsing with `clap`, processes,
files, D-Bus and the environment. It performs the steps the library decides.
`tests/` exercises the library on concrete values.
