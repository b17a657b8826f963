# muaaz

The verified core of Muaaz Desktop, the desktop shell of Muaaz OS.

`src/` is a Verus library. Its functions carry contracts that Verus
proves, except for a few small wrappers around std calls (`String::push`,
`str::to_uppercase`, `str::to_lowercase` and the text of an `io::Error`),
whose contracts restate std's documentation and are trusted rather than
proved:

- `app_id`, `apps`: application identifiers (never blank), applications,
  the registry (registering replaces an entry with the same identifier) and
  the decisions of a launch.
- `text`: whitespace, trimming, line and word splitting, decimal parsing
  and substring search on characters, specified as `str` specifies them.
- `memory`, `cpu`, `battery`, `info`: parsers of `/proc/meminfo`,
  `/proc/stat`, `/sys/class/power_supply` and `os-release` text.
- `system`, `error`: the system services value and its errors.
- `desktop`: the configuration and the shell's decisions (activation,
  launcher search, panel readouts, the default applications).
- `ui`: spacing scale, palette and stylesheet.

`app/` is the GTK 4 / libadwaita program around the library: windows and
widgets, reading files and `PATH`, spawning commands, and the readouts
that are computed in floating point.
