# ghr

A user-land binary package manager for GitHub releases: install, track and update CLI tools without
`sudo`, a system package manager, or compiling from source.

`src/` is the library: what the program decides and computes, in functions with contracts that Verus
proves. `app/` is the program around it: arguments, files, the network, prompts and the
terminal. `tests/` runs the library with the crates it calls.

| Module | What it decides |
|--------|-----------------|
| `repo`, `cli` | what the user named |
| `matcher` | which assets fit the machine, how well, and when one stands out |
| `installer` | checksums, archives, names, and what is recorded of an installed tool |
| `install`, `adopt` | whether and which release to install, and whether a binary can be adopted |
| `update` | what to ask for, what the replies mean, what a check reports |
| `sync` | what the manifest lists and is missing, the course of a run, and what is pruned |
| `state`, `pending`, `sorting` | the tools, in order; work that waits; a stable order by name |
| `manifest`, `document` | the pins and aliases, and edits that keep the rest of the file |
| `config`, `paths`, `timer`, `uninstall`, `listing`, `clean`, `output` | files, places and texts |
| `github` | requests and replies of the API, releases and moments |
| `text`, `unicode`, `decimal`, `calendar` | characters, numbers and dates |

What the library takes from other crates (digests, glob patterns, the ordered map, TOML documents,
dates, header values) and from the paths and letters of std comes in through small functions whose
doc comments say what is believed of the call.

Laws that relate several functions are the proof functions whose names begin with `law_`.
