# knack

The core of the `knack` command line, verified with Verus.

A skill is a folder with a `SKILL.md`. `knack` packs it, publishes it in versions, links
it into the agents of a machine, records its runs and tells how they went. Skills live
in a repository of one's own or in the cloud.

- `src/` is the library. It holds the rules, the formats, the statistics and the step by
  step decisions of every command, each with its contract. Files, processes and the
  network are none of its business.
- `tests/` runs the library on concrete values, with the crates it calls linked in.
- `app/` is the command line itself: arguments, files, git, HTTP.

## Modules

| module | what it holds |
| --- | --- |
| `text`, `numbers`, `order`, `time` | text, decimal numbers, sorted maps, moments and days |
| `json`, `yaml`, `archive`, `ids` | values that other crates read and write |
| `errors`, `output`, `config`, `tls` | errors and exit codes, envelopes, the profile |
| `slug`, `frontmatter`, `skill_pack`, `skill_validators` | the shape of a skill and its archive |
| `github` | day files of runs, statistics, remotes, other people's repositories |
| `api` | requests to the server, its errors, the session |
| `commands` | what each command decides and tells |

## Agents

`commands::install::targets::targets()` lists the coding agents that are known by name.
One is left out of that list: Anthropic's own command line agent. A caller that serves it
puts an `AgentTarget` for it before the others, with `Anchor::Own` for the directory that
it keeps, and hands the list to `find`, `names` and `resolve_targets`, which know no other
agents than those of the list that they are given.

## What is trusted

Text, digests, archives and dates are the work of other crates. Each call into one of
them is a small function marked `external_body` whose comment says what is claimed of it.
A result that cannot be stated in a few lines has a name, such as `json_parsed`, and the
contracts speak of that name.

Rates of success are kept as two counts. Only `app/` turns them into floating point
numbers.
