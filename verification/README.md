# workspace_copy

Duplicates the folder of the focused Herdr workspace into a sibling directory
(`<folder>-copy` by default) and opens the copy as a new Herdr workspace.

The library in `src/` holds the planning and decision logic, verified with
Verus against its contracts:

- `text`: white space, trimming, splitting, joining, decimal numbers.
- `path`: Unix path components, `file_name`, `parent`, `join`, `starts_with`.
- `context`: the plugin context and the copy settings read from the environment.
- `copy`: the copy plan, when it is refused, how each directory entry is handled,
  the counters and the failure messages.
- `json`: JSON values and JSON Pointer lookups.
- `herdr_cli`: judging Herdr CLI runs and replies, finding a pane's directory,
  the steps that resolve the workspace folder, creating the workspace.
- `ui`: the printed summaries and the reading of answers.
- `cli`: the command line, the target path, the names of the copy and the
  steps of the `duplicate` command.

`app/` is the program around it: environment, terminal, file system, the Herdr
process and JSON parsing with serde. It runs the loops that alternate this
outside work with the library's step functions (the `duplicate` flow, the
resolution of the workspace folder, the directory walk), and the search for a
free target name.
