# jj_status

The status of a working copy of a Jujutsu repository: which files changed, which are untracked, what
is in conflict, and the template language that renders it. The library in `src/` is written and
proved in Verus.

- `status_templater`: what a status consists of.
- `status`: gathers a status from what the repository says, and decides what the command shows.
- `displayed`: restricts a status to the paths that are asked for.
- `untracked`: shows untracked files, with directories that hold nothing else in their place.
- `property`, `method_table`, `methods`, `template_language`: the types of a status in templates, and
  their methods.
- `repo_path`, `merge`: paths and merged values, on top of `jj_lib`.
- `decimal`: decimal numbers.

What is taken on trust stands in `repo_path` and `merge`: each such item names the function of
`jj_lib` that it calls.

`app/` reads a repository and hands plain values to the library. The program that the command is part
of supplies the workspace, the settings and the output through the trait `StatusEnvironment`, and
the languages that status templates build on through the trait `TemplateLanguages`.
