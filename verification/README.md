# herdr-worktree-picker

A Herdr plugin that creates and focuses Git worktrees from local branches,
remote branches, the current `HEAD`, or another branch as the base.

The picker's behaviour is a verified library (`src/`), proved with Verus:

- `app.rs` — the picker as a state machine: a key or the result of outside
  work goes in, the next state and the outside work to start come out.
- `git.rs` — branch lists, `HEAD`, name validation, how a branch is opened,
  and upstream tracking, computed from Git's answers.
- `github.rs` — pull-request listing, branch names for pull requests, and the
  checks before a pull request's worktree is created.
- `herdr.rs` — what is read from Herdr's answers and the arguments of the
  Herdr commands.
- `screen.rs` — the text of every screen.
- `launch.rs` — entry points and the popup command.
- `laws.rs` — properties that hold across the picker's operations.
- `domain.rs`, `json.rs`, `text.rs` — the values the rest works on.

`app/main.rs` runs the program: it reads the environment, runs `git` and
`herdr`, keeps the terminal, and feeds what it learns to the library.

The pull-request route (`open-pr`) is accepted but opens the branch picker:
the picker's state machine has no pull-request screen. Listing pull
requests, naming their branches and checking them before creation are
verified functions of `github.rs` and `screen.rs`, but no screen of the
picker drives them yet.
