# shed_line

The editing core of an interactive shell prompt, written in Verus: a line
buffer of grapheme clusters with the motions, verbs and ex commands of a modal
editor, the kill ring and commands of an emacs mode, registers, macros, undo,
hints and history expansion; and around it the decisions of the prompt itself:
which key leads to which command, how modes change, what is drawn where, and
what is done about signals.

## Layout

- `src/linebuf/`: the buffer. `buffer.rs` holds its state and the view that all
  contracts speak of; `motion.rs`, `words.rs` and `scan.rs` say what motions
  cover; `change.rs`, `verb_ops.rs` and `verb.rs` what commands make of the
  text; `excmd.rs`, `stash.rs` and `report.rs` the ex commands; `undo.rs`,
  `killring.rs`, `hint_ops.rs` and `history.rs` the rest; `notices.rs` what the
  user is told of bad patterns; `laws.rs` and `undo_laws.rs` what holds across
  commands.
- `src/readline/`: the prompt. `session.rs` is its state; `keys.rs`, `exec.rs`,
  `complete.rs` and `scroll.rs` are what keys do to it; `draw.rs` is what is
  drawn; `simple.rs` is an editor for short inputs.
- `src/layout.rs`, `src/statusline.rs`, `src/signal.rs`, `src/register.rs`,
  `src/editcmd.rs`: the terminal layout, the status line and the prompt text,
  signals, registers, and the commands themselves.
- `src/text.rs`, `src/patterns.rs` and parts of `src/signal.rs`,
  `src/register.rs` and `src/linebuf/report.rs` state what is taken from std
  and from the outside crates without proof.
- `app/`: what talks to the terminal, to files and to processes.
- `tests/`: keys typed and what they lead to, and tests of the parts.

## How it is put together

The shell around the editor (its parser, aliases and history) is asked through
a function of the embedder, `Env::shell`; contracts speak of its answers. The
texts of the prompt are expanded by another, which is handed the shell's exit
status and hands back the one it left; drawing the prompt keeps the status. What
a command needs done outside comes back as an `Effect`; the caller does it and
hands the result to the function that ends the command. What the user is to be
told of a pattern that is none is kept in the buffer until
`LineBuf::take_notices` hands it out.
