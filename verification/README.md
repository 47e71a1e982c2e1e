# rsh

A small interactive shell. The library (`src/`) holds what the shell decides,
with its contracts proved by Verus:

- `parse`: splitting a line into whitespace-separated arguments, refusing NUL characters;
- `exec`: what an argument list asks for (builtins, `>`, `>>`, `<`, `|`, `&&`, programs),
  and the decisions taken while a command runs;
- `shell`: what an input line becomes, the status a finished command leaves, and the prompt;
- `config`: the prompt's colors and separator and how the configurator's answers pick them;
- `status`, `builtin`, `text`: results and error messages, builtin output, text helpers.

`app/` is the program around it: the read loop, fork/exec, file descriptors,
signals and the JSON configuration file.
