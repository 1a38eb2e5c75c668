# zed_ios

The logic of Zed for iPadOS, written in Verus: connecting to a host over SSH, bringing the remote
server into its place, forwarding ports, keeping and restoring sessions, editing text, handling
keys and touches, and laying out what is drawn.

- `src/` is the library. Its public functions state what they return or change in `requires` and
  `ensures`, and Verus proves it. What relates several functions stands in the proof functions whose names begin
  with `law_`.
- `tests/` runs the library on concrete values, with the outside crates linked.
- `app/` is ordinary Rust around the library: the SSH connection, the files, the helper process
  and the arithmetic of floating-point geometry.

Calls into outside crates stand behind small wrappers in `src/`. What is taken on trust about each
call is said in the comment above its wrapper.
