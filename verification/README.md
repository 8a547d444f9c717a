# sets

The rules of a small multiplayer arena game, as a verified library: which arena a name or a
random draw picks, how players take and leave lobby seats, how a round ends and who is
defeated, how defeated players draw and choose modifier cards, what each card changes, how
peers order themselves into seats, how room codes are made and typed, the menus' state, and the control bindings of the
settings screen.

- `src/` is the library, verified with Verus. Every public function has a contract, and the
  properties that relate several functions are proof functions beside them.
- `tests/` runs the library on concrete values.
- `app/` is a small program around the library: the network packets with their JSON
  encoding, the clock, and the game's floating-point arithmetic (movement, card multipliers,
  random fractions), which the library leaves out.
