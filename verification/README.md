# mesh_shell

The decision logic of the MESH development shell, verified with Verus:
effect scheduling with frame, source and transaction budgets; routing of
script events and service commands; service-state bookkeeping with
optimistic writes and their rollback; surface visibility, popovers and
keyboard focus; settings, module and provider changes.

- `src/` is the library. Every function there carries a contract that
  Verus proves; the laws it keeps are public proof functions (`law_*`).
- `tests/` exercise the library on concrete values.
- `app/` is the runtime around it: the clock, serde_json conversions, and
  the loops that hand work to the outside services the program embedding
  the shell provides (`ShellEnvironment`).
