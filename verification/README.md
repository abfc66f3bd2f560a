# fac

Server logic of a matchmaking card game, verified with Verus.

- `src/` is the verified library. `Database` holds the server's tables
  (players, connected clients, pending authentication requests, games and
  their participants); `DbModel` is its view as sequences of row values, with
  the invariant `DbModel::wf`. Each reducer (`on_client_connected`,
  `on_client_disconnected`, `begin_client_auth`, `auth_server_response`,
  `set_name`, `enter_queue`, `exit_queue`, `create_game`) has a spec function
  on `DbModel` and an executable function proved to match it and to keep the
  invariant. `laws.rs` proves properties that span reducers. `screen.rs` and
  `auth_session.rs` hold the decisions of the game client and of the
  authentication sidecar.
- `app/` is the SpacetimeDB module: the table declarations, and reducers that
  read the tables into a `Database`, check the library's preconditions, run
  the verified reducer and write the tables back.
- `tests/` exercises the library on concrete tables.
