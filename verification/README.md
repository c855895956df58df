# temperpaw

The verified core of the TemperPaw daemon, written in Verus.

`src/` is the library. Each module states its behaviour in `requires`/`ensures`
contracts over `Seq`, `Map` and spec functions, and Verus proves them:

- `text`: character-level string operations (trim, split, join, lists, paths, decimals).
- `accounts`, `auth`: the local accounts, the public-path and access rules, email and
  password validation, registration, sign-in and password change, session claims.
- `startup`, `settings`, `keys`, `secrets`: startup policy (recovery summaries, readiness
  gate, configuration values, Genesis refs), credentials and blob settings, the vault and
  API keys, and the restored platform secrets.
- `os_apps`, `genesis`, `spec_restore`: WASM binaries, reconcile verdicts, the Genesis
  bootstrap, and which verification statuses are restored.
- `agents`, `default_tools`, `agent_config`, `entity`, `bootstrap`: default agent tools and
  their repair, agent configurations, OData entities, and the seeding of agents, souls and
  routes.
- `workspace_fs`, `plan_approval`: the workspace filesystem requests and the plan approval
  decision.

Calls into `argon2`, `base64`, `hex`, `rand`, `anyhow` and the standard clock are made
through small trusted wrappers whose contracts say what those crates document.

`app/` is the daemon around the library: HTTP routes and middleware, the startup
sequence, agent seeding over HTTP, and the WASM integrations. `tests/` exercise the
library.
