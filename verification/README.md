# infrahub_credential_helper

Git credential helpers for Infrahub, as a Verus-verified library and a thin
program around it.

- `src/` — the verified library:
  - `credential_input.rs`: the `key=value` lines of a git credential `get`
    request, the location they ask for, and the reply lines;
  - `askpass.rs`: the prompts of `GIT_ASKPASS` and the credential they ask for;
  - `config.rs`: configuration precedence (environment, TOML file, SDK
    address), the TLS flag, failure messages;
  - `requests.rs`: URLs, authentication choice, request headers, TLS setup;
  - `response.rs`: the GraphQL reply and the credential taken out of it;
  - `text.rs`: character-level helpers.
- `app/` — the executable: command line, environment, files, HTTP.
- `tests/` — tests of the library.
