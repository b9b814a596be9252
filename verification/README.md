# http_registry

Access to a package registry whose index is served over HTTP, one file per package, verified with
[Verus](https://github.com/verus-lang/verus).

The library decides; it does no input or output. To load an index file, or the configuration of the
registry, it gives one `Step` after the other, each of which says what is to be done next: read the
copy at hand of `config.json`, set up the transport, get a token, send a request. For each there is a
method of `HttpRegistry` that takes what came of it.

- `src/text.rs`, `src/path.rs`, `src/path_map.rs`: text, paths and maps from paths to values
- `src/header.rs`, `src/version.rs`: header lines, versions of files and conditional requests
- `src/login.rs`: where to get a token, as the challenges of a registry say
- `src/response.rs`: what comes of a transfer, the answers and the errors
- `src/downloads.rs`: the downloads under way, their results and the progress
- `src/registry.rs`, `src/load.rs`: the registry and how a file is loaded
- `src/wait.rs`: how the caller waits until files are ready
- `src/laws.rs`: what holds of the registry as a whole
- `app/`: the registry with curl as the transport

Four functions are trusted, not proved: `text_from_utf8` (`core::str::from_utf8`), `parts_of`
(`std::path::Path::components`), `parse_url` (`url::Url::parse`) and `parse_challenges`
(`http_auth::ChallengeParser`). The comment above each says what its contract claims.
