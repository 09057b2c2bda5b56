# codex_bridge

A library of decisions around Codex behind a local proxy, verified with Verus:

- `config_projection`, `key_paths`, `config_merge`: which part of a Codex
  configuration CCSM owns, its fingerprint, where two configurations differ, and
  how the owned part is written into a configuration without touching the rest.
- `activation`, `consistency`: whether a running app server has taken up the
  managed configuration, whether the live configuration is the expected one, and
  what an action on it comes to. An inspection is a state machine that is told
  what it asks for.
- `multi_agent`: agent messages of Codex, made readable for third parties or
  refused.
- `hosted_tools`, `hosted_tool_calls`: hosted tools that are run locally.
- `endpoints`, `http_headers`, `body_overrides`, `request_policy`: how requests
  to a third-party provider are prepared.
- `text`, `text_map`, `json`, `toml_value`: the data that all of this works on.
- `data_text`, `toml_document`, `digest`: reading, writing and digesting texts
  with outside crates.

Contracts speak of mathematical models of the data; laws that relate several
functions are public proof functions whose names begin with `law_`. `app/` holds
files, the clock and the services of the desktop application.
