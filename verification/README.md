# jira_client

The Jira Cloud integration of a kanban board, as a library whose logic is
proved with Verus.

- `src/` — the verified library: the conversion of Atlassian Document Format
  to markdown (`adf`), credentials and `Authorization` headers (`auth`),
  Atlassian OAuth request bodies, answers, refresh decisions and the
  authorize URL (`oauth`), site URL checks and REST paths (`site`, `jql`),
  status and priority mapping, status write-back plans and the recorded
  metadata (`status`, `sync`, `metadata`), issue import decisions (`import`),
  the local issue store's SQL and identifiers (`issues`, `board`), comment and
  summary bodies (`document`, `summary`), local credential encryption
  (`crypto`), and the plain JSON and text helpers they share (`json`, `text`).
  Calls into `reqwest`, `base64`, `hmac`, `sha2`, `hkdf`, `aes-gcm`, `chrono`
  and `urlencoding` stand behind small trusted wrappers whose contracts say
  what those crates document.
- `tests/` — tests of the library on concrete values.
- `app/` — part of the I/O around it: the `reqwest` client for Jira and
  Atlassian, the serde forms of the library's types, `serde_json` conversion,
  and some SQLite statements of the local store (issue search, read and
  update; the Jira connection; status mappings; default statuses). The HTTP
  route handlers are not here: they depend on workspace crates of the
  original project that are not part of this crate.
