# ldapmon

An availability monitor for LDAP directory servers. It periodically binds to
(and optionally searches) each configured server, keeps the latest outcome of
each check, and serves an OpenTelemetry-style health report over HTTP.

- `src/` is the verified library (Verus):
  - `config`: configuration model, defaults, sample configuration, file-format
    and path choice;
  - `status`: one server's status and how a finished check updates it;
  - `monitor`: the status store keyed by target id and the plan of check loops;
  - `probe`: the step function that drives a single bind or search check;
  - `health`: classification of a server's status and the service summary;
  - `api`: replies of the configuration endpoint;
  - `text`, `time`: text search/joining and UTC time points.
- `app/` is the program around it: HTTP server, file I/O, LDAP network calls,
  timers and task management.
- `tests/` runs the library on concrete values.
