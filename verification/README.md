# hook-notify

Desktop, sound, terminal-bell and webhook notifications for the hook events
of a coding assistant, with the decision logic verified by Verus.

For each hook event the program reads the session transcript, works out
what happened (a finished task, a question, a plan, an API error, a session
limit), extracts a short summary, decides whether and how loudly to notify
(priorities, cooldowns, content de-duplication, filters, whether the user is
at the terminal), and delivers the notification on the channels of its
priority.

## Layout

- `src/` — the verified library: transcript analysis and status detection,
  summary extraction and Markdown cleaning, priorities, suppression rules,
  the decision engine, session state, configuration defaults and layering
  (including the YAML deep merge), webhook payloads and retry schedule,
  delivery plans and the tally of a delivery round, and the text handling of
  the platform back-ends. Contracts are stated over plain values (`Seq`,
  views); public proof functions state the laws that relate several calls.
- `tests/` — tests of the library on concrete values.
- `app/` — the command-line program: argument parsing, files, standard
  input, the platform commands, sound playback, HTTP requests and logging.

Configuration is read from `config/default-config.yaml` under the plugin
directory, then the user's global configuration file, then the project's
own configuration file, each layer laid over the previous one.
