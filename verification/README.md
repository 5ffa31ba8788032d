# jira_gpui

The presentation and workspace rules of Jira Desk, a desktop overview of Jira
issues and their updates, as a verified library.

`src/` holds the rules, each with a contract proved by Verus:

- `presentation` — issue rows and details, the status filter and search, the
  update feed grouped into ticket cards, the identity directory that never
  shows an account ID, feedback copy for every outcome, timestamps.
- `rich_text_view` — the rendering budget, inline text flows with their styled
  byte ranges, image frames, image states and the names shown for images and
  attachments.
- `live_workspace` — cache identities of the primary and team views, user-set
  selection, the team's account order, what a cached partition shows, and the
  synchronization and read-state decisions.
- `diagnostics` — the fixed-schema diagnostics events, their JSON lines and
  the bounded log files.
- `local_data`, `desktop_integration` — team-member normalization, data
  directories, desktop-entry rewriting and icon validation.
- `responsive`, `dashboard`, `semantic_icons` — layout breakpoints and the
  shell's display decisions.

`app/` is the process around it: file and environment access, the local time
zone, serialized preferences, and sizes in fractional pixels.

`tests/` exercises the library on concrete values.
