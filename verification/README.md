# wt_event_handler

A relay that polls War Thunder news pages and forum boards and announces new
posts on Discord webhooks.

- `src/` is the verified library: keyword filters deciding which webhook
  clients receive a post, reading titles, previews, images and post links
  from downloaded pages, skipping pinned posts of a listing to find the
  newest one, turning HTML paragraphs into Discord-ready text,
  tracking which URLs each source has seen, time-outs of failing sources,
  run-time statistics, and how the polling loop reacts to fetched posts and
  to failures.
- `app/` is the program around it: configuration files, the interactive
  menu, HTTP requests, Discord delivery and logging.
