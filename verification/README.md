# blog_analytics

The logic of a small self-hosted blog analytics service, verified with Verus.

- `src/` is the verified library: user-agent classification (`classify`),
  signed session tokens and the authentication decisions (`auth`), date
  ranges of stats requests (`dates`), the per-client and per-day aggregations
  behind the RSS and bot pages (`stats`, `timeline`), and the data of the JSON
  answers and dashboard pages (`api`, `dashboard`, `models`).
- `app/` is the HTTP service around it: routing, SQLite storage, templates
  and JSON encoding.
- `tests/` runs the library on concrete values.
