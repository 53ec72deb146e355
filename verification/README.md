# planner

A small productivity planner: users, recurring tasks and their daily
instances, served over HTTP and stored in MySQL.

- `src/` is the verified library (Verus): text primitives (`text`), dates,
  route parameters, query strings and page macros (`util`), recurring-task
  schedules and SQL scripts (`db`), the statements and checks of every
  endpoint (`api`), and a static file server's request handling (`server`).
- `app/` is the web service around it (actix-web, sqlx, serde): routes,
  database round trips and JSON.
- `tests/` exercises the library on concrete values.
