# backend

The back end of a calendar: each user has a library of tasks and events,
which requests add, complete, update, delete and list.

- `src/` is the library, verified with Verus: `task` (entries, their kinds
  and times, and the request handlers' logic), `user` (users, their
  libraries, logging in, reading credentials from a request body),
  `account_handler` (the store of users), `properties` (properties that hold
  across operations).
- `tests/` runs the library on concrete values.
- `app/` is the HTTP server (Rocket): it locks the store, asks the account
  service for the user's record, calls the library, and reads and writes the
  store as JSON.
