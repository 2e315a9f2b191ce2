# propagation_nation

The verified core of Propagation Nation, a web site where people swap plant cuttings.

- `src/` is the library, checked by Verus:
  - `order_key`: the keys by which distances are ordered, and the key of a
    single-precision float taken from its bit pattern (it orders as IEEE-754 does);
  - `point`, `nearest`: points on the map and the nearest-first ordering of
    points by their distance keys (a stable three-way quicksort);
  - `session`: what the server keeps of a signed-in user and what the browser
    keeps in its cookie;
  - `errors`, `auth`: the sign-up, sign-in and password-reset decisions, links
    and mails;
  - `upload`: the user-details form (field dispatch, photo type check, where
    the photo goes);
  - `lists`: the keyed lists of the list pages and the upload status line.
- `tests/` runs the library.
- `app/` is the server program: leptos pages, server functions that talk to
  PostgreSQL, the session store and the mail relay, and the floating-point
  distance between two points.
