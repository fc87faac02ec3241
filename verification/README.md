# furumi

The logic of a music player, verified with Verus: the queue, the catalog and its
merging with what peers publish, the listening history, and the devices of one
listener that keep in step.

- `src/` is the library. Each type has a view, a plain value made of sequences
  and integers, and each function states over these views what it does. What
  holds of several functions together stands in public proof functions, beside
  the functions or in `actor_laws.rs`, `device_laws.rs`,
  `device_convergence.rs` and `device_takeover.rs`.
- `tests/` runs the library on concrete values.
- `app/` is the program around it: a console in place of a window, SQLite for
  the settings and for what the devices know, and the ports through which a
  sound device, a music library, an index of how its tracks sound and a network
  node are attached.

The backend is an actor that neither waits nor does input or output. It says
what is to be done in actions, and hears of the outcome in events. Times are
counted in nanoseconds, volumes and positions on a bar in parts per billion.

Some rules are a matter of the network. Functions that need to know how it
compares names or how far apart it finds two signatures take these as arguments,
`names` and `distance`; whether a listen counts is told to the function that
records it. Content identifiers are read everywhere as `ContentId` reads them.
