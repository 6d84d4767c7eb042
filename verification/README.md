# hbb_common

What the parts of a remote desktop share, verified with Verus:

- `bytes_codec`: length-prefixed frames, over the buffers of the `bytes` crate;
- `password_security`: which passwords are asked for, and how values are encrypted before they are
  stored;
- `secret_store`: the master key of the user's account, and the data encrypted under it;
- `proto_ext`: the features that a controlling strategy disables;
- `platform`: sessions, displays, commands and secret stores of Linux, macOS, iOS, Windows and
  Android.

`base64`, `buffer`, `digest`, `secretbox` and a few functions of `text` hold the contracts of what
is called from other crates and from the standard library: these contracts are believed, all else is
proved.

`src/` makes no system calls. A function that needs the operating system in between takes an event
and returns an action, or is a session that is stepped with replies; the contracts speak of what
the operating system would reply to every call, and say what the function comes to for it. `app/`
performs the actions: it reads the environment, runs commands, and talks to the session bus, the
keychains, the Keystore and the Credential Manager.

The properties that span several functions are the public proof functions whose names begin with
`law_`.
