# ftp_server

The logic of a small FTP server, with its contracts proved by Verus.

- `path`: Unix paths as bytes, and their components.
- `cmd`, `ftp`: the command lines of a client and the answers to them.
- `line`, `text`: ends of lines, numbers, UTF-8.
- `user`: the accounts.
- `listing`: the lines of a directory listing.
- `data`: what arrives over a data connection.
- `session`: the state of a client's session and its steps.
- `client`: the code that takes these steps.
- `path_laws`, `cmd_laws`, `session_laws`: what holds of all paths, commands
  and sessions. A session touches only what lies below the root of the
  server, lets nobody in without an account, and comes to rest after every
  message.

A session performs no input or output. It asks for one action at a time and
goes on with its outcome. `app/` performs the actions, on the event loop of
`mini` and the file system.
