# yGit

A desktop window for git repositories that live on a Synology NAS, over SSH: it lists them with
their tip commits, shows their history, creates, deletes and clones them, and opens terminals on
the server.

The library under `src/` holds everything the program decides, and Verus proves each function
against its contract. `app/` is the program around it: the egui window, the SSH worker thread, the
git transport process and the files on disk.

| Module | Purpose |
| --- | --- |
| `text`, `order` | text as sequences of characters; a stable order of texts |
| `quote`, `windows` | quoting for the POSIX shell and for Windows command lines |
| `create`, `delete`, `listing`, `detail` | the scripts run on the server, and what their output says |
| `ssh`, `worker`, `remote` | requests and events, what a request takes, how a command ends |
| `hostkey`, `auth` | whether a server is trusted, and how to log in |
| `proxy` | `ygit --ssh-proxy`, the transport git uses for password profiles |
| `terminal`, `clone` | the system `ssh` client, and `git clone` on this machine |
| `config`, `state`, `actions`, `dialogs`, `labels` | profiles, and the state of the window |
| `error` | every failure, and how it is said |

Texts are modelled as `Seq<char>`, and every type of the library has a view made of such texts.
What the library promises as a whole is proved in the functions called `law_...`: quoted words
come back as one word from a shell, what a script prints is read back, nothing outside a
configured root is deleted, a changed host key is always rejected, a session password is held
only while its session is up.

A few functions of the standard library and the fingerprint of a key, which `russh` computes, are
specified and not proved; their doc comments say what is believed of them.
