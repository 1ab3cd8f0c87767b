# nhop

A rule-based local proxy router. Per connection it decides what the next hop is:
a SOCKS5 upstream or the destination itself. `nhop start` runs the daemon; every
other subcommand is a client that talks to it over a unix socket.

## Layout

- `src/` is the library, verified with Verus. It decides how connections are
  routed, refused and answered, what commands do and what is printed, and touches
  neither the network nor the disk.
  - `rules/` reads rules and decides by them.
  - `proxy/` reads HTTP and SOCKS5 requests, rewrites and answers them, and turns
    a connection into the event it leaves.
  - `upstream/` chooses the route of a connection and judges the upstream.
  - `daemon/` is the state of a running daemon: commands, init runs, listeners.
  - `cli/` plans an invocation, renders answers and makes the diagnostic checks.
  - `ipc/`, `logging`, `names`, `net`, `readback`, `text` and `time` are shared.
- `tests/` runs the library on concrete values.
- `app/` is the program: sockets, files, processes, signals and the command line.

## What is proved

Each public function states what it returns for every input. The functions whose
names begin with `law_` state what holds across functions, among them:

- `never` rules win, the first match decides, and no match is direct;
- `require` traffic never goes direct, and where it is refused the client is told
  the upstream and the rule;
- `prefer` traffic always has a route, and a fallback is reported as one;
- a connection to the front end itself is refused without a dial;
- a load is atomic: nothing that serves traffic moves before it commits, and what
  commits is what the run's own commands declared;
- one probe alone never moves the verdict on the upstream;
- exactly the body of one request is forwarded behind a rebuilt head;
- following the log loses no line and repeats none;
- addresses read back from the text they are written as.

What the library takes from `ipnet`, `humantime`, `serde_json` and the standard
library stands in functions marked `external_body`; their contracts are the part
that is trusted.
