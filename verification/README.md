# neqo-client

A QUIC client that fetches URLs over HTTP/3 or HTTP/0.9, saves or shows what
comes back, and can upload bytes to measure how long that takes.

`src/` is a library, verified with Verus, that takes every decision of the
client. It never waits and never touches a socket, a file or the clock. A
state machine in it says what to do at once (`Effect`), what to ask for next
(a request), and is told the answer by the method that belongs to the request.

* `args`, `quic`, `setup`: the arguments and what connections are set up with
* `session`: which connections are made, to which servers, for which URLs
* `event_loop`: the loop that a connection is run by
* `http3`, `http09`: what a client does when something happens on a connection
* `http3_runner`, `http09_runner`: a connection from its start to its token
* `requests`, `stream`, `files`, `headers`, `key_update`: the parts of a client
* `http3_laws`, `http09_laws`: what holds over a whole connection
* `urls`, `path`, `text`, `lines`, `effect`, `error`: the vocabulary

Each state machine has a mathematical model: `next` says what an input calls
for, `awaits` which inputs are awaited, and `wf` what always holds. The
methods are proved to follow `next`; the laws are proved of the model.

`app/` is the program around the library: the command line, sockets, timers,
files and the QUIC stack.
