# libp2p-bistream

A network behaviour for libp2p that exposes binary duplex streams. Application code works
directly on any number of bidirectional streams between peers.

The library under `src/` is written in Verus. It holds the state machines, without their
input and output: substreams, channels and handles for replies are type parameters. The
behaviours take the time as an argument; only the reporter asks the clock itself.

- `behaviour`: the behaviour that reports streams by events, and the handler of a connection.
- `behaviour::bistream`: a behaviour that answers each request through the handle that came
  with it.
- `manager`: managed mode, in which streams are opened and accepted through connections,
  outside of the loop that drives the swarm.
- `stream`, `swarm`, `peer`, `base58`, `text`: streams, what is exchanged with the swarm,
  identities and addresses of peers, and how they are shown.
- `peer_map`, `peer_queues`, `queue`: the tables that the state machines keep.
- `cli`, `bench`, `reporter`: the decisions of the program that tests how fast streams are.
- `laws`: what holds of all that as a whole, proved from the contracts' own vocabulary.

`app/` is ordinary Rust around the library: the implementations of libp2p's traits, the
channels of tokio, and the program itself.
