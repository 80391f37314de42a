# demikernel

The decisions of a user-space network stack, with proofs: parsing and writing IPv4 and ICMPv4 headers, sorting incoming
frames, answering pings, bringing up a network card through DPDK, and an echo server for TCP. What a function returns or
changes is stated in its contract and proved with [Verus](https://github.com/verus-lang/verus).

- `src/runtime`: packet buffers, errors, addresses.
- `src/demikernel`: the settings.
- `src/inetstack`: the network layer. `protocols/layer1` is the interface to a network card, `protocols/layer3` holds
  IPv4, ICMPv4 and the endpoint that ties them together.
- `src/catnip`: the network card. `port` and `startup` decide which DPDK call is next, from what the calls before it
  returned; `transmit` moves packets in and out of message buffers.
- `src/tcp_server`: the server. `connection` keeps its clients and pending operations, `event_loop` decides what it does
  next, `sgarray` copies bytes in and out of scatter-gather arrays.
- `app`: performs the operations that the library decides on.

Functions whose names start with `law_` state what holds of several operations together: that what is written is read
back, that a ping is answered, that a port comes up as soon as its link does, that the server sends back what it got.
