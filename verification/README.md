# p2p-tor-chat

A chat between two peers whose streams run through Tor onion services. Each peer runs
its own Tor and onion service; one peer types the other's onion address and the two
connect without any server in between.

The connection is a small handshake. The peer that dials sends an introduction (its
public key and a random nonce) to the other's onion service and forgets the stream. The
other peer calls back twice at the onion address of the key it received, once for a
blocking and once for a nonblocking stream, each time with the nonce; when both have
arrived, the chat opens.

- `src/` is the verified library: base-ten numbers and text helpers (`decimal`, `text`),
  the handshake frames (`handshake`), the table of peers waiting for their callbacks
  (`peers`), onion addresses, nonces and introductions (`onion`), what the listener does
  with each stream (`session`), following Tor's log while it starts (`launch`), the
  growing thread pool (`pool`), and chat texts and image sizes (`chat`).
- `app/` is the program around it: GTK windows, the Tor process and its control
  connection, sockets through the SOCKS proxy, files, and bincode on the wire.
- `tests/` exercises the library on concrete values.
