# p2p_udp

The bookkeeping of a small UDP peer-to-peer layer for a game: joining a room on a
rendezvous server, learning this host's public address, and punching holes towards the
other players by probing their ports, with every message a flat JSON object of strings.

`src/` is the verified library:

- `queue`: messages and datagrams; `json`, `wire`: their JSON text; `digest`: MD5 of datagrams.
- `p2p_ip_map`, `p2p_link`: the two probing schemes over a table of peers (`table`);
  `cover`: what one round over a table sends.
- `player_net_ipaddr`: probing by offsets over a list of players.
- `domain`: connectivity tests; `room`, `player`: the room and its players;
  `public_net_ipaddr`: this host's public address; `p2p_value`: actions passed on to players;
  `receive_process`: what a received message calls for.
- `conf`, `net_ip`, `text`: addresses and their text.

`app/` holds the sockets, channels, process-wide state and the client program.
