# sfu_room

A verified room engine for a selective forwarding unit.

A room holds users, their publications and their subscriptions. `src/` decides: who is
admitted and where a session is placed, which routes a receiver gets and under which
selection, what is relayed between workers, what has to be torn down, what is queued for
whom, when an empty room is removed. Every public function there carries a contract that
Verus proves. A few private items carry contracts that are taken on trust: JSON documents
are written and copied by `serde_json`, room UUIDs are drawn by `uuid`, timestamps come
from `time`. `app/` performs what was decided on asynchronous queues, locks, a router and a
media transport.

| Module | What it holds |
| --- | --- |
| `order`, `ord_map`, `key_index` | ordered keys, ordered maps, indexes |
| `ids`, `transport`, `source_model` | identities and media descriptions |
| `relay`, `route_graph`, `route_laws` | subscriptions, reservations and shared relays |
| `sources`, `producer`, `topology` | publications and the router's view of a room |
| `consumer_setup`, `transport_plan`, `effects` | work that follows a committed change |
| `outbound`, `outbound_laws`, `json` | bounded output queues and broadcast documents |
| `state`, `membership`, `admission`, `publication`, `subscription`, `room_laws` | the state of a room |
| `placement`, `lifecycle`, `definition`, `factory`, `directory`, `manager` | rooms of the process |
| `diagnostics`, `read_model` | what diagnostics show |

Contracts speak of mathematical views: a map for every ordered map, a `Graph` for the route
graph, a `Topology` and a `State` for a room, a `Registry` for the manager. Keys are compared
by identity, never by address.
