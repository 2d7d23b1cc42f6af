# servers

Two servers of a packet network whose packets travel over drones, written in
Verus and proved against their contracts:

- `ContentServer` answers requests for texts and media.
- `CommunicationServer` registers clients and passes their messages on.

A server is a state machine. It takes packets, messages and commands in, changes
its own state, and returns the actions that are to be done: packets to hand to a
neighbour, reports to the simulation controller, channels to keep or to let go.
Fresh numbers for floods and sessions are handed in by the caller.

## Layout

- `src/` is the library.
  - `packet`, `message`, `action`: the values that servers exchange, with their models.
  - `route`, `graph`: what a server knows of the network, and shortest routes in it.
  - `reassembly`, `session`: messages that come in, and messages that go out, in fragments.
  - `json`, `store`: the texts and media of a content server.
  - `text`: decimal numbers and listings in reports.
  - `node`: the state and the steps that both servers share.
  - `server`, `content_server`, `communication_server`: the servers.
- `tests/` runs the library.
- `app/` is the program around it: channels, folders and the loop that feeds a server.

The contracts speak of the models (`ContentView`, `CommunicationView` and what they
are made of). The proof functions whose names begin with `law_` state what holds of
several steps together.

What is not proved is what `serde_json` does; its calls stand in `src/json.rs`, each
with what is taken for granted of it.

The program also needs the crates `wg_2024` and `dronegowski_utils` of the network
project, which are not on crates.io: they define the wire format, cut messages into
fragments and put the bytes of fragments together.
