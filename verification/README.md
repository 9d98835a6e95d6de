# telecom_client

The client side of a SIP telephone: registration with digest authentication,
outgoing and incoming calls, the media of a call with keys (DTMF), discovery of
the public address by STUN, and records for an observer service.

The library in `src/` decides; it opens no socket and starts no thread. Verus
proves its contracts. The program part in `app/` owns sockets, clocks, threads
and sound devices: it tells the library what happened and does what the library
says.

## Signalling

`engine::SipEngine` takes one `action::EngineInput` at a time and answers with a
list of `action::Action`s. What it does is stated by `session::step_of`, a
function from the state, the input and the numbers drawn to the next state and
the actions. `laws` holds what follows for every state: that the user always
knows the state, that a busy client refuses calls, that an answered invitation
is not repeated, and others.

## Media

`worker::MediaWorker` is the loop of the media thread, cut at every question
that only the outside can answer. `rtp_engine` holds the controls that both
sides share, and forms the packets. `media` has the adapters and what is decided
about sound devices.

## Formats

- `sdp` writes session descriptions, and `utils` reads them.
- `auth` reads challenges and answers them.
- `stun` writes requests and reads mapped addresses.
- `sip` has the messages as far as the client looks at them.
- `telemetry` writes the records.
- `text` has the operations on text that the others share.

## What is taken on trust

The contracts of a few calls are believed: MD5 (`md5`), JSON values and their
text (`serde_json`), and two functions of the standard library on strings.
Random numbers (`rand`) and the clock (`chrono`) are called with nothing
promised of what they return.

## The program part

`app/` uses `tokio`, `tonic`, `cpal` and `ringbuf`, and two companion crates:
`sentiric_sip_core` parses and prints SIP packets, and `sentiric_rtp_core` has
the codecs, the pacing and the packet format of the media.
