# aa_player

The head unit side of the Android Auto protocol, over USB.

`src/` is the library. What a function promises stands in its contract, and what
holds across functions stands in public proof functions. All of it is proved,
but for the few functions in `tls`, `pki` and `byte_order` whose bodies are calls
into other crates: their contracts are relied on without proof.

| module | what it is about |
| --- | --- |
| `byte_order`, `sequences` | numbers as bytes, sequences of sequences |
| `frame` | frames, and the bytes that they are sent as |
| `packet` | messages with their numbers, split over frames and put together again |
| `pki`, `tls`, `encryption` | credentials, the TLS engine, and the session with the phone |
| `protos`, `control_channel_packets` | the messages as values, and the packets of the control channel |
| `heartbeat`, `packet_router` | pings, and what is done with the packets of a connection |
| `aoa`, `usb`, `usb_stream` | accessory mode, the device that is talked to, and the bytes in its packets |
| `service` | the services: video, audio, microphone and touch screen |

The library does no input or output and reads no clock. Where the next step is
up to the outside, a function takes what has happened and gives what is to be
done. `app/` does it: it opens devices, runs the tasks, encodes and decodes the
messages, and plays sound and video.

Those crates are `rustls`, the TLS engine, and `byteorder`. What is relied on of
each of their functions is said at the function that makes the call.

`app/` looks for the certificates and the key of the head unit in `pki/`:
`ca_cert.pem`, `cert.pem` and `key.pem`.
