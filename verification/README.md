# mibee-eye

The software of a small network camera: it captures frames, encodes them, and
serves them over RTSP, to browsers and to a surveillance platform.

`src/` is the library. It decides and computes, on plain data, and Verus proves
that it does what its contracts say.

| module | what it is about |
| --- | --- |
| `camera` | planar YUV frames: downscaling, flips and turns, row copies, the substream, the encoder's and the capture's loops as state machines |
| `config` | the settings, their defaults, overrides from the environment, validation, the device's identity |
| `streaming` | RTSP requests and answers, authentication, base64, RTP packets, sessions, delivery of access units |
| `web` | the documents and rules of the HTTP interface, partial updates and masked passwords, model uploads, still pictures, the browser stream, the ONVIF relay |
| `gb28181_alarm`, `gb28181_date`, `onvif_alarm` | alarms from detections, and the watch on the platform's clock |
| `service` | what the program decides when it starts, and how it retries |
| `text`, `text_map` | texts as sequences of characters, and a map keyed by texts |

Calls into other packages stand behind small functions marked
`external_body`; a comment above each says what is believed of the call.

`tests/` runs the library. `app/` is the program around it: sockets, devices,
timers, files, and the conversions that these need.
