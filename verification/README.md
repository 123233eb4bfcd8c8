# Aquilla

The engine of a twelve-channel voice gateway: SIP and direct RTP calls, encrypted
media, ED-137 radio signalling, recorder and bridge legs, patch groups, a USB
control panel, and the settings that tie them together.

* `src/` is the library, verified with Verus. It decides and computes: what a
  message means, how it changes the state of the gateway, which packets and
  replies go out, what the consoles are told, what a settings form may hold, what
  the settings pages show.
* `app/` is the program around it: sockets, tasks, sound devices, the database,
  HTTP. `aquilla` runs the engine of the desktop console; `aquilla standalone`
  runs the plain gateway, with its settings in `gateway_config.json` and the
  console's pages from `/usr/share/aquilla/out`.
* `tests/` runs the library.

| modules | what they hold |
|---|---|
| `text` | texts as sequences of characters, numbers, maps of texts |
| `rtp`, `ed137`, `ulaw`, `jitter`, `stream`, `reception` | packets, signalling, sound and its buffer, streams and legs, what comes of a packet |
| `crypto`, `phc` | session keys, packet encryption, passwords and their hashes, digests, key exchange |
| `messages`, `sip`, `dialogue` | SIP messages written, read, and read as they were written |
| `config`, `state`, `events` | settings, the live state, what is announced |
| `calls`, `listener`, `dispatch`, `telemetry` | what changes the state |
| `order` | what holds of the state at all times |
| `form`, `form_errors`, `form_save`, `page`, `page_frame`, `page_text`, `assets` | the settings form and its pages |
| `hid_panel`, `panel_loop` | the control panel, and the loop around its device |

Contracts speak of views: a text is a `Seq<char>`, the state of the gateway a
`GatewayView`. Functions named `law_…` state what holds across calls.
