# HorriPlayer

A music player for local files and Subsonic/Navidrome servers. Its playback core
is a Verus library: what the player decides is stated in contracts and proved.

| Path | Purpose |
| --- | --- |
| `src/` | The playback core: transport, timeline, mixing, channel layout, HTTP windows, tags, the stream proxy's rules. |
| `tests/` | Tests of the core, with real rings and a real demuxer. |
| `app/` | The desktop application: threads, devices, files, network, and floating-point DSP. |

What the core proves, among other things:

- Nothing plays without a track, whatever the UI asks for and whatever comes of it.
- A queued track begins at exactly the frame where the one before it ends; the
  position restarts there.
- Whatever the callback finds queued when it learns of a seek is thrown away, and
  the decoder goes on only once the ring is empty.
- The position comes from the last marker that has been passed, whatever was
  marked before it.
- At every fill, what is delivered comes in whole frames, in order, and is what the
  decoder pushed; filling a buffer in pieces comes to the same.
- A file in the device's format reaches the ring bit for bit, and full volume and
  a flat equalizer leave it alone.
- Reading over HTTP gives the bytes of the file, at one request per window.
- The address of a proxied stream leads back to its URL, and to HTTP URLs alone.

The rings between the threads are those of the `rtrb` crate. `src/rings.rs` states
what the core relies on of them; `src/text.rs` and `src/names.rs` do so for three
functions of the standard library.
