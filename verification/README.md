# BigSound

System-wide audio enhancement: a chain of five audio modules that runs in
PipeWire's filter chain, with a profile per output device.

| Module     | Role                                             |
|------------|--------------------------------------------------|
| BigBass    | psychoacoustic bass enhancement                  |
| BigClarity | treble exciter                                   |
| BigSpace   | stereo widening that leaves the bass as it is    |
| BigCross   | crossfeed for headphones                         |
| BigLoud    | compressor and limiter                           |

## Layout

- `src/` is the library: what the daemon, the clients and the plugins decide and
  compute. Every function has a contract that Verus proves, but for the few that
  call outside functions (named below), whose contracts are taken for granted.
- `app/` holds the programs around it: the daemon on the session bus, the
  command-line client, the window, the offline WAV processor, the LADSPA plugins,
  and the floating-point signal processing.
- `tests/` runs the library on concrete values.

## How the parts work together

The library never runs a tool and never touches a file. The caller does, and
hands over what came of it:

- A request of the bus is a method of `service::BigSoundService`. The result says
  which control values are to be pushed, or why the request is refused.
- `service::BigSoundService::push_step` leads through one push: a failure that
  looks as if the node were gone is followed by a look-up of its id and, where it
  changed, by one retry; the fresh id is kept.
- `background::Background::run_background` leads through a round of the background
  thread: push what changed, keep the output pinned, apply the profile for a new
  default sink.
- Floating-point values are passed as their bit patterns.

The library relies on a few outside functions, each behind a declaration whose
doc comment says what is taken for granted: `serde_json::from_slice` and the
opening of a `serde_json::Value`, `regex::Regex`, `String::from_utf8_lossy` and
`String::push`.
