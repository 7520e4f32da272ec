# Albert Eyes

A terminal face for Albert, a Raspberry Pi NAS with two disks (Al and Bert)
and three backup paths. Albert's face follows the time of day, gets excited
while a backup runs and shows the state of the disks, the Pi and the backups
underneath, in a fixed 55×13 card.

- `src/status.rs` — the status model (disks, Pi, backups).
- `src/render.rs` — one frame per status and face pose; the text of every
  row is specified, the geometry is proved not to depend on either input,
  and the telemetry rows never depend on the face.
- `src/animation.rs` — the animation state machine (gaze, blinks, sip, yawn,
  nod and sleep sequences, backup excitement, touch anger) with its type
  invariant and laws.
- `src/collect.rs` — interpretation of `df`, `findmnt`, `systemctl`,
  `/proc/meminfo`, `/proc/stat`, `/proc/diskstats`, thermal zones and Restic
  output, and CPU/disk activity from consecutive samples.
- `src/cli.rs` — the `--mode` command line.
- `src/text.rs` — character-level helpers (`lines`, `split_whitespace`,
  `trim`, integer parsing and formatting) with their specifications.

`app/` holds the program around it: reading files, running commands, the
terminal loop, the touch-screen listener and the floating-point rates.
