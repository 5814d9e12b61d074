# midi-mapper-linux

Maps the controls of a MIDI controller (a Korg nanoKONTROL2) to desktop actions:
media player control over MPRIS, the system volume, muting, and cycling the
default audio output.

- `src/` is the verified library: the actions and what they ask of the system,
  the reading of `pactl` and `qdbus` output, the settings rules, the mapping
  state, the MIDI event handling and the daemon's decisions. Every function
  there carries a contract that Verus proves, except one trusted wrapper:
  `text::push_char`, whose contract (it appends one character, as
  `String::push` documents) is assumed, not proved.
- `app/` is the program around it: the GTK window, the ALSA sequencer, running
  the system tools, and reading and writing the settings file.
- `tests/` exercises the library on concrete inputs.
