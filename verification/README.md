# moji

moji (文字) is a macOS LaunchAgent that becomes the only thing on the machine that switches keyboard
layouts. One signal key asks for the next layout; every keystroke that follows is held until the
change is confirmed, and then replayed in the order it was typed. A second signal key retypes what
was just typed in the other layout. Each application is pinned to a layout or gets back the one it
last used.

The library under `src/` decides all of that over plain values and is verified with Verus. The
program under `app/` is what touches the machine: the event tap, Text Input Sources, Accessibility,
launchd, the file system and the command line.

## Layout

- `barrier` - the ordering barrier: which event passes, is swallowed, or waits.
- `history` - what was typed, and what a press of the retype key covers.
- `memory` - which layout each application gets.
- `cycle` - the step from one layout to the next.
- `daemon` - all of them together: one call per thing that happens, one step that comes back.
- `macos::tap` - what an event is to the tap, and the queue of the events it holds back.
- `macos::tis` - which input sources are layouts, and which layout a configured tag stands for.
- `macos::focus`, `macos::workspace`, `macos::timer` - where the keyboard goes, bundle ids, timers.
- `config` - what makes a configuration file usable.
- `service`, `executable` - the launchd agent, and noticing that the binary was replaced.
- `cli` - what the one-shot commands print and pick.
- `ordered`, `text`, `paths`, `clock` - tables in key order, text, paths and time.

Each module models its state as plain data - a `BarrierView`, a `HistoryView`, a `StateView` - and
every function says what becomes of that model. What holds across functions stands as a public
proof function beside them: that a watchdog fires when something is due, that no key is lost, that
keys typed into a switch go out in order, that a retype deletes nothing it does not replace.

Time is counted in whole nanoseconds. That `String::push` appends the character it is given is the
one thing the library takes without proof; it says so in `text`.
