# godot_bevy

The decision core of a bridge between the Godot engine and the Bevy ECS, written in Verus.

- `src/` decides, on plain values, with its functions verified against their contracts: which ECS
  commands mirror a batch of scene-tree messages and how the node index follows (`scene_tree`,
  `node_index`), how an application is built and which parts of the schedule a callback runs (`app`),
  what an audio command does to the sounds that are playing (`audio`), where a packed scene is loaded
  from and how its instance is put into the tree (`packed_scene`), and how a test waits for an entity
  (`test_app`). Properties that span calls are public proof functions named `law_..`.

  Three functions in `src/scene_tree/reader.rs` are trusted instead: `unbounded_channel`,
  `lock_receiver` and `take_waiting` call `crossbeam-channel` and `parking_lot`. What is believed of
  them stands in their contracts. What comes out of the channel is up to whoever sends into it, so
  nothing is claimed of that.
- `app/` is the bridge as it runs: the node class, the plugins and the systems. It reads the engine
  and the world, and carries out what the library says, in the order that the library says. Left to it
  alone are the calls themselves, the sets and schedules that systems are put into, what a builder or
  a plugin of somebody else does, and the arithmetic of sound.
- `tests/` runs the library on concrete values.

Numbers of the audio engine are carried through `src/` as bit patterns (`Level`); arithmetic on them
is in `app/`.
