# audio_player

A terminal audio player. It lists the `mp3` files of a directory, reads
their tags, shows them as a playlist, and plays them one at a time; the
user can play, pause, and move to the next or previous track, which wraps
around at both ends of the playlist.

- `src/` is the verified library: the playlist and its index arithmetic
  (`player/playlist.rs`), the player's state machine (`player/player.rs`),
  how the application reacts to each event (`app/app.rs`, with the event
  and error types in `app/types.rs`), which files of a directory are
  playable (`finder.rs`), and what the user interface shows and sends
  (`view.rs`).
- `app/` is the program around it: the cursive user interface, the rodio
  audio back end, reading tags with lofty, listing the directory, and the
  thread that runs the event loop. Each reaction of the library tells the
  loop what to show and what to ask of the audio back end; the outcome of
  that work goes back to the library.
