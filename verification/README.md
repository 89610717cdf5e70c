# kitim

A media viewer for terminals that speak the Kitty graphics protocol. It shows
pictures and animations, plays videos with sound, and plays sound alone.

    kitim screenshot.png
    kitim song.mp3
    kitim -z 1.5 clip.webm
    kitim --loop --frame-rate 24 animation.gif

The logic is a library, verified with Verus: what each function returns is
stated in its contract, and what holds of the library as a whole is stated in
public proof functions beside the functions they are about.

## Layout

`src/` is the library. It works on plain values.

- `kitty`, `tmux`, `diacritics`, `image_ids`, `base64_text`: the packets that
  carry a frame to the terminal, directly or through tmux. `kitty_reader` states
  what a terminal reads back from them, `frames` what holds of several frames.
- `ansi`, `status`, `render`: what is drawn on the screen.
- `terminal_geometry`, `video_layout`, `image_viewer`: sizes, and how pictures
  and animations are shown.
- `controls`, `timestamp`: the keyboard.
- `player`, `pump`, `streams`, `setup`: the decisions of the players.
- `audio`, `sample_queue`: sound on its way to the sound card.
- `output`: writing to a busy terminal, and waiting in small steps.
- `media`: which viewer a file is given to.
- `text`: decimal numbers and UTF-8.

`app/` is the program: arguments, files, FFmpeg, the sound card, threads and the
terminal. It holds what is reckoned in floating point.

`tests/` runs the library on concrete values.

## Controls

`f` and `b` jump ten seconds, the left and right arrows five. The up and down
arrows change the volume. `g` asks for a time to jump to, `q` quits.
