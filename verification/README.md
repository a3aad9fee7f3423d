# video-capture-share

Low overhead capture card preview and LAN relay. A capture device is shown in a
window and, if wanted, served as MJPEG over HTTP, so that a second PC can pull
the feed as a browser source.

`src/` is the library: the rules of the program, written in Verus and proved.

- `camera_format`, `devices`, `capture`, `capture_panel`: which mode of a device
  is picked, how devices and modes are listed, what happens to each frame.
- `frame`, `picture`, `layout`, `preview`: the newest-frame slot, what is
  uploaded to the GPU, where the picture goes, what the window's events do.
- `relay`, `stream_laws`: routes, answers and the MJPEG stream, and that a
  reader of the stream gets every image back.
- `nal`, `nal_laws`, `video_stream`, `h264_encoder`: the H.264 stream.
- `audio`, `audio_state`, `playback`, `ring`: the audio passthrough.
- `config`, `settings`, `i18n`, `panel`, `perf`, `icon`, `text`, `bytes`: the
  rest.

Numbers that the devices and the GPU want in floating point are held as their
bit patterns. Outside crates are called through small wrappers whose contracts
say what is relied on.

`tests/` runs the library. `app/` is the program around it: windows, devices,
sockets and files.
