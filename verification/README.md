# spela

The decisions of a small media server that finds a film, fetches it over BitTorrent, transcodes
what needs it and plays it on a screen: what to play from where, in which form, from which
position, when a stream has ended or must be loaded again, and what is remembered of it.

`src/` is the library. It is written in Verus, and every function of it is verified against its
contract; what it takes on trust from outside crates is marked and described where it stands.
`app/` is the server around it: the HTTP surface, the torrent session, files, programs and clocks.
`tests/` runs the library.

| Module | What it decides |
|---|---|
| `play_flow`, `playback` | the course of a play request, its destination, position and form |
| `cast_health` | whether a receiver still plays, and what to do when it does not |
| `reaper` | when a stream is over, and what is kept and learned of it |
| `state`, `state_laws` | positions, the ledger of what was watched, detections, history |
| `local_bypass`, `validation`, `titles` | which file on disk stands for a title, and whether it is whole |
| `hls`, `hls_laws`, `hls_cache` | playlists as they are written and as they are served |
| `transcode`, `srt`, `subtitles`, `log_ring` | what ffmpeg is told, and what it says |
| `torrent_engine`, `torrent_stream`, `torrent`, `magnet` | starting, resuming, stopping and serving torrents |
| `requests`, `search`, `show_notes`, `hosts`, `static_files` | the rest of the HTTP surface |
| `text`, `numbers`, `time`, `collections`, `json` | what all of them are written in |

Positions and durations are whole milliseconds, and the durations in playlists microseconds. What
holds across several functions stands as a public proof function beside them.
