# wyy

A desktop player for NetEase Cloud Music, with its decisions verified by Verus.

- `src/` is the verified library:
  - `playback`: the play queue (`Play`), the four play modes, what `next` and
    `previous` do, what is fetched ahead, the mode buttons, and the laws of the
    modes (stop at the ends, go round, repeat, pick at random, undo);
  - `timing`: the progress clock (`Timer` messages, `Clock`), `m:ss` durations,
    album lengths;
  - `lyric`: LRC time tags, lyric lines and the timeline of a lyric;
  - `library`: play list entries, the split of an account's lists, the lookup
    of the liked-music list;
  - `login`: the QR image of the login key (qrcode-generator) and the QR
    login status;
  - `date`: `YYYY-MM-DD` rendering of timestamps (chrono, local time zone);
  - `storage`: cache file names and cookie records;
  - `text`: decimal digits and character helpers.
- `app/` is the Dioxus program around it: pages, the audio sink, downloads,
  the API client and the cookie file.
- `tests/` runs the library on concrete values.
