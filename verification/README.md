# linuxqq-clipsync

Keeps the X11 clipboard and the Wayland clipboard in step, so that programs on either side, such as
QQ for Linux, see what was copied on the other.

The service needs `xclip` and `wl-clipboard`.

## Layout

- `src/` is the library. It decides which of the offered formats to transfer, when a change is only
  the echo of an earlier transfer, and what to write. Its public functions carry contracts that
  Verus proves, and the `law_` functions prove what holds of the service as a whole: above all that
  what was transferred one way is not sent back (`transfer.rs`).
- `src/outside.rs` holds everything that is taken without proof: the XXH3 hash, lossy decoding of
  UTF-8, growing a string, and the system clock. Nothing is claimed of what the clock shows.
- `app/` is the service around the library. It runs the programs, talks to the X11 server, keeps
  what is remembered behind a lock, and prints the reports.
- `tests/` runs the library on concrete clipboards.
