# mural

The logic of the mural wallpaper daemon and of its control program `muralctl`, written and
proved in Verus: the JSON wire protocol, the configuration, the wallpaper library with its
history and shuffle bag, the cache of the world (tiles, manifests, selections) and the command
line.

- `src/` is the verified library. Each type has a view, each function a contract over views,
  and the modules that end in `_law` hold what is proved of several functions together.
- `tests/` runs the library on concrete values.
- `app/` is `muralctl` around the library: files, sockets, processes, threads and the
  single-precision geometry of the renderer.

The library never touches the disk. What an action needs to know of it comes in as a value
(`Disk`, `StoredText`, `StoredLayout`, `CacheFiles`), and what is to be written comes out as
text.

Pictures are decoded, resampled and laid over one another by the `image` crate, behind the
wrappers at the top of `src/mosaic.rs`; these, `push_char` in `src/text.rs` and `char_from` in
`src/json.rs` are all that is trusted.
