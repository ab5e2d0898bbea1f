# dano

dano checksums the media streams inside files with ffmpeg, records the
checksums in a hash file or in extended attributes, and verifies them later:
a checksum of the streams survives changes of tags and file names.

- `src/` is the verified library: which paths are used and how they are
  ordered, how ffmpeg and metaflac output is read, how fresh checksums are
  checked against the record, which messages are printed and what is written,
  and the older record formats.  Its contracts and laws are checked by Verus.
- `app/` is the program around it: the command line, files, extended
  attributes, the ffmpeg and metaflac processes and the thread pool.
- `tests/` runs the library on concrete values.
