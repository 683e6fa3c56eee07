# matroska_demuxer

A demuxer for Matroska and WebM container files, written and proved in Verus.

`MatroskaFile::open` reads the EBML header of a file, locates the top level elements of its segment
(by the SeekHead element, or by a walk along the elements if that lists nothing), and reads the
segment information and the tracks. Its contract says for every file what is returned, and for every
failure which error.

- `src/source.rs`: what a file is, and where its octets come from
- `src/number.rs`, `src/vint.rs`: numbers in the file
- `src/element_id.rs`, `src/enums.rs`: the elements and enumerations of the format
- `src/ebml.rs`, `src/fields.rs`: elements, their data and their children
- `src/header.rs`, `src/info.rs`, `src/track.rs`: the values that are read
- `src/seek.rs`: the positions of top level elements
- `src/file.rs`: a file as a whole
- `src/shift.rs`: files that hold the same octets at other positions
- `src/laws.rs`: what holds of the demuxer as a whole
- `app/`: opening files through `std::io`

Floating point numbers are kept by their bits; `app/` turns them into `f64`.
