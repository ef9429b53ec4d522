# power_msmt

Records the power draw of embedded boards and accelerators from several sources at
once (Jetson, HailoRT and Nvidia GPU hosts over UDP, the u.RECS firmware, a Shelly
plug, a Tektronix oscilloscope over TekHSI, a USB oscilloscope) into Parquet files,
optionally starting a benchmark command while the measurement runs.

- `src/` is the verified library (Verus): the command-line settings and their
  names, the benchmark command and the command line it starts, the rule of one
  source per kind of hardware, the datagram formats of the networked sources, the
  Jetson and fast-firmware sample columns, the endpoints, the oscilloscope setup
  script and curve-stream decoding.
- `app/` is the program around it: argument parsing, sockets, HTTP, files,
  threads, the instrument drivers, and the sources whose samples are floats.
- `tests/` exercise the library on concrete values.
