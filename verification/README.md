# bsd-xtcp

TCP socket statistics for FreeBSD and macOS, with the parsing and decision
logic verified by Verus.

## Layout

- `src/` — the verified library (`bsd_xtcp`):
  - `bytes`, `text`: little-endian field decoding, decimal rendering, UTF-8
    decoding and integer parsing of command-line text;
  - `sysctl`: checks on sysctl buffers (pcblist generations, clock rate, OS
    version), with the reads themselves handed in as closures;
  - `platform`: the macOS `pcblist_n` stream parser, the FreeBSD tcpstats
    device record decoder and `kern.file` pid join, and the per-platform
    collection passes over buffers read by the program;
  - `record`, `proto`, `convert`: the per-socket record, the export schema,
    and the conversion, per-state summary and batch metadata;
  - `echo`: the `tcp-echo` command line, token-bucket rate limiter, fixed and
    adaptive connection ramps, and per-port traffic report;
  - `exporter`: per-state socket counts and the Prometheus text rendering.
- `app/` — the programs around the library: system calls (`sysctlbyname`,
  the device ioctl and reads), sockets and threads, signal handling, JSON
  output, the HTTP endpoint, and the command lines that take floating-point
  values. One binary serves as `bsd-xtcp`, `tcp-echo` and
  `tcpstats-exporter`, chosen by the name it is invoked under.
- `tests/` — tests of the library on concrete buffers and arguments.
