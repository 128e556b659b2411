# clank-cli

An HTTP load-testing command-line tool, with its core logic verified by
Verus.

* `src/` is the verified library: parsing of durations, methods, headers,
  rate limits and output formats; the configuration file's checks and the
  command line's precedence rules; the token-bucket rate limiter; ramp-up
  scheduling; retry decisions; response validation; statistics; the counted
  parts of the HTML report; and terminal colouring. Every public function
  states its result in its contract, and the laws of the library (the rate
  limiter never runs ahead of its rate, a request never takes more attempts
  than `--retry` allows, every latency lands in one bucket, escaped report
  data never closes its script element, a rate limit reads back as it was
  written, durations written one after the other add up, a request budget
  is never overdrawn, a formatted number reads back as its digits, the
  counters always add up) are proof functions.
* `tests/` runs the library on concrete values.
* `app/` is the program around it: argument parsing with clap, the YAML
  configuration file, the HTTP client, the tokio tasks that run the test,
  the progress bar, and the summaries, whose rates, percentages and
  percentiles are floating point.

Times in the library are integers: milliseconds for the durations that
the user sets (a `u128`, up to `u64::MAX` seconds and 999 milliseconds),
nanoseconds for measured times and the live-stats interval, microseconds
for latencies.
