# bucklog

A desktop viewer for structured log records that producers publish to a
RabbitMQ queue named `log`.

* `src/` is the verified library (Verus): the timestamp format of log records
  (parsing, formatting, elapsed time), the RabbitMQ settings and their AMQP
  URI, the log store, the state behind the settings form and the log table,
  and the state machine that decides what the background worker does next.
* `app/` is the program around it: file input and output, JSON and YAML
  encoding, the RabbitMQ client and async runtime, and the egui window.
* `tests/` runs the library on concrete values, and compares the timestamp
  format and elapsed-time texts with the `time` and `humantime` crates.
