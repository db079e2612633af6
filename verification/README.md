# packet_flow

Measures packet loss and latency between hosts and writes the measurements to InfluxDB.

A sender sends a numbered, timed UDP packet at a steady rate. A receiver keeps track of every
sender it hears, counts the numbers that are missing, and measures how long each packet took. A
reporter writes what was measured in batches.

## Layout

- `src/` is the verified library. Sender, receiver and reporter are states that take in events and
  say what is to be done. `config`, `environment` and `error` hold the configuration, `packet` the
  wire format, `measurement` and `influx` what is written. `receiver_laws`, `receiver_runs` and
  `config_laws` state what holds over several steps or of every configuration; the laws of the
  other modules stand at their ends.
- `app/` is the program around it: command line, files, sockets, clocks, signals and logging.
- `tests/` exercises the library on concrete values.

## Running

    packet_flow --mode sender --remote-addr 192.0.2.1:8000
    packet_flow --mode receiver --token TOKEN
    packet_flow --generate-config

Every value can come from the command line, from an environment variable such as
`PACKET_FLOW_RATE`, or from the configuration file; what comes first in this list wins.
