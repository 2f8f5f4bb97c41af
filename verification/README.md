# gestor_container

A container monitor for a docker host, with its decision logic verified by
Verus.

- `src/` is the verified library:
  - `ranking`: the order of containers by consumption (CPU, memory, virtual
    size, resident size, all decreasing; ties keep their order), computed by an
    insertion sort over indices and proved unique.
  - `consumers`: the selection that keeps the two highest and the three lowest
    consumers and stops every other container but the log container, proved
    not to depend on the order in which the containers are listed when no two
    containers consume alike (with ties, ties keep their listed order).
  - `cpu_classes`: the split of containers by CPU thresholds.
  - `docker`: the lookup of the log container as a state machine fed with the
    outputs of `docker-compose up`, `docker ps` and `docker inspect`, and the
    outcome of `docker stop`.
  - `report`, `submission`: the text of the memory reports, of the log entry
    (stamped from a Unix time that app/ reads from the clock) and of the
    submission endpoint's answers.
  - `sysinfo`: the cleanup of the system information text before it is parsed.
  - `text`: decimal text of integers, and the contracts of the few std string
    functions the library calls.
- `app/` runs the commands, reads the files, serves and sends HTTP, and
  converts the measured fractions (floating point) into order keys.
- `tests/` exercises the library on concrete values.

The first argument of the program picks what runs: nothing for the monitor,
`servicio` for the CPU report, `deployment` for the submission endpoint.
