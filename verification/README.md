# dps

A small protocol over CAN in which a master node discovers slave boards,
learns which variables they expose, and reads and writes those variables.

- `src/` is the library, verified with Verus.
  - `common/` holds the message set (`messages`), the bit-level model of a
    payload that the message contracts speak of (`bitfield`), the variable
    types (`types`) and the frames and retry decisions shared by the nodes.
  - `master/node.rs` and `slave/node.rs` are the master and the slave with
    fixed-size tables; `master.rs` and `slave.rs` are nodes of the same
    roles that keep their tables in vectors.
  - The nodes do no bus I/O: they return the frames to send and what to do
    with a received frame.
- `app/` holds the drivers that own a send function and run the retry
  loops, the slave's references to the program's variables, and fuzzing
  generators for the messages.
- `tests/` exercises the library on concrete frames, including complete
  rounds between a master and a slave.
