# yeechain

The decision logic of a sharded proof-of-work node, verified with Verus.

- `src/` is the verified library: the shard decision from the best header and
  the requested shard number (`shard_info`), the digest records it reads
  (`digest`), the coinbase and boot-node settlement of the node's parameters
  (`custom_param`), the restart on a committed scale-out (`restarter`), the
  difficulty adjustment (`difficulty`), the mining worker's loop decisions and
  seal time stamp (`worker`), the switch configuration (`switch_config`),
  256-bit difficulties (`wide`), and small helpers (`decimal`, `inherent`,
  `sharding`).
- `tests/` runs the library on concrete values.
- `app/` is the node glue: command-line types, the substrate service and
  consensus plumbing, files and network requests.
