# sworker

The storage-reservation (SRD) logic of a Crust sWorker, verified with Verus.

- `src/task.rs`: the counter of pending SRD work and the share one turn of
  the main loop hands out (at most 64 units), with the laws that turns
  conserve and drain the work.
- `src/hashes.rs`: the list of sealed SRD directories and how a decrease
  picks the newest and drops those the host deleted.
- `src/increase.rs`: one SRD increase as a step-by-step job: create a
  directory, seal 1024 files named by their digests, write the digest list,
  rename the directory after the digest of that list and record it.
- `src/digest.rs`: SHA-256 through `sgx_tcrypto` (a trusted wrapper).
- `src/random.rs`: the random data sealed into every file, filled once.
- `src/paths.rs`, `src/text.rs`: host paths, file names, hex and decimal.
- `src/host.rs`: the host's decisions: planning enclave calls for a change,
  reading call statuses, collecting a request body under its size limit.
- `app/`: the host program and the enclave glue: SGX enclave loading,
  sealing, randomness, file I/O, threads and the HTTP server.
