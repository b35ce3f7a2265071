# demucs-ffi

The bindings of the Demucs source-separation engine for Swift, with their
logic verified in Verus.

- `src/` is the library. It decides which models can be loaded, where weights
  are kept, how a download proceeds, what an engine holds, and what a listener
  is told. Every decision has a contract, and the promises that span several
  of them are public proof functions beside the code.
- `app/` is the UniFFI surface around it: threads, locks, files, the network,
  the GPU and floating point. It talks to `demucs-core` and hands the library
  plain values.
- `tests/` runs the library on concrete values.

What is taken on trust is small: `dirs::cache_dir` and
`PoisonError::into_inner` are called with nothing claimed of their results,
and `PathBuf`, `io::Error` and `PoisonError` are carried through unopened.
