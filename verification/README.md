# ipc

Supervision of child processes on Unix, verified with Verus.

- `src/` is the verified library:
  - `backoff`: the restart backoff policy (quadratic delays after quick
    failures, reset after a long run) and its laws;
  - `supervisor`: the decisions of the loop that keeps a process running and
    of its shutdown;
  - `syscall`: checking libc return values and interpreting `waitpid`;
  - `process`: interpreting `fork`, pid conversions, and the record of a
    child's exit status;
  - `status`: exit statuses.
- `app/` runs the processes, threads, locks and IPC channels around it:
  `ManagedProcess`, `Process`, `fork`, and the libc calls.
- `tests/` exercises the library.
