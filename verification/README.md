# nanosandbox

Runs a command under the macOS `sandbox-exec` (Seatbelt) sandbox. The decisions
are a library verified with Verus; the system calls stand in `app/`.

| Module | What it decides |
| --- | --- |
| `profile`, `network_grant` | the Seatbelt profile of a configuration |
| `launch`, `environment` | command line, environment and start-up errors |
| `limits` | which kernel limits the child sets, and the report of a rejected one |
| `processes` | the process tree: what a kill reaches, what memory is counted |
| `wait` | time limit, memory limit, exit status and the result |
| `config`, `error`, `time`, `text` | the types and texts that the others share |
| `executor` | the executor, and whether the system has `sandbox-exec` |

`app/` forks, sets limits, reads the process table, signals and waits. It asks
the library before each step and hands back what the system answered.
