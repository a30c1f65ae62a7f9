# rash

Start an `ssh` session or tunnel, watch it, and restart it when it dies or stops
passing traffic.

```
rash [-V] [-M monitor_port[:echo_port]] [-f] [SSH_OPTIONS]
```

`src/` is the library, written in Verus: every decision that rash takes, with
its contract and its proof. `app/` is the program around it: system calls,
sockets, timers and files.

| module | what it decides |
|---|---|
| `cli` | which arguments are rash's and which are ssh's; how a command is quoted |
| `config` | what the command line and the environment resolve to |
| `settings` | what a section of the configuration file comes to |
| `layers` | how a section lies beneath the command line and the environment |
| `start` | whether to run, what to list, and what to print otherwise |
| `plan` | what `--dry-run` prints |
| `supervise` | what to do once ssh is gone, and the supervision loop |
| `backoff`, `double` | how long to wait before the next start |
| `monitor` | how a probe of the tunnel proceeds, and whether it succeeded |
| `log` | where a log line goes |
| `pidfile` | what the pid file holds, and whether it is ours to remove |
| `daemon` | which system call comes next when rash detaches itself |
| `host`, `text`, `time` | addresses, decimal numbers, spans of time |

The loops that wait for the outside world are written as state machines. The
library is told what happened and answers with what to do next; `app/` performs
the action and reports back. What holds of every run, and of every probe, is
proved over all the series of events that can happen (`supervise/laws.rs`,
`monitor/laws.rs`).
