# nvrc

The init of a GPU guest, in two parts.

`src/` is a verified library. It decides what the init does: which modules are loaded
and which daemons are started in each mode, how they are configured, how the init waits
for them, how the clock is set from the host and how the CDI document is completed.
Every function carries its contract, and the laws that span functions are public proof
functions named `law_*`.

| module      | what it decides                                                   |
|-------------|-------------------------------------------------------------------|
| `boot`      | the modes and the order of a whole boot                           |
| `daemon`    | the daemons: arguments, configuration, start                      |
| `nvrc`      | the state of the init: settings, daemons, pending steps           |
| `action`    | the steps that a machine performs                                 |
| `kmsg`      | opening the logs and waiting for markers in them                  |
| `toolkit`   | the CDI document and the mounts of the IMEX configuration         |
| `config`    | updates of `KEY=value` files                                      |
| `gpu_state` | the snapshot of the GPUs that is logged                           |
| `time`      | the synchronization of the clock                                  |
| `text`      | lines, white space, substrings and decimals                       |

`app/` is the program around it. It performs the steps that the library asks for and
reports what came of them.
