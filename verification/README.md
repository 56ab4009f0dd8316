# tdfu_cli

The command-line half of `thingino-dfu`, which flashes Ingenic XBurst devices over USB with DFU,
on the bus of the machine it runs on or through a `dfu-remote` daemon.

`src/` is the library, verified with Verus:

| module | what it decides |
| --- | --- |
| `cli`, `plan` | what the options mean, which combinations are refused, and the fixed order of the actions |
| `images`, `loaders` | which local files a run needs, in which order, before any device is touched |
| `target`, `list`, `alt` | which device, which row, which alt-setting |
| `run` | a run on the bus: a session from event to next action |
| `remote` | a run through a daemon: frames, refusals, the streamed and checked read, and its own session |
| `render` | the listing, the progress counter, and text that is safe to print |
| `exit`, `logging`, `banner`, `wait` | exit codes, verbosity, the first line, and the pauses |

Both sessions hand out an action and take back an event, and never touch a device themselves.
What holds of every run stands beside them as `law_..` proof functions: an action runs once and in
its slot, success means that everything asked for was done, a number that is sent names the
bus and address that were picked as long as the list has them, only a bootrom is uploaded to, a wait
ends.

`app/` is the program: the option parser, the files, the socket and the USB stack. It does what a
session asks and reports back. It needs the `tdfu_core`, `tdfu_proto` and `tdfu_usb` crates of the
same workspace.

`tests/` drives the sessions against a scripted daemon and a scripted bus.
