# tuxvdmtool

Sends Apple's vendor-defined USB-C messages (VDMs) from one Apple silicon machine running Linux to
another: reboot it, put it into DFU mode, give it a serial console or bring up DebugUSB. All it
takes is a SuperSpeed Type-C cable between the two DFU ports.

    tuxvdmtool [--bus BUS] [--address ADDRESS] [--connector LABEL] COMMAND

The commands are `reboot`, `reboot serial`, `reboot debugusb`, `serial`, `debugusb`, `dfu`,
`disconnect`, `reset-controller` and `nop`. Run it as root.

For `debugusb` and `reboot debugusb`, success means that Apple's Debug USB device (`05ac:1881`)
appeared in sysfs; an acknowledged message alone is not success. If Linux has stale Type-C state,
only the selected controller is probed again, and the DebugUSB message is retried once: it is sent
in two sessions at the most. The host USB controller is not reset, and the target is not rebooted a
second time.

## How it is built

The library in `src/` makes every decision and does no input or output. It is a function of the
transcript of the host's replies: `tool::next` runs the tool over what has been answered so far and
returns how it ended, or the one action that the host is to perform next. The program in `app/`
performs the action, takes down the reply with its time, and calls `next` again.

Since a run is determined by its transcript, its contract is an equation, and what the tool
promises over time can be proved of every possible host:

- `cd321x` and `protocol`: the controller's commands and messages, with their timeouts
- `sysfs` and `path`: what is looked up and changed in sysfs
- `tool`: which controller is used, what the commands do, and when something is tried again
- `host`: actions, replies and runs
- `text`: the functions of the standard library on text, with the contracts taken on trust
- `laws`, `laws_fault`, `laws_success` and `laws_text`: what holds of the whole
- `trace`, `trace_arm`, `trace_device`, `trace_tool`: the proofs behind them
