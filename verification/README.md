# win_sys

The Windows system-information layer of a monitoring service: processes,
connections, disks, devices, accounts, services, protection, consents,
firmware tables, event logs and more.

The crate is split in two:

- `src/` is the library, verified with Verus. Every function works on
  plain values — bytes a system call filled, registry values, rows of a
  WMI query — and states in its contract exactly what it returns: the
  decoding of binary records (SMBIOS, USN, process snapshots, NVMe health
  logs, ETW events), the parsing of text (event XML, timestamps, icon
  specifications), the rules that decide what is shown (which services,
  which tasks, which adapters first) and the sort orders.
- `app/` is the Windows side: the Win32, COM and WMI calls that read the
  system, hand the values to the library and return what it decides. It
  also holds what works with floating point (temperatures, battery wear,
  GPU load).

The tests under `tests/` run the library on concrete values.
