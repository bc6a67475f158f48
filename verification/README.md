# llauncher

The logic of a desktop launcher for Arknights: Endfield, written in Verus
with its behaviour stated as contracts and proved.

- `src/` is the verified library: launch scripts and command lines for
  Linux (Proton), macOS (Wine) and Windows; settings merging; the Windows
  graphics-preference entry and power-plan GUIDs; OptiScaler's ini tuning,
  install layout from its 7-Zip release and install record; the mod
  loader's file moves around a launch and its package entries; the resource
  manifest, its cipher and repair list, and the MD5 and CRC-32 of the bytes
  fed to the digest crates; the update route; Zip64 central-directory
  reading for the pack index; split-archive seeking and worker assignment;
  install-space planning; the transfer registry, retries and the sleep
  inhibitor; game state, session bookkeeping, launch-failure diagnosis and
  the debug report; and the macOS Wine install, a state machine that
  chooses the Wine Staging build, looks up its Endfield module set before
  the large download, installs Rosetta 2 and DXMT on Apple silicon only,
  and puts the modules in last, with the I/O of each step left to `app/`.
- `app/` is the I/O around it: files, processes, the environment. It makes
  no decision of its own; it calls the library.
- `tests/` runs the library on concrete values.

Properties that span calls are proved as `lemma_*` proof functions beside
the code they are about, for example that a graphics entry keeps every value
the launcher did not write and that a second sync of it changes nothing,
that parking and unparking the mod loader undo each other, that a failing
download is attempted exactly once more per retry, that tuning OptiScaler's
ini a second time changes nothing, that an uninstall removes exactly the
files its install recorded, and that a formatted power-plan GUID parses back
to itself.

Not carried out on Windows: raising the UAC prompt for a game that demands
administrator rights, and switching the power plan for a session (the plan's
GUIDs are handled in `src/`, the system call is not made).
