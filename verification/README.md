# vm-curator-gtk

A GTK4/libadwaita front end for vm-curator, a manager of QEMU/KVM virtual machines.

The crate has two parts.

- `src/` is the logic: how a launch script's display settings are read and written, how
  the frame buffer of a running machine is kept, what the buttons, lists, wizards and
  dialogs do. Every function in it carries a contract that Verus proves, but for three
  whose contracts are believed: `logger::parse_filter`, which calls the parser of
  `log::LevelFilter`; `text::lowered`, which calls `str::to_lowercase`; and `String::push`
  of the standard library.
- `app/` is the program around it: widgets, files, processes and the D-Bus.

| Module | What it holds |
|---|---|
| `text`, `numbers`, `tagged`, `process`, `task`, `wizard` | what the others build on |
| `display_dialog`, `display_laws`, `spice_laws` | the display settings of a launch script, and what holds of them |
| `vm_window`, `overlay` | the window and the control bar of a running machine |
| `window` | the list of machines, the one that is selected, launching |
| `create_wizard`, `import_wizard` | making and importing machines |
| `pci_dialog`, `usb_dialog`, `single_gpu`, `multi_gpu` | passing devices through |
| `network_dialog`, `folders_dialog`, `boot_dialog`, `snapshot`, `notes_dialog`, `config_editor`, `settings` | the other dialogs |
| `logger` | what is logged |

Functions whose names begin with `lemma_` serve proofs. The other proof functions state
what holds of several operations together, such as that settings which were written to
a script read back from it.
