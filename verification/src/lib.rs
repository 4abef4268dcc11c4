//! The logic of a graphical front end for vm-curator, a manager of QEMU/KVM virtual
//! machines: what its windows, dialogs and wizards read, decide and write.
pub mod boot_dialog;
pub mod config_editor;
pub mod create_wizard;
pub mod device_laws;
pub mod dialog_laws;
pub mod display_dialog;
pub mod display_laws;
pub mod folders_dialog;
pub mod import_wizard;
pub mod logger;
pub mod machine_laws;
pub mod multi_gpu;
pub mod network_dialog;
pub mod notes_dialog;
pub mod numbers;
pub mod overlay;
pub mod pci_dialog;
pub mod process;
pub mod script_laws;
pub mod settings;
pub mod single_gpu;
pub mod snapshot;
pub mod spice_laws;
pub mod tagged;
pub mod task;
pub mod text;
pub mod text_laws;
pub mod usb_dialog;
pub mod vm_window;
pub mod window;
pub mod window_laws;
pub mod wizard;
pub mod wizard_laws;
