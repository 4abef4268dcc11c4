//! The choice of USB devices that are passed through to a machine.
use crate::numbers::{hex4, hex4_text};
use crate::task::{failure_notice, notice_view, passing, Notice};
use crate::text::wrap;
use vstd::prelude::*;
use vstd::string::StringExecFns;

verus! {

/// The versions of USB that a device can have.
#[derive(Clone, Copy, Debug, PartialEq, Eq, Structural)]
pub enum UsbVersion {
    Usb1,
    Usb2,
    Usb3,
}

/// A USB device of the host.
#[derive(Debug)]
pub struct UsbDevice {
    pub vendor_id: u16,
    pub product_id: u16,
    pub vendor_name: String,
    pub product_name: String,
    pub usb_version: UsbVersion,
}

/// A device that is passed through, by its numbers.
#[derive(Clone, Copy, Debug, PartialEq, Eq, Structural)]
pub struct UsbPassthrough {
    pub vendor_id: u16,
    pub product_id: u16,
    pub usb_version: UsbVersion,
}

/// An entry names the device: their numbers are the same.
pub open spec fn names_device(entry: UsbPassthrough, device: UsbDevice) -> bool {
    entry.vendor_id == device.vendor_id && entry.product_id == device.product_id
}

/// One of the entries names the device.
pub open spec fn is_saved(saved: Seq<UsbPassthrough>, device: UsbDevice) -> bool {
    exists|i: int| 0 <= i < saved.len() && names_device(#[trigger] saved[i], device)
}

/// Whether a device is checked at first: one of the entries that were saved names it.
pub fn is_checked(saved: &Vec<UsbPassthrough>, device: &UsbDevice) -> (res: bool)
    ensures
        res == is_saved(saved@, *device),
{
    let mut i: usize = 0;
    while i < saved.len()
        invariant
            i <= saved@.len(),
            forall|j: int| 0 <= j < i ==> !names_device(#[trigger] saved@[j], *device),
        decreases saved@.len() - i,
    {
        if saved[i].vendor_id == device.vendor_id && saved[i].product_id == device.product_id {
            proof {
                assert(names_device(saved@[i as int], *device));
            }
            return true;
        }
        i = i + 1;
    }
    false
}

/// The check marks of the devices at first.
pub fn initial_checks(saved: &Vec<UsbPassthrough>, devices: &Vec<UsbDevice>) -> (res: Vec<bool>)
    ensures
        res@ == Seq::new(devices@.len(), |i: int| is_saved(saved@, devices@[i])),
{
    let mut out: Vec<bool> = Vec::new();
    let mut i: usize = 0;
    while i < devices.len()
        invariant
            i <= devices@.len(),
            out@ == Seq::new(i as nat, |j: int| is_saved(saved@, devices@[j])),
        decreases devices@.len() - i,
    {
        out.push(is_checked(saved, &devices[i]));
        i = i + 1;
    }
    out
}

/// The name of a device.
pub fn title(device: &UsbDevice) -> (res: String)
    ensures
        res@ == device.vendor_name@ + " "@ + device.product_name@,
{
    wrap(device.vendor_name.as_str(), " ", device.product_name.as_str())
}

/// The name of a version of USB.
pub open spec fn version_name(version: UsbVersion) -> Seq<char> {
    match version {
        UsbVersion::Usb1 => "Usb1"@,
        UsbVersion::Usb2 => "Usb2"@,
        UsbVersion::Usb3 => "Usb3"@,
    }
}

/// The line below a device's name: its version, and its numbers in hexadecimal.
pub fn subtitle(device: &UsbDevice) -> (res: String)
    ensures
        res@ == version_name(device.usb_version) + "  ·  "@ + hex4(device.vendor_id as int) + ":"@
            + hex4(device.product_id as int),
{
    let name: &str = match device.usb_version {
        UsbVersion::Usb1 => "Usb1",
        UsbVersion::Usb2 => "Usb2",
        UsbVersion::Usb3 => "Usb3",
    };
    let mut out: String = name.to_string();
    out.append("  ·  ");
    out.append(hex4_text(device.vendor_id).as_str());
    out.append(":");
    out.append(hex4_text(device.product_id).as_str());
    out
}

/// The numbers of the first `n` devices that are checked, in order.
pub open spec fn checked_indices(checked: Seq<bool>, n: int) -> Seq<usize>
    decreases n,
{
    if n <= 0 {
        Seq::empty()
    } else if checked[n - 1] {
        checked_indices(checked, n - 1).push((n - 1) as usize)
    } else {
        checked_indices(checked, n - 1)
    }
}

/// The numbers of the devices that are checked, in order.
pub fn selected(checked: &Vec<bool>) -> (res: Vec<usize>)
    ensures
        res@ == checked_indices(checked@, checked@.len() as int),
{
    let mut out: Vec<usize> = Vec::new();
    let mut i: usize = 0;
    while i < checked.len()
        invariant
            i <= checked@.len(),
            out@ == checked_indices(checked@, i as int),
        decreases checked@.len() - i,
    {
        if checked[i] {
            out.push(i);
        }
        i = i + 1;
    }
    out
}

/// The entries for the first `n` devices that are checked, in order.
pub open spec fn checked_entries(
    devices: Seq<UsbDevice>,
    checked: Seq<bool>,
    n: int,
) -> Seq<UsbPassthrough>
    decreases n,
{
    if n <= 0 {
        Seq::empty()
    } else if checked[n - 1] {
        let d = devices[n - 1];
        checked_entries(devices, checked, n - 1).push(
            UsbPassthrough {
                vendor_id: d.vendor_id,
                product_id: d.product_id,
                usb_version: d.usb_version,
            },
        )
    } else {
        checked_entries(devices, checked, n - 1)
    }
}

/// What is saved: an entry for each device that is checked, in order.
pub fn entries(devices: &Vec<UsbDevice>, checked: &Vec<bool>) -> (res: Vec<UsbPassthrough>)
    requires
        checked@.len() == devices@.len(),
    ensures
        res@ == checked_entries(devices@, checked@, devices@.len() as int),
{
    let mut out: Vec<UsbPassthrough> = Vec::new();
    let mut i: usize = 0;
    while i < devices.len()
        invariant
            i <= devices@.len(),
            checked@.len() == devices@.len(),
            out@ == checked_entries(devices@, checked@, i as int),
        decreases devices@.len() - i,
    {
        if checked[i] {
            out.push(
                UsbPassthrough {
                    vendor_id: devices[i].vendor_id,
                    product_id: devices[i].product_id,
                    usb_version: devices[i].usb_version,
                },
            );
        }
        i = i + 1;
    }
    out
}

/// How the installation of udev rules can end.
#[derive(Debug)]
pub enum UdevInstall {
    Success,
    NeedsReboot,
    PermissionDenied,
    Error(String),
}

/// What is told of the installation of udev rules. Only plain success goes away by itself.
pub fn udev_notice(result: UdevInstall) -> (res: Notice)
    ensures
        notice_view(Some(res)) == (match result {
            UdevInstall::Success => Some(("udev rules installed."@, false)),
            UdevInstall::NeedsReboot => Some(
                ("Rules installed — reboot required to apply."@, true),
            ),
            UdevInstall::PermissionDenied => Some(
                ("Permission denied — run with sudo or install polkit."@, true),
            ),
            UdevInstall::Error(e) => Some(("udev install failed: "@ + e@, true)),
        }),
{
    match result {
        UdevInstall::Success => passing("udev rules installed."),
        UdevInstall::NeedsReboot => Notice {
            text: "Rules installed — reboot required to apply.".to_string(),
            stays: true,
        },
        UdevInstall::PermissionDenied => Notice {
            text: "Permission denied — run with sudo or install polkit.".to_string(),
            stays: true,
        },
        UdevInstall::Error(e) => failure_notice("udev install failed: ", e.as_str()),
    }
}

/// The entries name the devices that are checked, and no device but those that have the
/// numbers of one that is checked.
proof fn lemma_entries(devices: Seq<UsbDevice>, checked: Seq<bool>, n: int, i: int)
    requires
        checked.len() == devices.len(),
        0 <= n <= devices.len(),
        0 <= i < devices.len(),
    ensures
        is_saved(checked_entries(devices, checked, n), devices[i]) <==> exists|j: int|
            0 <= j < n && checked[j] && (#[trigger] devices[j]).vendor_id == devices[i].vendor_id
                && devices[j].product_id == devices[i].product_id,
    decreases n,
{
    if n > 0 {
        lemma_entries(devices, checked, n - 1, i);
        let before = checked_entries(devices, checked, n - 1);
        let now = checked_entries(devices, checked, n);
        if is_saved(before, devices[i]) {
            let k = choose|k: int|
                0 <= k < before.len() && names_device(#[trigger] before[k], devices[i]);
            assert(now[k] == before[k]);
        }
        if is_saved(now, devices[i]) {
            let k = choose|k: int| 0 <= k < now.len() && names_device(#[trigger] now[k], devices[i]);
            if k < before.len() {
                assert(before[k] == now[k]);
            } else {
                assert(checked[n - 1] && devices[n - 1].vendor_id == devices[i].vendor_id);
            }
        }
        if checked[n - 1] {
            assert(now[before.len() as int].vendor_id == devices[n - 1].vendor_id);
            if devices[n - 1].vendor_id == devices[i].vendor_id && devices[n - 1].product_id
                == devices[i].product_id {
                assert(names_device(now[before.len() as int], devices[i]));
            }
        }
    }
}

/// A device that was checked and saved is checked again when the dialog is opened anew,
/// and one that was not is not, unless another device with the same numbers was.
pub proof fn saved_choice_comes_back(devices: Seq<UsbDevice>, checked: Seq<bool>, i: int)
    requires
        checked.len() == devices.len(),
        0 <= i < devices.len(),
        forall|j: int|
            0 <= j < devices.len() && j != i ==> !((#[trigger] devices[j]).vendor_id
                == devices[i].vendor_id && devices[j].product_id == devices[i].product_id),
    ensures
        is_saved(checked_entries(devices, checked, devices.len() as int), devices[i])
            == checked[i],
{
    lemma_entries(devices, checked, devices.len() as int, i);
    if checked[i] {
        assert(devices[i].vendor_id == devices[i].vendor_id);
    }
}

/// What is shown in place of devices: a text if there are none, and nothing if there are any.
pub fn empty_text(devices: usize) -> (res: Option<&'static str>)
    ensures
        res.is_some() == (devices == 0),
        res matches Some(text) ==> text@ == "No USB devices found"@,
{
    if devices == 0 {
        Some("No USB devices found")
    } else {
        None
    }
}

/// What is said where rules are to be installed for no device; nothing where there are any.
pub fn nothing_selected(selected: usize) -> (res: Option<&'static str>)
    ensures
        res.is_some() == (selected == 0),
        res matches Some(text) ==> text@ == "Select at least one device first."@,
{
    if selected == 0 {
        Some("Select at least one device first.")
    } else {
        None
    }
}

} // verus!
