//! What the operations on devices of the host do.
use crate::multi_gpu;
use crate::multi_gpu::{
    apply_label, badge_row, gpu_subtitle, passed_devices, shows_problems, status_rows, Choice,
};
use crate::numbers::{decimal_text, hex4_text};
use crate::pci_dialog;
use crate::pci_dialog::{
    brings, ends_address, goes_with, group_note, group_title, leads, lemma_goes_with,
    lemma_marks_hold, parse_saved, parse_saved_address, populate_pci_list, row_before, row_of,
    PciDevice, PciList,
};
use crate::single_gpu::{
    generate_label, gpu_address, gpu_title, make_status_row, ScriptButtons, StatusRow, Support,
};
use crate::task::{Notice, Progress, Step};
use crate::text::{
    has_part, is_space, lemma_find_part, lemma_find_part_is, lemma_find_where_is, occurs_at, texts,
};
use crate::text_laws::part_stands_between;
use crate::usb_dialog;
use crate::usb_dialog::{
    checked_entries, checked_indices, entries, initial_checks, is_checked, names_device,
    udev_notice, UdevInstall, UsbDevice, UsbPassthrough, UsbVersion,
};
use vstd::prelude::*;

verus! {

/// The address of an argument stands behind the first `host=` and goes up to white space or
/// a comma.
pub proof fn address_stands_behind_host(
    arg: &str,
    before: Seq<char>,
    address: Seq<char>,
    behind: Seq<char>,
    res: Option<&str>,
)
    requires
        arg@ == before + "host="@ + address + behind,
        forall|j: int| 0 <= j < before.len() ==> #[trigger] arg@.subrange(j, j + 5) != "host="@,
        forall|i: int|
            0 <= i < address.len() ==> !is_space(#[trigger] address[i]) && address[i] != ',',
        behind.len() > 0 ==> is_space(behind[0]) || behind[0] == ',',
        call_ensures(parse_saved_address, (arg,), res),
    ensures
        res matches Some(found) && found@ == address,
{
    let host = "host="@;
    reveal_strlit("host=");
    let i = before.len() as int;
    assert(host.len() == 5);
    assert(arg@.subrange(i, i + 5) =~= host);
    assert forall|j: int| 0 <= j < i implies !occurs_at(arg@, host, j) by {
        assert(arg@.subrange(j, j + 5) != host);
    }
    lemma_find_part_is(arg@, host, 0, i);
    let rest = arg@.skip(i + 5);
    let n = address.len() as int;
    assert(rest =~= address + behind);
    assert forall|j: int| 0 <= j < n implies !(ends_address())(#[trigger] rest[j]) by {
        assert(rest[j] == address[j]);
    }
    if behind.len() > 0 {
        assert(rest[n] == behind[0]);
    }
    lemma_find_where_is(rest, ends_address(), 0, n);
    assert(rest.take(n) =~= address);
}

/// An argument names no address exactly if `host=` does not stand in it.
pub proof fn no_host_is_no_address(arg: &str, res: Option<&str>)
    requires
        call_ensures(parse_saved_address, (arg,), res),
    ensures
        res is Some <==> exists|x: Seq<char>, y: Seq<char>| #[trigger] (x + "host="@ + y) == arg@,
{
    part_stands_between(arg@, "host="@);
    lemma_find_part(arg@, "host="@, 0);
    if has_part(arg@, "host="@) {
        let i = choose|i: int| occurs_at(arg@, "host="@, i);
        assert(occurs_at(arg@, "host="@, i));
    }
}

/// One argument more adds the address that it names, if it names one, behind the others.
pub proof fn addresses_come_in_order(
    few: &Vec<String>,
    more: &Vec<String>,
    last: String,
    arg: &str,
    one: Option<&str>,
    of_few: Vec<String>,
    of_more: Vec<String>,
)
    requires
        more@ == few@.push(last),
        arg@ == last@,
        call_ensures(parse_saved_address, (arg,), one),
        call_ensures(parse_saved, (few,), of_few),
        call_ensures(parse_saved, (more,), of_more),
    ensures
        few@.len() == 0 ==> of_few@.len() == 0,
        forall|i: int| 0 <= i < of_few@.len() ==> (#[trigger] of_more@[i])@ == of_few@[i]@,
        one is None ==> of_more@.len() == of_few@.len(),
        one matches Some(address) ==> of_more@.len() == of_few@.len() + 1
            && of_more@[of_few@.len() as int]@ == address@,
{
    assert(texts(more@).drop_last() =~= texts(few@));
    assert(texts(more@).last() == last@);
    let a = texts(of_few@);
    let b = texts(of_more@);
    assert(of_few@.len() == a.len() && of_more@.len() == b.len());
    assert forall|i: int| 0 <= i < of_few@.len() implies (#[trigger] of_more@[i])@
        == of_few@[i]@ by {
        assert(b[i] == a[i]);
    }
    if let Some(address) = one {
        assert(b[a.len() as int] == address@);
    }
}

/// A device can be passed through exactly if it is in an IOMMU group and the host does not show
/// its screen on it; it is bound exactly if its driver is `vfio-pci`.
pub proof fn devices_in_a_group_can_be_passed(device: PciDevice, passable: bool, bound: bool)
    requires
        call_ensures(PciDevice::can_passthrough, (&device,), passable),
        call_ensures(PciDevice::is_vfio_bound, (&device,), bound),
    ensures
        passable <==> device.iommu_group is Some && !device.is_boot_vga,
        bound <==> (device.driver matches Some(driver) && driver@ == "vfio-pci"@),
{
}

/// The line below a device names its address and its driver, and marks the driver for passing
/// it through.
pub proof fn device_line_names_the_driver(device: PciDevice, res: String)
    requires
        call_ensures(PciDevice::subtitle, (&device,), res),
    ensures
        device.driver is None ==> res@ == device.address@ + " · "@ + "no driver"@,
        device.driver matches Some(driver) ==> res@ == device.address@ + " · "@ + driver@ + (
        if driver@ == "vfio-pci"@ {
            " (vfio-pci ✓)"@
        } else {
            Seq::empty()
        }),
{
    reveal_strlit("");
    assert(""@ =~= Seq::<char>::empty());
    if device.driver is None {
        assert(res@ =~= device.address@ + " · "@ + "no driver"@);
    }
}

/// The rows are exactly the devices that have a group and that the host does not show its
/// screen on, each once: by their groups from the lowest up, and within a group in the order of
/// the host.
pub proof fn rows_are_the_passable_devices(
    devices: &Vec<PciDevice>,
    companions: &Vec<Option<usize>>,
    saved: &Vec<String>,
    res: PciList,
    a: int,
    b: int,
    d: int,
)
    requires
        devices@.len() <= usize::MAX,
        call_ensures(populate_pci_list, (devices, companions, saved), res),
    ensures
        res.groups@.len() == res.order@.len(),
        res.checked@.len() == res.order@.len(),
        res.companions@.len() == res.order@.len(),
        0 <= a < res.order@.len() ==> {
            &&& res.order@[a] < devices@.len()
            &&& devices@[res.order@[a] as int].iommu_group == Some(res.groups@[a])
            &&& !devices@[res.order@[a] as int].is_boot_vga
        },
        0 <= a < b < res.order@.len() ==> res.groups@[a] < res.groups@[b] || (res.groups@[a]
            == res.groups@[b] && res.order@[a] < res.order@[b]),
        0 <= d < devices@.len() && devices@[d].iommu_group is Some && !devices@[d].is_boot_vga
            ==> exists|k: int| 0 <= k < res.order@.len() && #[trigger] res.order@[k] == d,
{
    if 0 <= a < b < res.order@.len() {
        assert(row_before(res.order@, res.groups@, a, b));
    }
    if 0 <= d < devices@.len() && devices@[d].iommu_group is Some && !devices@[d].is_boot_vga {
        assert(devices@[d].passable());
        assert(res.order@.contains(d as usize));
        let k = choose|k: int| 0 <= k < res.order@.len() && res.order@[k] == d as usize;
        assert(res.order@[k] == d);
    }
}

/// A row is checked at first exactly if its address is among those that were saved.
pub proof fn saved_rows_are_checked(
    devices: &Vec<PciDevice>,
    companions: &Vec<Option<usize>>,
    saved: &Vec<String>,
    res: PciList,
    k: int,
)
    requires
        call_ensures(populate_pci_list, (devices, companions, saved), res),
        0 <= k < res.order@.len(),
    ensures
        res.checked@[k] <==> exists|i: int|
            0 <= i < saved@.len() && (#[trigger] saved@[i])@
                == devices@[res.order@[k] as int].address@,
{
    let address = devices@[res.order@[k] as int].address@;
    let all = texts(saved@);
    if res.checked@[k] {
        assert(all.contains(address));
        let i = choose|i: int| 0 <= i < all.len() && all[i] == address;
        assert(saved@[i]@ == address);
    }
    if exists|i: int| 0 <= i < saved@.len() && (#[trigger] saved@[i])@ == address {
        let i = choose|i: int| 0 <= i < saved@.len() && (#[trigger] saved@[i])@ == address;
        assert(all[i] == address);
        assert(all.contains(address));
    }
}

/// The companion of a row is the row of the device that goes with its device, and there is one
/// exactly if that device has a row.
pub proof fn companions_are_rows(
    devices: &Vec<PciDevice>,
    companions: &Vec<Option<usize>>,
    saved: &Vec<String>,
    res: PciList,
    k: int,
    r: int,
)
    requires
        call_ensures(populate_pci_list, (devices, companions, saved), res),
        0 <= k < res.order@.len(),
        0 <= r < res.order@.len() <= usize::MAX,
    ensures
        res.companions@[k] == Some(r as usize) <==> companions@[res.order@[k] as int] == Some(
            res.order@[r],
        ),
{
    let own = companions@[res.order@[k] as int];
    assert(match res.companions@[k] {
        Some(x) => row_of(res.order@, own) == Some(x as int),
        None => row_of(res.order@, own).is_none(),
    });
    if let Some(d) = own {
        if res.order@.contains(d) {
            let at = res.order@.index_of(d);
            assert(0 <= at < res.order@.len() && res.order@[at] == d);
            if res.order@[r] == d && at != r {
                if at < r {
                    assert(row_before(res.order@, res.groups@, at, r));
                } else {
                    assert(row_before(res.order@, res.groups@, r, at));
                }
                assert(devices@[res.order@[at] as int].iommu_group == Some(res.groups@[at]));
                assert(devices@[res.order@[r] as int].iommu_group == Some(res.groups@[r]));
            }
        } else if res.order@[r] == d {
            assert(res.order@.contains(d));
        }
    }
}

/// The marks hold row `k`, and with each row its whole group and its companion.
pub open spec fn goes_along(
    groups: Seq<u32>,
    companions: Seq<Option<usize>>,
    marks: Seq<bool>,
    k: int,
) -> bool {
    &&& marks.len() == groups.len()
    &&& marks[k]
    &&& forall|a: int, b: int|
        0 <= a < groups.len() && 0 <= b < groups.len() && #[trigger] marks[a] && (groups[a]
            == groups[b] || companions[a] == Some(b as usize)) ==> #[trigger] marks[b]
}

/// Checking a row checks, beside what was checked, the row and the fewest others such that with
/// each of them its whole group and its companion are checked too, and nothing more.
pub proof fn checking_checks_what_goes_along(list: &mut PciList, k: usize) -> (along: Seq<bool>)
    requires
        old(list).groups@.len() == old(list).order@.len(),
        old(list).checked@.len() == old(list).order@.len(),
        old(list).order@.len() <= usize::MAX,
        k < old(list).order@.len(),
        call_ensures(PciList::toggle, (list, k, true), ()),
    ensures
        goes_along(old(list).groups@, old(list).companions@, along, k as int),
        forall|other: Seq<bool>, j: int|
            #[trigger] goes_along(old(list).groups@, old(list).companions@, other, k as int) && 0
                <= j < along.len() && #[trigger] along[j] ==> other[j],
        final(list).checked@.len() == old(list).checked@.len(),
        forall|j: int|
            0 <= j < along.len() ==> #[trigger] final(list).checked@[j] == (old(list).checked@[j]
                || along[j]),
        final(list).order == old(list).order,
        final(list).groups == old(list).groups,
        final(list).companions == old(list).companions,
{
    let groups = old(list).groups@;
    let companions = old(list).companions@;
    let along = Seq::new(groups.len(), |j: int| goes_with(groups, companions, k as int, j));
    lemma_goes_with(groups, companions, k as int, k as int, k as int);
    assert forall|a: int, b: int|
        0 <= a < groups.len() && 0 <= b < groups.len() && #[trigger] along[a] && (groups[a]
            == groups[b] || companions[a] == Some(b as usize)) implies #[trigger] along[b] by {
        assert(brings(groups, companions, a, b));
        lemma_goes_with(groups, companions, k as int, a, b);
    }
    assert forall|other: Seq<bool>, j: int|
        #[trigger] goes_along(groups, companions, other, k as int) && 0 <= j < along.len()
            && #[trigger] along[j] implies other[j] by {
        assert forall|a: int, b: int|
            #[trigger] brings(groups, companions, a, b) && other[a] implies other[b] by {}
        let path = choose|path: Seq<int>| #[trigger] leads(groups, companions, path, k as int, j);
        lemma_marks_hold(groups, companions, other, path, k as int, j);
    }
    along
}

/// Unchecking a row changes no other row.
pub proof fn unchecking_unchecks_one(list: &mut PciList, k: usize, j: int)
    requires
        old(list).checked@.len() == old(list).order@.len(),
        k < old(list).order@.len(),
        call_ensures(PciList::toggle, (list, k, false), ()),
        0 <= j < old(list).order@.len(),
    ensures
        final(list).checked@.len() == old(list).checked@.len(),
        final(list).checked@[j] == (old(list).checked@[j] && j != k),
        final(list).order == old(list).order,
        final(list).groups == old(list).groups,
        final(list).companions == old(list).companions,
{
}

/// The rows among the first `n` that are checked.
proof fn lemma_chosen(list: PciList, n: int) -> (rows: Seq<int>)
    requires
        0 <= n,
    ensures
        rows.len() == list.chosen(n).len(),
        forall|i: int|
            0 <= i < rows.len() ==> {
                &&& 0 <= #[trigger] rows[i] < n
                &&& list.checked@[rows[i]]
                &&& list.chosen(n)[i] == list.order@[rows[i]]
            },
        forall|i: int, j: int| 0 <= i < j < rows.len() ==> #[trigger] rows[i] < #[trigger] rows[j],
        forall|k: int| 0 <= k < n && #[trigger] list.checked@[k] ==> rows.contains(k),
    decreases n,
{
    if n == 0 {
        Seq::empty()
    } else {
        let before = lemma_chosen(list, n - 1);
        if list.checked@[n - 1] {
            let rows = before.push(n - 1);
            assert forall|k: int| 0 <= k < n && #[trigger] list.checked@[k] implies rows.contains(
                k,
            ) by {
                if k < n - 1 {
                    assert(before.contains(k));
                    let i = choose|i: int| 0 <= i < before.len() && before[i] == k;
                    assert(rows[i] == k);
                } else {
                    assert(rows[before.len() as int] == k);
                }
            }
            rows
        } else {
            before
        }
    }
}

/// The devices that are chosen are those of the rows that are checked, all of them, in the
/// order of the rows.
pub proof fn chosen_devices_are_the_checked_rows(list: PciList, res: Vec<usize>) -> (rows: Seq<int>)
    requires
        call_ensures(PciList::selected, (&list,), res),
    ensures
        rows.len() == res@.len(),
        forall|i: int|
            0 <= i < rows.len() ==> {
                &&& 0 <= #[trigger] rows[i] < list.order@.len()
                &&& list.checked@[rows[i]]
                &&& res@[i] == list.order@[rows[i]]
            },
        forall|i: int, j: int| 0 <= i < j < rows.len() ==> #[trigger] rows[i] < #[trigger] rows[j],
        forall|k: int|
            0 <= k < list.order@.len() && #[trigger] list.checked@[k] ==> rows.contains(k),
{
    lemma_chosen(list, list.order@.len() as int)
}

/// A row shares its group exactly if another row is of the same group.
pub proof fn groups_are_shared_by_rows(list: PciList, k: usize, res: bool)
    requires
        call_ensures(PciList::shares_group, (&list, k), res),
    ensures
        res <==> exists|j: int|
            0 <= j < list.groups@.len() && j != k && #[trigger] list.groups@[j]
                == list.groups@[k as int],
{
    if res {
        let j = choose|j: int|
            0 <= j < list.groups@.len() && j != k && list.groups@[j] == list.groups@[k as int];
        assert(list.groups@[j] == list.groups@[k as int]);
    }
}

/// A USB device is checked at first exactly if an entry with both of its numbers was saved.
pub proof fn saved_devices_are_checked(
    saved: &Vec<UsbPassthrough>,
    devices: &Vec<UsbDevice>,
    device: UsbDevice,
    one: bool,
    all: Vec<bool>,
    i: int,
)
    requires
        call_ensures(is_checked, (saved, &device), one),
        call_ensures(initial_checks, (saved, devices), all),
        0 <= i < devices@.len(),
    ensures
        one <==> exists|j: int|
            0 <= j < saved@.len() && (#[trigger] saved@[j]).vendor_id == device.vendor_id
                && saved@[j].product_id == device.product_id,
        all@.len() == devices@.len(),
        all@[i] <==> exists|j: int|
            0 <= j < saved@.len() && (#[trigger] saved@[j]).vendor_id == devices@[i].vendor_id
                && saved@[j].product_id == devices@[i].product_id,
{
    if exists|j: int|
        0 <= j < saved@.len() && (#[trigger] saved@[j]).vendor_id == device.vendor_id
            && saved@[j].product_id == device.product_id {
        let j = choose|j: int|
            0 <= j < saved@.len() && (#[trigger] saved@[j]).vendor_id == device.vendor_id
                && saved@[j].product_id == device.product_id;
        assert(names_device(saved@[j], device));
    }
    if exists|j: int|
        0 <= j < saved@.len() && (#[trigger] saved@[j]).vendor_id == devices@[i].vendor_id
            && saved@[j].product_id == devices@[i].product_id {
        let j = choose|j: int|
            0 <= j < saved@.len() && (#[trigger] saved@[j]).vendor_id == devices@[i].vendor_id
                && saved@[j].product_id == devices@[i].product_id;
        assert(names_device(saved@[j], devices@[i]));
    }
}

proof fn lemma_checked(devices: Seq<UsbDevice>, checked: Seq<bool>, n: int)
    requires
        0 <= n <= checked.len() <= usize::MAX,
    ensures
        ({
            let rows = checked_indices(checked, n);
            let saved = checked_entries(devices, checked, n);
            &&& forall|i: int|
                0 <= i < rows.len() ==> #[trigger] rows[i] < n && checked[rows[i] as int]
            &&& forall|i: int, j: int|
                0 <= i < j < rows.len() ==> #[trigger] rows[i] < #[trigger] rows[j]
            &&& forall|k: int|
                0 <= k < n && #[trigger] checked[k] ==> rows.contains(k as usize)
            &&& saved.len() == rows.len()
            &&& forall|i: int|
                0 <= i < rows.len() ==> {
                    &&& (#[trigger] saved[i]).vendor_id == devices[rows[i] as int].vendor_id
                    &&& saved[i].product_id == devices[rows[i] as int].product_id
                    &&& saved[i].usb_version == devices[rows[i] as int].usb_version
                }
        }),
    decreases n,
{
    if n > 0 {
        lemma_checked(devices, checked, n - 1);
        let before = checked_indices(checked, n - 1);
        let rows = checked_indices(checked, n);
        assert forall|k: int| 0 <= k < n && #[trigger] checked[k] implies rows.contains(
            k as usize,
        ) by {
            if k < n - 1 {
                assert(before.contains(k as usize));
                let i = choose|i: int| 0 <= i < before.len() && before[i] == k as usize;
                assert(rows[i] == k as usize);
            } else {
                assert(rows[before.len() as int] == k as usize);
            }
        }
    }
}

/// The numbers of the devices that are checked: all of them, in order, and no others.
pub proof fn checked_devices_are_selected(checked: &Vec<bool>, res: Vec<usize>)
    requires
        checked@.len() <= usize::MAX,
        call_ensures(usb_dialog::selected, (checked,), res),
    ensures
        forall|i: int|
            0 <= i < res@.len() ==> #[trigger] res@[i] < checked@.len()
                && checked@[res@[i] as int],
        forall|i: int, j: int| 0 <= i < j < res@.len() ==> #[trigger] res@[i] < #[trigger] res@[j],
        forall|k: int|
            0 <= k < checked@.len() && #[trigger] checked@[k] ==> res@.contains(k as usize),
{
    lemma_checked(Seq::empty(), checked@, checked@.len() as int);
}

/// What is saved are the devices that are selected, in that order, each with its own two
/// numbers and its own version.
pub proof fn entries_are_the_selected_devices(
    devices: &Vec<UsbDevice>,
    checked: &Vec<bool>,
    chosen: Vec<usize>,
    res: Vec<UsbPassthrough>,
    i: int,
)
    requires
        checked@.len() == devices@.len() <= usize::MAX,
        call_ensures(usb_dialog::selected, (checked,), chosen),
        call_ensures(entries, (devices, checked), res),
    ensures
        res@.len() == chosen@.len(),
        0 <= i < res@.len() ==> {
            let device = devices@[chosen@[i] as int];
            &&& res@[i].vendor_id == device.vendor_id
            &&& res@[i].product_id == device.product_id
            &&& res@[i].usb_version == device.usb_version
        },
{
    lemma_checked(devices@, checked@, checked@.len() as int);
}

/// The line below a device's name tells its version, and its two numbers in hexadecimal, that
/// of the vendor first.
pub proof fn usb_line_tells_version_and_numbers(
    device: UsbDevice,
    vendor: String,
    product: String,
    res: String,
)
    requires
        call_ensures(hex4_text, (device.vendor_id,), vendor),
        call_ensures(hex4_text, (device.product_id,), product),
        call_ensures(usb_dialog::subtitle, (&device,), res),
    ensures
        res@ == (match device.usb_version {
            UsbVersion::Usb1 => "Usb1"@,
            UsbVersion::Usb2 => "Usb2"@,
            UsbVersion::Usb3 => "Usb3"@,
        }) + "  ·  "@ + vendor@ + ":"@ + product@,
{
}

/// What is told of the installation of udev rules: only plain success goes away by itself, and
/// an error is told with its reason.
pub proof fn udev_installation_is_told(result: UdevInstall, res: Notice)
    requires
        call_ensures(udev_notice, (result,), res),
    ensures
        res.stays <==> !(result is Success),
        result is Success ==> res.text@ == "udev rules installed."@,
        result is NeedsReboot ==> res.text@ == "Rules installed — reboot required to apply."@,
        result is PermissionDenied ==> res.text@
            == "Permission denied — run with sudo or install polkit."@,
        result matches UdevInstall::Error(reason) ==> res.text@ == "udev install failed: "@
            + reason@,
{
}

/// A status row has its title, its subtitle and the sign of its state.
pub proof fn status_row_has_its_sign(title: &str, ok: bool, subtitle: &str, res: StatusRow)
    requires
        call_ensures(make_status_row, (title, ok, subtitle), res) || call_ensures(
            badge_row,
            (title, ok, subtitle),
            res,
        ),
    ensures
        res.title@ == title@,
        res.subtitle@ == subtitle@,
        res.ok == ok,
        ok ==> res.icon@ == "✓"@ && res.css@ == "success"@,
        !ok ==> res.icon@ == "✗"@ && res.css@ == "error"@,
{
}

/// The three prerequisites, each with its own state, are all met exactly if the card can be
/// passed through.
pub proof fn prerequisites_tell_the_support(support: Support, ok: bool, res: Vec<StatusRow>)
    requires
        call_ensures(Support::is_supported, (&support,), ok),
        call_ensures(Support::prerequisites, (&support,), res),
    ensures
        ok <==> support.iommu_enabled && support.vfio_available && support.has_boot_vga,
        res@.len() == 3,
        res@[0].title@ == "IOMMU"@ && res@[0].ok == support.iommu_enabled,
        res@[1].title@ == "VFIO Modules"@ && res@[1].ok == support.vfio_available,
        res@[2].title@ == "Boot GPU"@ && res@[2].ok == support.has_boot_vga,
        res@[0].subtitle@ == (if support.iommu_enabled {
            "Enabled in kernel"@
        } else {
            "Add intel_iommu=on or amd_iommu=on to kernel parameters"@
        }),
        res@[1].subtitle@ == (if support.vfio_available {
            "vfio-pci loaded"@
        } else {
            "Run: sudo modprobe vfio-pci"@
        }),
        res@[2].subtitle@ == (if support.has_boot_vga {
            "Boot VGA device found"@
        } else {
            "No boot VGA device detected"@
        }),
{
}

/// The three rows for the state of the host, each with its own state.
pub proof fn status_rows_tell_the_host(
    iommu: bool,
    vfio: bool,
    client: Option<&str>,
    res: Vec<StatusRow>,
)
    requires
        call_ensures(status_rows, (iommu, vfio, client), res),
    ensures
        res@.len() == 3,
        res@[0].title@ == "IOMMU"@ && res@[0].ok == iommu,
        res@[1].title@ == "VFIO"@ && res@[1].ok == vfio,
        res@[2].title@ == "Looking Glass Client"@ && res@[2].ok == client is Some,
        res@[0].subtitle@ == (if iommu {
            "Enabled"@
        } else {
            "Not enabled — add intel_iommu=on or amd_iommu=on"@
        }),
        res@[1].subtitle@ == (if vfio {
            "Modules loaded"@
        } else {
            "Run: sudo modprobe vfio-pci"@
        }),
        client matches Some(path) ==> res@[2].subtitle@ == path@,
        client is None ==> res@[2].subtitle@ == "Not found — install looking-glass-client"@,
{
}

/// After the host was checked scripts can be generated, and deleted if there are any, exactly
/// if the card can be passed through; else nothing changes.
pub proof fn scripts_need_the_support(
    buttons: &mut ScriptButtons,
    support: Support,
    have_scripts: bool,
)
    requires
        call_ensures(ScriptButtons::checked, (buttons, &support, have_scripts), ()),
    ensures
        support.iommu_enabled && support.vfio_available && support.has_boot_vga ==> {
            &&& final(buttons).generate
            &&& final(buttons).delete == have_scripts
            &&& final(buttons).generating == old(buttons).generating
        },
        !(support.iommu_enabled && support.vfio_available && support.has_boot_vga) ==> {
            *final(buttons) == *old(buttons)
        },
{
}

/// Once scripts were generated, or could not be, they can be generated again; only generated
/// scripts can be deleted then. How it ended is told.
pub proof fn generation_frees_the_button(
    buttons: &mut ScriptButtons,
    progress: Progress,
    res: Step,
)
    requires
        call_ensures(ScriptButtons::generate_polled, (buttons, progress), res),
    ensures
        progress is Done || progress is Failed ==> {
            &&& final(buttons).generate
            &&& !final(buttons).generating
        },
        progress is Pending || progress is Lost ==> *final(buttons) == *old(buttons),
        final(buttons).delete == (old(buttons).delete || progress is Done),
        res.again <==> progress is Pending,
        res.done <==> progress is Done,
        res.notice is Some <==> progress is Done || progress is Failed,
        progress is Done ==> {
            &&& res.notice matches Some(notice)
            &&& notice.text@ == "Scripts generated successfully."@
            &&& !notice.stays
        },
        progress matches Progress::Failed(reason) ==> {
            &&& res.notice matches Some(notice)
            &&& notice.text@ == "Failed: "@ + reason@
            &&& notice.stays
        },
{
}

/// Scripts that were deleted cannot be deleted again; nothing else changes. How it ended is
/// told.
pub proof fn deletion_is_done_once(buttons: &mut ScriptButtons, progress: Progress, res: Step)
    requires
        call_ensures(ScriptButtons::delete_polled, (buttons, progress), res),
    ensures
        final(buttons).delete == (old(buttons).delete && !(progress is Done)),
        final(buttons).generate == old(buttons).generate,
        final(buttons).generating == old(buttons).generating,
        res.again <==> progress is Pending,
        res.done <==> progress is Done,
        res.notice is Some <==> progress is Done || progress is Failed,
        progress is Done ==> {
            &&& res.notice matches Some(notice)
            &&& notice.text@ == "Scripts deleted."@
            &&& !notice.stays
        },
        progress matches Progress::Failed(reason) ==> {
            &&& res.notice matches Some(notice)
            &&& notice.text@ == "Delete failed: "@ + reason@
            &&& notice.stays
        },
{
}

/// The line below a card names its address; a group and an audio device are named behind it
/// where there are any.
pub proof fn card_line_names_group_and_audio(
    address: &str,
    group: u32,
    audio: &str,
    number: String,
    plain: String,
    grouped: String,
    with_audio: String,
    with_both: String,
)
    requires
        call_ensures(decimal_text, (group as u64,), number),
        call_ensures(gpu_subtitle, (address, None::<u32>, None::<&str>), plain),
        call_ensures(gpu_subtitle, (address, Some(group), None::<&str>), grouped),
        call_ensures(gpu_subtitle, (address, None::<u32>, Some(audio)), with_audio),
        call_ensures(gpu_subtitle, (address, Some(group), Some(audio)), with_both),
    ensures
        plain@ == "PCI "@ + address@,
        grouped@ == plain@ + " · IOMMU group "@ + number@,
        with_audio@ == plain@ + " + audio "@ + audio@,
        with_both@ == grouped@ + " + audio "@ + audio@,
{
}

/// A choice that was applied, or could not be, can be applied again, and the card stays chosen.
/// How it ended is told.
pub proof fn application_frees_the_button(choice: &mut Choice, progress: Progress, res: Step)
    requires
        call_ensures(Choice::polled, (choice, progress), res),
    ensures
        final(choice).gpu == old(choice).gpu,
        progress is Done || progress is Failed ==> final(choice).apply && !final(choice).applying,
        progress is Pending || progress is Lost ==> *final(choice) == *old(choice),
        res.again <==> progress is Pending,
        res.done <==> progress is Done,
        res.notice is Some <==> progress is Done || progress is Failed,
        progress is Done ==> {
            &&& res.notice matches Some(notice)
            &&& notice.text@ == "PCI passthrough saved."@
            &&& !notice.stays
        },
        progress matches Progress::Failed(reason) ==> {
            &&& res.notice matches Some(notice)
            &&& notice.text@ == "Failed: "@ + reason@
            &&& notice.stays
        },
{
}

/// A row starts a group exactly if it is the first of its group.
pub proof fn groups_start_with_their_first_row(list: PciList, k: usize, res: bool)
    requires
        k < list.groups@.len(),
        forall|a: int, b: int|
            0 <= a < b < list.groups@.len() ==> #[trigger] list.groups@[a]
                <= #[trigger] list.groups@[b],
        call_ensures(PciList::starts_group, (&list, k), res),
    ensures
        res <==> forall|j: int| 0 <= j < k ==> #[trigger] list.groups@[j] != list.groups@[k as int],
{
    if k > 0 {
        if list.groups@[k - 1] != list.groups@[k as int] {
            assert forall|j: int| 0 <= j < k implies #[trigger] list.groups@[j]
                != list.groups@[k as int] by {
                assert(list.groups@[k - 1] <= list.groups@[k as int]);
                if j < k - 1 {
                    assert(list.groups@[j] <= list.groups@[k - 1]);
                }
            }
        } else {
            assert(list.groups@[k - 1] == list.groups@[k as int]);
        }
    }
}

/// The heading of a group tells its number, and a note below it is there exactly if the group
/// is shared.
pub proof fn group_heading_tells_the_number(
    group: u32,
    number: String,
    title: String,
    shared: bool,
    note: Option<&'static str>,
)
    requires
        call_ensures(decimal_text, (group as u64,), number),
        call_ensures(group_title, (group,), title),
        call_ensures(group_note, (shared,), note),
    ensures
        title@ == "IOMMU Group "@ + number@,
        note is Some <==> shared,
        note matches Some(text) ==> text@ == "All devices in this group must be passed together"@,
{
}

/// The card that is applied is the one that was marked last; taking a mark off changes nothing,
/// and while it is applied it cannot be applied again.
pub proof fn marked_card_is_applied(
    marked: &mut Choice,
    started: &mut Choice,
    gpu: usize,
    active: bool,
    res: Option<usize>,
)
    requires
        call_ensures(Choice::toggled, (marked, gpu, active), ()),
        *old(started) == *final(marked),
        call_ensures(Choice::start, (started,), res),
    ensures
        active ==> final(marked).apply && res == Some(gpu),
        !active ==> *final(marked) == *old(marked) && res == old(marked).gpu,
        res is Some ==> !final(started).apply && final(started).applying,
        res is None ==> *final(started) == *old(started),
        final(started).gpu == old(started).gpu,
        final(marked).applying == old(marked).applying,
{
}

/// What is passed through is the card, and behind it the audio device that goes with it.
pub proof fn card_is_passed_with_its_audio<T>(gpu: T, audio: T, alone: Vec<T>, both: Vec<T>)
    requires
        call_ensures(passed_devices::<T>, (gpu, None::<T>), alone),
        call_ensures(passed_devices::<T>, (gpu, Some(audio)), both),
    ensures
        alone@.len() == 1,
        alone@[0] == gpu,
        both@.len() == 2,
        both@[0] == gpu,
        both@[1] == audio,
{
}

/// Problems are shown exactly if there are any.
pub proof fn problems_are_shown(errors: usize, warnings: usize, res: bool)
    requires
        call_ensures(shows_problems, (errors, warnings), res),
    ensures
        res <==> errors != 0 || warnings != 0,
{
}

/// The names of cards and USB devices are those of the vendor and of the product, in that
/// order, and the address of a card is told as it is.
pub proof fn names_begin_with_the_vendor(
    vendor: &str,
    product: &str,
    device: UsbDevice,
    card: String,
    usb: String,
    address: String,
)
    requires
        call_ensures(gpu_title, (vendor, product), card),
        call_ensures(usb_dialog::title, (&device,), usb),
        call_ensures(gpu_address, (vendor,), address),
    ensures
        card@ == vendor@ + " "@ + product@,
        usb@ == device.vendor_name@ + " "@ + device.product_name@,
        address@ == "PCI "@ + vendor@,
{
}

/// While scripts are generated the button waits, and what can be deleted stays.
pub proof fn generation_holds_the_button(buttons: &mut ScriptButtons)
    requires
        call_ensures(ScriptButtons::generate_started, (buttons,), ()),
    ensures
        !final(buttons).generate,
        final(buttons).generating,
        final(buttons).delete == old(buttons).delete,
{
}

/// At first no card is chosen and nothing can be applied, generated or deleted.
pub proof fn buttons_begin_at_rest(
    choice: Choice,
    started: &mut Choice,
    gpu: Option<usize>,
    buttons: ScriptButtons,
)
    requires
        call_ensures(Choice::new, (), choice),
        *old(started) == choice,
        call_ensures(Choice::start, (started,), gpu),
        call_ensures(ScriptButtons::new, (), buttons),
    ensures
        gpu is None,
        !choice.apply && !choice.applying,
        !buttons.generate && !buttons.generating && !buttons.delete,
{
}

/// The labels of the two buttons tell whether the work goes on.
pub proof fn labels_tell_the_work(busy: bool, apply: &'static str, generate: &'static str)
    requires
        call_ensures(apply_label, (busy,), apply),
        call_ensures(generate_label, (busy,), generate),
    ensures
        busy ==> apply@ == "Applying…"@ && generate@ == "Generating…"@,
        !busy ==> apply@ == "Apply"@ && generate@ == "Generate Scripts"@,
{
}

/// A list of devices has a text in its place exactly if it is empty, and so has a choice of
/// none.
pub proof fn empty_choices_have_texts(
    count: usize,
    cards: Option<(&'static str, &'static str)>,
    pci: Option<&'static str>,
    usb: Option<&'static str>,
    chosen: Option<&'static str>,
)
    requires
        call_ensures(multi_gpu::empty_text, (count,), cards),
        call_ensures(pci_dialog::empty_text, (count,), pci),
        call_ensures(usb_dialog::empty_text, (count,), usb),
        call_ensures(usb_dialog::nothing_selected, (count,), chosen),
    ensures
        cards is Some <==> count == 0,
        pci is Some <==> count == 0,
        usb is Some <==> count == 0,
        chosen is Some <==> count == 0,
        cards matches Some(texts) ==> texts.0@ == "No passthrough-capable GPUs found"@ && texts.1@
            == "A secondary GPU (non-boot VGA) with an IOMMU group is required"@,
        pci matches Some(text) ==> text@
            == "No passthrough-capable PCI devices found.\nEnsure IOMMU is enabled in firmware and kernel (intel_iommu=on / amd_iommu=on)."@,
        usb matches Some(text) ==> text@ == "No USB devices found"@,
        chosen matches Some(text) ==> text@ == "Select at least one device first."@,
{
}

} // verus!
