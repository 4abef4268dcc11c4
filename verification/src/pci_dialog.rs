//! The choice of PCI devices that are passed through to a machine.
use crate::numbers::{decimal, decimal_text};
use crate::text::{
    beside, chars_of, equals, find, find_part, find_where, holds_text, is_space, lemma_find_part,
    lemma_find_part_is, lemma_find_where, lemma_find_where_is, lemma_find_where_skip, occurs_at,
    same_text, space, texts,
};
use vstd::prelude::*;
use vstd::string::{StrSliceExecFns, StringExecFns};

verus! {

/// What ends an address: white space or a comma.
pub open spec fn ends_address() -> spec_fn(char) -> bool {
    |c: char| is_space(c) || c == ','
}

/// The address that an argument names: what stands behind the first `host=`, up to white
/// space or a comma.
pub open spec fn saved_address(arg: Seq<char>) -> Option<Seq<char>> {
    match find_part(arg, "host="@, 0) {
        Some(i) => {
            let rest = arg.skip(i + 5);
            Some(rest.take(find_where(rest, ends_address(), 0)))
        },
        None => None,
    }
}

/// Extract the PCI address from an argument like "-device vfio-pci,host=0000:01:00.0".
pub fn parse_saved_address(arg: &str) -> (res: Option<&str>)
    ensures
        res.is_some() == saved_address(arg@).is_some(),
        res.is_some() ==> res.unwrap()@ == saved_address(arg@).unwrap(),
{
    let chars: Vec<char> = chars_of(arg);
    let host: Vec<char> = chars_of("host=");
    proof {
        reveal_strlit("host=");
        lemma_find_part(arg@, "host="@, 0);
    }
    match find(&chars, &host, 0) {
        Some(i) => {
            let total: usize = chars.len();
            let from: usize = i + 5;
            let mut to: usize = from;
            while to < total && !space(chars[to]) && chars[to] != ','
                invariant
                    from <= to <= total,
                    total == chars@.len(),
                    forall|j: int| from <= j < to ==> !(ends_address())(#[trigger] chars@[j]),
                decreases total - to,
            {
                to = to + 1;
            }
            proof {
                lemma_find_where_is(arg@, ends_address(), from as int, to as int);
                lemma_find_where_skip(arg@, ends_address(), from as int);
                assert(arg@.skip(from as int).take(to - from) =~= arg@.subrange(
                    from as int,
                    to as int,
                ));
            }
            Some(arg.substring_char(from, to))
        },
        None => None,
    }
}

/// The addresses that arguments name, in order.
pub open spec fn saved_addresses(args: Seq<Seq<char>>) -> Seq<Seq<char>>
    decreases args.len(),
{
    if args.len() == 0 {
        Seq::empty()
    } else {
        let done = saved_addresses(args.drop_last());
        match saved_address(args.last()) {
            Some(a) => done.push(a),
            None => done,
        }
    }
}

/// The addresses that arguments name; an argument that names none is passed over.
pub fn parse_saved(args: &Vec<String>) -> (res: Vec<String>)
    ensures
        texts(res@) == saved_addresses(texts(args@)),
{
    let mut out: Vec<String> = Vec::new();
    let mut i: usize = 0;
    let ghost all = texts(args@);
    proof {
        assert(all.take(0) =~= Seq::<Seq<char>>::empty());
        assert(texts(out@) =~= Seq::<Seq<char>>::empty());
    }
    while i < args.len()
        invariant
            i <= args@.len(),
            all == texts(args@),
            texts(out@) == saved_addresses(all.take(i as int)),
        decreases args@.len() - i,
    {
        let ghost before = out@;
        proof {
            assert(all.take(i + 1).drop_last() =~= all.take(i as int));
            assert(all.take(i + 1).last() == args@[i as int]@);
        }
        if let Some(a) = parse_saved_address(args[i].as_str()) {
            out.push(a.to_string());
            proof {
                assert(texts(out@) =~= texts(before).push(a@));
            }
        }
        i = i + 1;
    }
    proof {
        assert(all.take(i as int) =~= all);
    }
    out
}

/// A PCI device of the host.
#[derive(Debug)]
pub struct PciDevice {
    pub address: String,
    /// The name that is shown.
    pub name: String,
    pub driver: Option<String>,
    pub iommu_group: Option<u32>,
    /// The host shows its own screen on this device.
    pub is_boot_vga: bool,
}

impl PciDevice {
    /// The device can be passed through: it has an IOMMU group, and the host does not need
    /// it for its screen.
    pub open spec fn passable(self) -> bool {
        !self.is_boot_vga && self.iommu_group.is_some()
    }

    /// The device is bound to the driver for passing it through.
    pub open spec fn bound(self) -> bool {
        match self.driver {
            Some(d) => d@ == "vfio-pci"@,
            None => false,
        }
    }

    /// Whether the device can be passed through.
    pub fn can_passthrough(&self) -> (res: bool)
        ensures
            res == self.passable(),
    {
        !self.is_boot_vga && self.iommu_group.is_some()
    }

    /// Whether the device is bound to the driver for passing it through.
    pub fn is_vfio_bound(&self) -> (res: bool)
        ensures
            res == self.bound(),
    {
        match &self.driver {
            Some(d) => same_text(d.as_str(), "vfio-pci"),
            None => false,
        }
    }

    /// The line below a device's name: its address and its driver.
    pub open spec fn subtitle_view(self) -> Seq<char> {
        self.address@ + " · "@ + (match self.driver {
            Some(d) => d@,
            None => "no driver"@,
        }) + (if self.bound() {
            " (vfio-pci ✓)"@
        } else {
            ""@
        })
    }

    /// The line below a device's name.
    pub fn subtitle(&self) -> (res: String)
        ensures
            res@ == self.subtitle_view(),
    {
        let mut out: String = "".to_string();
        out.append(self.address.as_str());
        out.append(" · ");
        match &self.driver {
            Some(d) => out.append(d.as_str()),
            None => out.append("no driver"),
        }
        out.append(if self.is_vfio_bound() { " (vfio-pci ✓)" } else { "" });
        proof {
            reveal_strlit("");
            assert(out@ =~= self.subtitle_view());
        }
        out
    }
}

/// The devices that can be chosen, by their IOMMU groups, and which of them are chosen.
/// Row `k` is the device number `order[k]` of the host, in group `groups[k]`. Where that
/// device is a graphics card whose audio device is listed too, `companions[k]` is the row of
/// the latter.
#[derive(Debug)]
pub struct PciList {
    pub order: Vec<usize>,
    pub groups: Vec<u32>,
    pub checked: Vec<bool>,
    pub companions: Vec<Option<usize>>,
}

/// Row `a` stands before row `b`: its group is lower, or the groups are the same and its
/// device comes first.
pub open spec fn row_before(order: Seq<usize>, groups: Seq<u32>, a: int, b: int) -> bool {
    groups[a] < groups[b] || (groups[a] == groups[b] && order[a] < order[b])
}

/// The rows are the devices among the first `n` that can be passed through, by their groups
/// from the lowest up, and within a group in the order of the host.
pub open spec fn lists_first(
    order: Seq<usize>,
    groups: Seq<u32>,
    devices: Seq<PciDevice>,
    n: int,
) -> bool {
    &&& groups.len() == order.len()
    &&& forall|k: int|
        0 <= k < order.len() ==> {
            let d = #[trigger] order[k];
            &&& d < n
            &&& devices[d as int].passable()
            &&& devices[d as int].iommu_group == Some(groups[k])
        }
    &&& forall|a: int, b: int|
        0 <= a < b < order.len() ==> #[trigger] row_before(order, groups, a, b)
    &&& forall|d: int|
        0 <= d < n && (#[trigger] devices[d]).passable() ==> order.contains(d as usize)
}

/// Row `a` brings row `b` with it: they are of the same group, or `b` is the companion of
/// `a`.
pub open spec fn brings(
    groups: Seq<u32>,
    companions: Seq<Option<usize>>,
    a: int,
    b: int,
) -> bool {
    &&& 0 <= a < groups.len()
    &&& 0 <= b < groups.len()
    &&& groups[a] == groups[b] || companions[a] == Some(b as usize)
}

/// The rows of `path` lead from row `k` to row `j`, each bringing the next.
pub open spec fn leads(
    groups: Seq<u32>,
    companions: Seq<Option<usize>>,
    path: Seq<int>,
    k: int,
    j: int,
) -> bool {
    &&& path.len() > 0
    &&& path[0] == k
    &&& path.last() == j
    &&& forall|i: int|
        0 <= i < path.len() - 1 ==> brings(groups, companions, #[trigger] path[i], path[i + 1])
}

/// Row `j` goes with row `k`: `k` brings it, at once or by way of other rows.
pub open spec fn goes_with(
    groups: Seq<u32>,
    companions: Seq<Option<usize>>,
    k: int,
    j: int,
) -> bool {
    exists|path: Seq<int>| #[trigger] leads(groups, companions, path, k, j)
}

/// The check marks after row `k` was checked or unchecked. Checking it checks all rows that
/// go with it; unchecking it changes no other row.
pub open spec fn toggled(
    groups: Seq<u32>,
    companions: Seq<Option<usize>>,
    checked: Seq<bool>,
    k: int,
    active: bool,
) -> Seq<bool> {
    Seq::new(
        checked.len(),
        |j: int|
            if j == k {
                active
            } else {
                checked[j] || (active && goes_with(groups, companions, k, j))
            },
    )
}

/// A row goes with itself, and what a row brings goes with all that the row goes with.
pub proof fn lemma_goes_with(
    groups: Seq<u32>,
    companions: Seq<Option<usize>>,
    k: int,
    a: int,
    b: int,
)
    ensures
        goes_with(groups, companions, k, k),
        goes_with(groups, companions, k, a) && brings(groups, companions, a, b) ==> goes_with(
            groups,
            companions,
            k,
            b,
        ),
{
    assert(leads(groups, companions, seq![k], k, k));
    if goes_with(groups, companions, k, a) && brings(groups, companions, a, b) {
        let path = choose|path: Seq<int>| #[trigger] leads(groups, companions, path, k, a);
        let more = path.push(b);
        assert forall|i: int| 0 <= i < more.len() - 1 implies brings(
            groups,
            companions,
            #[trigger] more[i],
            more[i + 1],
        ) by {
            if i < path.len() - 1 {
                assert(more[i] == path[i]);
                assert(more[i + 1] == path[i + 1]);
            } else {
                assert(more[i] == path.last());
            }
        }
        assert(leads(groups, companions, more, k, b));
    }
}

/// Marks that hold row `k`, and with each row what it brings, hold all that goes with `k`.
pub proof fn lemma_marks_hold(
    groups: Seq<u32>,
    companions: Seq<Option<usize>>,
    marks: Seq<bool>,
    path: Seq<int>,
    k: int,
    j: int,
)
    requires
        marks.len() == groups.len(),
        0 <= k < groups.len(),
        marks[k],
        forall|a: int, b: int|
            #[trigger] brings(groups, companions, a, b) && marks[a] ==> marks[b],
        leads(groups, companions, path, k, j),
    ensures
        0 <= j < groups.len(),
        marks[j],
    decreases path.len(),
{
    if path.len() > 1 {
        let front = path.drop_last();
        let a = front.last();
        assert forall|i: int| 0 <= i < front.len() - 1 implies brings(
            groups,
            companions,
            #[trigger] front[i],
            front[i + 1],
        ) by {
            assert(front[i] == path[i]);
            assert(front[i + 1] == path[i + 1]);
        }
        assert(leads(groups, companions, front, k, a));
        lemma_marks_hold(groups, companions, marks, front, k, a);
        assert(brings(groups, companions, path[path.len() - 2], path[path.len() - 1]));
    }
}

/// How many of the marks are not set.
spec fn open_marks(marks: Seq<bool>) -> nat
    decreases marks.len(),
{
    if marks.len() == 0 {
        0
    } else {
        open_marks(marks.drop_last()) + if marks.last() {
            0nat
        } else {
            1nat
        }
    }
}

/// Setting a mark leaves one less.
proof fn lemma_open_marks(marks: Seq<bool>, i: int)
    requires
        0 <= i < marks.len(),
        !marks[i],
    ensures
        open_marks(marks.update(i, true)) + 1 == open_marks(marks),
    decreases marks.len(),
{
    let now = marks.update(i, true);
    if i == marks.len() - 1 {
        assert(now.drop_last() =~= marks.drop_last());
    } else {
        assert(now.drop_last() =~= marks.drop_last().update(i, true));
        lemma_open_marks(marks.drop_last(), i);
    }
}

/// The row of the device number `device`, if it is listed.
pub open spec fn row_of(order: Seq<usize>, device: Option<usize>) -> Option<int> {
    match device {
        Some(d) => if order.contains(d) {
            Some(order.index_of(d))
        } else {
            None
        },
        None => None,
    }
}

impl PciList {
    /// There is a group, a check mark and perhaps a companion for each row, and each
    /// companion is a row.
    pub open spec fn wf(self) -> bool {
        &&& self.groups@.len() == self.order@.len()
        &&& self.checked@.len() == self.order@.len()
        &&& self.companions@.len() == self.order@.len()
        &&& forall|k: int|
            0 <= k < self.companions@.len() ==> (#[trigger] self.companions@[k] matches Some(r)
                ==> r < self.order@.len())
    }

    /// The rows are the devices that can be passed through, by their groups from the lowest
    /// up, and within a group in the order of the host.
    pub open spec fn lists(self, devices: Seq<PciDevice>) -> bool {
        lists_first(self.order@, self.groups@, devices, devices.len() as int)
    }

    /// Row `k` shares its group with another row.
    pub open spec fn shared(self, k: int) -> bool {
        exists|j: int| 0 <= j < self.groups@.len() && j != k && self.groups@[j] == self.groups@[k]
    }

    /// The devices of the rows among the first `n` that are checked.
    pub open spec fn chosen(self, n: int) -> Seq<usize>
        decreases n,
    {
        if n <= 0 {
            Seq::empty()
        } else if self.checked@[n - 1] {
            self.chosen(n - 1).push(self.order@[n - 1])
        } else {
            self.chosen(n - 1)
        }
    }

    /// The first row of a group: it stands below the group's heading.
    pub fn starts_group(&self, k: usize) -> (res: bool)
        requires
            self.wf(),
            k < self.order@.len(),
        ensures
            res == (k == 0 || self.groups@[k - 1] != self.groups@[k as int]),
    {
        k == 0 || self.groups[k - 1] != self.groups[k]
    }

    /// Whether a row shares its group with another row: then all of the group have to be
    /// passed together.
    pub fn shares_group(&self, k: usize) -> (res: bool)
        requires
            self.wf(),
            k < self.order@.len(),
        ensures
            res == self.shared(k as int),
    {
        let mut j: usize = 0;
        while j < self.groups.len()
            invariant
                j <= self.groups@.len(),
                self.wf(),
                k < self.order@.len(),
                forall|i: int| 0 <= i < j && i != k ==> self.groups@[i] != self.groups@[k as int],
            decreases self.groups@.len() - j,
        {
            if j != k && self.groups[j] == self.groups[k] {
                return true;
            }
            j = j + 1;
        }
        false
    }

    /// Marks what the rows that are marked bring, and says whether that was anything new.
    fn spread(&self, marks: &mut Vec<bool>, Ghost(k): Ghost<int>) -> (res: bool)
        requires
            self.wf(),
            old(marks)@.len() == self.order@.len(),
            forall|j: int|
                0 <= j < old(marks)@.len() && #[trigger] old(marks)@[j] ==> goes_with(
                    self.groups@,
                    self.companions@,
                    k,
                    j,
                ),
        ensures
            final(marks)@.len() == old(marks)@.len(),
            forall|j: int|
                0 <= j < old(marks)@.len() && #[trigger] old(marks)@[j] ==> final(marks)@[j],
            forall|j: int|
                0 <= j < final(marks)@.len() && #[trigger] final(marks)@[j] ==> goes_with(
                    self.groups@,
                    self.companions@,
                    k,
                    j,
                ),
            res ==> open_marks(final(marks)@) < open_marks(old(marks)@),
            !res ==> final(marks)@ == old(marks)@,
            !res ==> forall|a: int, b: int|
                #[trigger] brings(self.groups@, self.companions@, a, b) && final(marks)@[a]
                    ==> final(marks)@[b],
    {
        let total: usize = self.order.len();
        let mut fresh: bool = false;
        let mut a: usize = 0;
        while a < total
            invariant
                a <= total,
                total == self.order@.len(),
                self.wf(),
                marks@.len() == total,
                old(marks)@.len() == total,
                forall|j: int| 0 <= j < total && #[trigger] old(marks)@[j] ==> marks@[j],
                forall|j: int|
                    0 <= j < total && #[trigger] marks@[j] ==> goes_with(
                        self.groups@,
                        self.companions@,
                        k,
                        j,
                    ),
                fresh ==> open_marks(marks@) < open_marks(old(marks)@),
                !fresh ==> marks@ == old(marks)@,
                !fresh ==> forall|c: int, d: int|
                    c < a && #[trigger] brings(self.groups@, self.companions@, c, d) && marks@[c]
                        ==> marks@[d],
            decreases total - a,
        {
            let mut b: usize = 0;
            while b < total
                invariant
                    a < total,
                    b <= total,
                    total == self.order@.len(),
                    self.wf(),
                    marks@.len() == total,
                    old(marks)@.len() == total,
                    forall|j: int| 0 <= j < total && #[trigger] old(marks)@[j] ==> marks@[j],
                    forall|j: int|
                        0 <= j < total && #[trigger] marks@[j] ==> goes_with(
                            self.groups@,
                            self.companions@,
                            k,
                            j,
                        ),
                    fresh ==> open_marks(marks@) < open_marks(old(marks)@),
                    !fresh ==> marks@ == old(marks)@,
                    !fresh ==> forall|c: int, d: int|
                        c < a && #[trigger] brings(self.groups@, self.companions@, c, d)
                            && marks@[c] ==> marks@[d],
                    !fresh ==> forall|d: int|
                        d < b && #[trigger] brings(self.groups@, self.companions@, a as int, d)
                            && marks@[a as int] ==> marks@[d],
                decreases total - b,
            {
                let paired: bool = match self.companions[a] {
                    Some(r) => r == b,
                    None => false,
                };
                if marks[a] && !marks[b] && (self.groups[a] == self.groups[b] || paired) {
                    proof {
                        lemma_goes_with(
                            self.groups@,
                            self.companions@,
                            k,
                            a as int,
                            b as int,
                        );
                        lemma_open_marks(marks@, b as int);
                    }
                    marks.set(b, true);
                    fresh = true;
                }
                b = b + 1;
            }
            a = a + 1;
        }
        fresh
    }

    /// Checks or unchecks a row. Checking a row checks all that goes with it: its group, its
    /// companion, and what these bring in turn. Unchecking it leaves the others as they are.
    pub fn toggle(&mut self, k: usize, active: bool)
        requires
            old(self).wf(),
            k < old(self).order@.len(),
        ensures
            final(self).wf(),
            final(self).order == old(self).order,
            final(self).groups == old(self).groups,
            final(self).companions == old(self).companions,
            final(self).checked@ == toggled(
                old(self).groups@,
                old(self).companions@,
                old(self).checked@,
                k as int,
                active,
            ),
    {
        let total: usize = self.order.len();
        if !active {
            self.checked.set(k, false);
            proof {
                assert(self.checked@ =~= toggled(
                    old(self).groups@,
                    old(self).companions@,
                    old(self).checked@,
                    k as int,
                    active,
                ));
            }
            return;
        }
        let mut marks: Vec<bool> = Vec::new();
        let mut i: usize = 0;
        while i < total
            invariant
                i <= total,
                marks@.len() == i,
                forall|j: int| 0 <= j < i ==> #[trigger] marks@[j] == (j == k),
            decreases total - i,
        {
            marks.push(i == k);
            i = i + 1;
        }
        proof {
            lemma_goes_with(self.groups@, self.companions@, k as int, k as int, k as int);
        }
        let mut fresh: bool = true;
        while fresh
            invariant
                *self == *old(self),
                self.wf(),
                total == self.order@.len(),
                k < total,
                marks@.len() == total,
                marks@[k as int],
                forall|j: int|
                    0 <= j < total && #[trigger] marks@[j] ==> goes_with(
                        self.groups@,
                        self.companions@,
                        k as int,
                        j,
                    ),
                !fresh ==> forall|a: int, b: int|
                    #[trigger] brings(self.groups@, self.companions@, a, b) && marks@[a]
                        ==> marks@[b],
            decreases open_marks(marks@) + if fresh {
                1nat
            } else {
                0nat
            },
        {
            fresh = self.spread(&mut marks, Ghost(k as int));
        }
        proof {
            assert forall|j: int| 0 <= j < total implies marks@[j] == goes_with(
                self.groups@,
                self.companions@,
                k as int,
                j,
            ) by {
                if goes_with(self.groups@, self.companions@, k as int, j) {
                    let path = choose|path: Seq<int>|
                        #[trigger] leads(self.groups@, self.companions@, path, k as int, j);
                    lemma_marks_hold(
                        self.groups@,
                        self.companions@,
                        marks@,
                        path,
                        k as int,
                        j,
                    );
                }
            }
        }
        let mut j: usize = 0;
        while j < total
            invariant
                j <= total,
                total == old(self).order@.len(),
                old(self).wf(),
                k < total,
                marks@.len() == total,
                marks@[k as int],
                self.order == old(self).order,
                self.groups == old(self).groups,
                self.companions == old(self).companions,
                self.checked@.len() == total,
                forall|i: int|
                    0 <= i < j ==> #[trigger] self.checked@[i] == (old(self).checked@[i]
                        || marks@[i]),
                forall|i: int|
                    j <= i < total ==> #[trigger] self.checked@[i] == old(self).checked@[i],
            decreases total - j,
        {
            if marks[j] {
                self.checked.set(j, true);
            }
            j = j + 1;
        }
        proof {
            assert(self.checked@ =~= toggled(
                old(self).groups@,
                old(self).companions@,
                old(self).checked@,
                k as int,
                active,
            ));
        }
    }

    /// The devices that are chosen, in the order of the rows.
    pub fn selected(&self) -> (res: Vec<usize>)
        requires
            self.wf(),
        ensures
            res@ == self.chosen(self.order@.len() as int),
    {
        let mut out: Vec<usize> = Vec::new();
        let mut i: usize = 0;
        while i < self.order.len()
            invariant
                i <= self.order@.len(),
                self.wf(),
                out@ == self.chosen(i as int),
            decreases self.order@.len() - i,
        {
            if self.checked[i] {
                out.push(self.order[i]);
            }
            i = i + 1;
        }
        out
    }
}

/// The row of a device, if it is listed.
fn find_row(order: &Vec<usize>, device: Option<usize>) -> (res: Option<usize>)
    requires
        order@.no_duplicates(),
    ensures
        res.is_some() == row_of(order@, device).is_some(),
        res matches Some(r) ==> r < order@.len() && row_of(order@, device) == Some(r as int),
{
    match device {
        Some(d) => {
            let mut i: usize = 0;
            while i < order.len()
                invariant
                    i <= order@.len(),
                    device == Some(d),
                    order@.no_duplicates(),
                    forall|j: int| 0 <= j < i ==> order@[j] != d,
                decreases order@.len() - i,
            {
                if order[i] == d {
                    proof {
                        assert(order@.contains(d));
                        assert(order@.index_of(d) == i);
                    }
                    return Some(i);
                }
                i = i + 1;
            }
            None
        },
        None => None,
    }
}

/// The rows for the devices of the host; `companions` holds for each graphics card the
/// number of the audio device that goes with it. A row is checked at first if its address
/// is among those that were saved.
pub fn populate_pci_list(
    devices: &Vec<PciDevice>,
    companions: &Vec<Option<usize>>,
    saved: &Vec<String>,
) -> (res: PciList)
    requires
        companions@.len() == devices@.len(),
    ensures
        res.wf(),
        res.lists(devices@),
        forall|k: int|
            0 <= k < res.order@.len() ==> #[trigger] res.checked@[k] == texts(saved@).contains(
                devices@[res.order@[k] as int].address@,
            ),
        forall|k: int|
            0 <= k < res.order@.len() ==> match #[trigger] res.companions@[k] {
                Some(r) => row_of(res.order@, companions@[res.order@[k] as int]) == Some(r as int),
                None => row_of(res.order@, companions@[res.order@[k] as int]).is_none(),
            },
{
    let mut order: Vec<usize> = Vec::new();
    let mut groups: Vec<u32> = Vec::new();
    let mut d: usize = 0;
    while d < devices.len()
        invariant
            d <= devices@.len(),
            lists_first(order@, groups@, devices@, d as int),
        decreases devices@.len() - d,
    {
        if devices[d].can_passthrough() {
            let ghost order_before = order@;
            let ghost groups_before = groups@;
            let group: u32 = devices[d].iommu_group.unwrap();
            let mut at: usize = 0;
            while at < groups.len() && groups[at] <= group
                invariant
                    at <= groups@.len(),
                    forall|j: int| 0 <= j < at ==> #[trigger] groups@[j] <= group,
                decreases groups@.len() - at,
            {
                at = at + 1;
            }
            order.insert(at, d);
            groups.insert(at, group);
            proof {
                lemma_inserted(
                    order_before,
                    groups_before,
                    devices@,
                    d as int,
                    group,
                    at as int,
                );
            }
        }
        d = d + 1;
    }
    proof {
        lemma_rows_differ(order@, groups@, devices@);
    }
    let mut checked: Vec<bool> = Vec::new();
    let mut paired: Vec<Option<usize>> = Vec::new();
    let mut k: usize = 0;
    while k < order.len()
        invariant
            k <= order@.len(),
            lists_first(order@, groups@, devices@, devices@.len() as int),
            order@.no_duplicates(),
            companions@.len() == devices@.len(),
            checked@.len() == k,
            paired@.len() == k,
            forall|i: int|
                0 <= i < k ==> #[trigger] checked@[i] == texts(saved@).contains(
                    devices@[order@[i] as int].address@,
                ),
            forall|i: int|
                0 <= i < k ==> match #[trigger] paired@[i] {
                    Some(r) => r < order@.len() && row_of(
                        order@,
                        companions@[order@[i] as int],
                    ) == Some(r as int),
                    None => row_of(order@, companions@[order@[i] as int]).is_none(),
                },
        decreases order@.len() - k,
    {
        let device: usize = order[k];
        checked.push(holds_text(saved, devices[device].address.as_str()));
        paired.push(find_row(&order, companions[device]));
        k = k + 1;
    }
    PciList { order, groups, checked, companions: paired }
}

/// A device that is inserted behind all rows whose groups are not higher keeps the list
/// in order.
proof fn lemma_inserted(
    order: Seq<usize>,
    groups: Seq<u32>,
    devices: Seq<PciDevice>,
    d: int,
    group: u32,
    at: int,
)
    requires
        0 <= d < devices.len() <= usize::MAX,
        lists_first(order, groups, devices, d),
        devices[d].passable(),
        devices[d].iommu_group == Some(group),
        0 <= at <= order.len(),
        forall|j: int| 0 <= j < at ==> #[trigger] groups[j] <= group,
        at < order.len() ==> groups[at] > group,
    ensures
        lists_first(order.insert(at, d as usize), groups.insert(at, group), devices, d + 1),
{
    let n = order.len();
    let order2 = order.insert(at, d as usize);
    let groups2 = groups.insert(at, group);
    assert forall|k: int| 0 <= k < order2.len() implies {
        let e = #[trigger] order2[k];
        &&& e < d + 1
        &&& devices[e as int].passable()
        &&& devices[e as int].iommu_group == Some(groups2[k])
    } by {
        if k < at {
            assert(order2[k] == order[k]);
        } else if k > at {
            assert(order2[k] == order[k - 1]);
        }
    }
    assert forall|a: int, b: int| 0 <= a < b < order2.len() implies #[trigger] row_before(
        order2,
        groups2,
        a,
        b,
    ) by {
        let a0 = if a < at {
            a
        } else {
            a - 1
        };
        let b0 = if b < at {
            b
        } else {
            b - 1
        };
        if a != at && b != at {
            assert(row_before(order, groups, a0, b0));
        } else if b == at {
            assert(groups[a] <= group);
            assert(order[a] < d);
        } else {
            if b0 > at {
                assert(row_before(order, groups, at, b0));
            }
        }
    }
    assert forall|e: int| 0 <= e < d + 1 && (#[trigger] devices[e]).passable() implies
        order2.contains(e as usize) by {
        if e == d {
            assert(order2[at] == d as usize);
        } else {
            assert(order.contains(e as usize));
            let k = choose|k: int| 0 <= k < n && order[k] == e as usize;
            if k < at {
                assert(order2[k] == e as usize);
            } else {
                assert(order2[k + 1] == e as usize);
            }
        }
    }
}

/// No device has two rows.
proof fn lemma_rows_differ(order: Seq<usize>, groups: Seq<u32>, devices: Seq<PciDevice>)
    requires
        lists_first(order, groups, devices, devices.len() as int),
    ensures
        order.no_duplicates(),
{
    assert forall|a: int, b: int| 0 <= a < order.len() && 0 <= b < order.len() && a != b implies
        order[a] != order[b] by {
        if a < b {
            assert(row_before(order, groups, a, b));
        } else {
            assert(row_before(order, groups, b, a));
        }
        if order[a] == order[b] {
            assert(devices[order[a] as int].iommu_group == Some(groups[a]));
            assert(devices[order[b] as int].iommu_group == Some(groups[b]));
        }
    }
}

/// After a device was checked, every device of its group is checked, and so is the audio
/// device that goes with it, whatever group that is in.
pub proof fn checking_checks_group_and_companion(
    groups: Seq<u32>,
    companions: Seq<Option<usize>>,
    checked: Seq<bool>,
    k: int,
)
    requires
        groups.len() == checked.len(),
        0 <= k < groups.len(),
    ensures
        toggled(groups, companions, checked, k, true)[k],
        forall|j: int|
            0 <= j < groups.len() && groups[j] == groups[k] ==> #[trigger] toggled(
                groups,
                companions,
                checked,
                k,
                true,
            )[j],
        companions[k] matches Some(r) ==> r < groups.len() ==> toggled(
            groups,
            companions,
            checked,
            k,
            true,
        )[r as int],
{
    assert forall|j: int| 0 <= j < groups.len() && groups[j] == groups[k] implies #[trigger] toggled(
        groups,
        companions,
        checked,
        k,
        true,
    )[j] by {
        assert(brings(groups, companions, k, j));
        lemma_goes_with(groups, companions, k, k, j);
    }
    if let Some(r) = companions[k] {
        if r < groups.len() {
            assert(brings(groups, companions, k, r as int));
            lemma_goes_with(groups, companions, k, k, r as int);
        }
    }
}

/// Every card that goes with the device that was checked is checked, with its companion and
/// with the whole of its group.
pub proof fn what_goes_along_is_whole(
    groups: Seq<u32>,
    companions: Seq<Option<usize>>,
    checked: Seq<bool>,
    k: int,
    j: int,
    b: int,
)
    requires
        groups.len() == checked.len(),
        0 <= k < groups.len(),
        0 <= j < groups.len(),
        goes_with(groups, companions, k, j),
        brings(groups, companions, j, b),
    ensures
        toggled(groups, companions, checked, k, true)[j],
        toggled(groups, companions, checked, k, true)[b],
{
    lemma_goes_with(groups, companions, k, j, b);
}

/// After any check, every card that became checked by it has its listed companion checked.
pub proof fn newly_checked_cards_have_their_companions(
    groups: Seq<u32>,
    companions: Seq<Option<usize>>,
    checked: Seq<bool>,
    k: int,
    j: int,
)
    requires
        groups.len() == checked.len(),
        0 <= k < groups.len(),
        0 <= j < groups.len(),
        !checked[j],
        toggled(groups, companions, checked, k, true)[j],
        companions[j].is_some(),
        companions[j].unwrap() < groups.len(),
    ensures
        toggled(groups, companions, checked, k, true)[companions[j].unwrap() as int],
{
    let r = companions[j].unwrap() as int;
    assert(brings(groups, companions, j, r));
    lemma_goes_with(groups, companions, k, k, r);
    lemma_goes_with(groups, companions, k, j, r);
}

/// Every row that is checked has all that it brings checked: its group, and its companion.
pub open spec fn complete(
    groups: Seq<u32>,
    companions: Seq<Option<usize>>,
    checked: Seq<bool>,
) -> bool {
    forall|a: int, b: int|
        #[trigger] brings(groups, companions, a, b) && checked[a] ==> checked[b]
}

/// Checking a device keeps a choice complete: after any check every card that is checked has
/// its companion checked, if that was so before.
pub proof fn checking_keeps_the_choice_complete(
    groups: Seq<u32>,
    companions: Seq<Option<usize>>,
    checked: Seq<bool>,
    k: int,
)
    requires
        groups.len() == checked.len(),
        0 <= k < groups.len(),
        complete(groups, companions, checked),
    ensures
        complete(groups, companions, toggled(groups, companions, checked, k, true)),
{
    let now = toggled(groups, companions, checked, k, true);
    assert forall|a: int, b: int|
        #[trigger] brings(groups, companions, a, b) && now[a] implies now[b] by {
        lemma_goes_with(groups, companions, k, k, b);
        lemma_goes_with(groups, companions, k, a, b);
    }
}

/// A choice that begins with nothing checked is complete, and so is every choice that is
/// made from it by checking alone: every card that is checked has its companion checked.
pub proof fn checking_alone_makes_complete_choices(
    groups: Seq<u32>,
    companions: Seq<Option<usize>>,
    checks: Seq<int>,
)
    requires
        forall|i: int| 0 <= i < checks.len() ==> 0 <= #[trigger] checks[i] < groups.len(),
    ensures
        after_checks(groups, companions, checks).len() == groups.len(),
        complete(groups, companions, after_checks(groups, companions, checks)),
    decreases checks.len(),
{
    if checks.len() > 0 {
        let front = checks.drop_last();
        assert forall|i: int| 0 <= i < front.len() implies 0 <= #[trigger] front[i]
            < groups.len() by {
            assert(front[i] == checks[i]);
        }
        checking_alone_makes_complete_choices(groups, companions, front);
        assert(0 <= checks[checks.len() - 1] < groups.len());
        checking_keeps_the_choice_complete(
            groups,
            companions,
            after_checks(groups, companions, front),
            checks.last(),
        );
    }
}

/// The check marks after rows were checked one after the other, with none checked at first.
pub open spec fn after_checks(
    groups: Seq<u32>,
    companions: Seq<Option<usize>>,
    checks: Seq<int>,
) -> Seq<bool>
    decreases checks.len(),
{
    if checks.len() == 0 {
        Seq::new(groups.len(), |i: int| false)
    } else {
        toggled(
            groups,
            companions,
            after_checks(groups, companions, checks.drop_last()),
            checks.last(),
            true,
        )
    }
}

/// Checking or unchecking a device leaves as they are the devices that do not go with it;
/// unchecking it leaves all other devices as they are.
pub proof fn toggling_leaves_the_rest(
    groups: Seq<u32>,
    companions: Seq<Option<usize>>,
    checked: Seq<bool>,
    k: int,
    active: bool,
)
    requires
        groups.len() == checked.len(),
        0 <= k < groups.len(),
    ensures
        forall|j: int|
            0 <= j < groups.len() && !goes_with(groups, companions, k, j) ==> #[trigger] toggled(
                groups,
                companions,
                checked,
                k,
                active,
            )[j] == checked[j],
        forall|j: int|
            0 <= j < groups.len() && j != k ==> #[trigger] toggled(
                groups,
                companions,
                checked,
                k,
                false,
            )[j] == checked[j],
{
    lemma_goes_with(groups, companions, k, k, k);
}

/// An address that was written into an argument reads back from it.
pub proof fn written_address_reads_back(address: Seq<char>, behind: Seq<char>)
    requires
        forall|i: int| 0 <= i < address.len() ==> !(ends_address())(#[trigger] address[i]),
        behind.len() > 0 ==> (ends_address())(behind[0]),
    ensures
        saved_address("-device vfio-pci,host="@ + address + behind) == Some(address),
{
    let head = "-device vfio-pci,host="@;
    let host = "host="@;
    let arg = head + address + behind;
    reveal_strlit("-device vfio-pci,host=");
    reveal_strlit("host=");
    assert(arg.subrange(17, 22) =~= host);
    assert forall|j: int| 0 <= j < 17 implies !occurs_at(arg, host, j) by {
        if occurs_at(arg, host, j) {
            assert(arg.subrange(j, j + 5)[0] == arg[j]);
            assert(arg[j] == head[j]);
            reveal_with_fuel(find_where, 24);
            assert(find_where(head, equals('h'), 0) == 17);
            lemma_find_where(head, equals('h'), 0);
            assert(!(equals('h'))(head[j]));
        }
    }
    lemma_find_part_is(arg, host, 0, 17);
    let rest = arg.skip(22);
    let n = address.len() as int;
    assert(rest =~= address + behind);
    assert forall|j: int| 0 <= j < n implies !(ends_address())(#[trigger] rest[j]) by {
        assert(rest[j] == address[j]);
    }
    if behind.len() > 0 {
        assert(rest[n] == behind[0]);
    }
    lemma_find_where_is(rest, ends_address(), 0, n);
    assert(rest.take(n) =~= address);
}

/// Each row is for another device.
pub proof fn rows_are_for_different_devices(
    list: PciList,
    devices: Seq<PciDevice>,
    a: int,
    b: int,
)
    requires
        list.lists(devices),
        0 <= a < list.order@.len(),
        0 <= b < list.order@.len(),
        list.order@[a] == list.order@[b],
    ensures
        a == b,
{
    lemma_rows_differ(list.order@, list.groups@, devices);
}

/// The heading of a group.
pub fn group_title(group: u32) -> (res: String)
    ensures
        res@ == "IOMMU Group "@ + decimal(group as int),
{
    beside("IOMMU Group ", decimal_text(group as u64).as_str())
}

/// What is said below the heading of a group: that all of it have to be passed together, if
/// it has more than one device that can be.
pub fn group_note(shared: bool) -> (res: Option<&'static str>)
    ensures
        res.is_some() == shared,
        res matches Some(text) ==> text@ == "All devices in this group must be passed together"@,
{
    if shared {
        Some("All devices in this group must be passed together")
    } else {
        None
    }
}

/// What is said where no device can be passed through; nothing where there are rows.
pub fn empty_text(rows: usize) -> (res: Option<&'static str>)
    ensures
        res.is_some() == (rows == 0),
        res matches Some(text) ==> text@
            == "No passthrough-capable PCI devices found.\nEnsure IOMMU is enabled in firmware and kernel (intel_iommu=on / amd_iommu=on)."@,
{
    if rows == 0 {
        Some(
            "No passthrough-capable PCI devices found.\nEnsure IOMMU is enabled in firmware and kernel (intel_iommu=on / amd_iommu=on).",
        )
    } else {
        None
    }
}

} // verus!
