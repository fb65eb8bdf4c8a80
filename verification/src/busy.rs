use vstd::prelude::*;

use crate::text::{chars_of, contents, enclose};

verus! {

/// A partition that something uses.
#[derive(Debug, PartialEq, Eq)]
pub struct BusyPartition {
    /// The device file of the partition.
    pub path: String,
    /// Where it is mounted, if it is.
    pub mountpoint: Option<String>,
    /// It is swapped to.
    pub swap: bool,
}

/// `left` comes before `right` in a dictionary, or is the same.
pub open spec fn in_order(left: Seq<char>, right: Seq<char>) -> bool {
    exists|k: int| differ_at(left, right, k) && (k == left.len() || (k < right.len() && left[k]
        < right[k]))
}

/// The first `k` characters of two texts are the same, and the next ones are not, if both
/// have one.
pub open spec fn differ_at(left: Seq<char>, right: Seq<char>, k: int) -> bool {
    &&& 0 <= k <= left.len()
    &&& k <= right.len()
    &&& forall|i: int| 0 <= i < k ==> left[i] == right[i]
    &&& k < left.len() && k < right.len() ==> left[k] != right[k]
}

/// Of any two partitions, the one whose path comes first stands first.
pub open spec fn sorted(partitions: Seq<BusyPartition>) -> bool {
    forall|i: int, j: int|
        0 <= i < j < partitions.len() ==> in_order(
            (#[trigger] partitions[i]).path@,
            (#[trigger] partitions[j]).path@,
        )
}

/// Of two texts, one comes first.
proof fn lemma_order_total(left: Seq<char>, right: Seq<char>, k: int)
    requires
        differ_at(left, right, k),
        !(k == left.len() || (k < right.len() && left[k] < right[k])),
    ensures
        in_order(right, left),
{
    assert(differ_at(right, left, k));
}

/// Two texts that come before each other are the same.
pub proof fn law_order_antisymmetric(left: Seq<char>, right: Seq<char>)
    requires
        in_order(left, right),
        in_order(right, left),
    ensures
        left == right,
{
    let a = choose|k: int|
        differ_at(left, right, k) && (k == left.len() || (k < right.len() && left[k] < right[k]));
    let b = choose|k: int|
        differ_at(right, left, k) && (k == right.len() || (k < left.len() && right[k] < left[k]));
    assert(!(a < b) && !(b < a));
    assert(left =~= right);
}

/// What comes before something that comes before a third comes before the third.
pub proof fn law_order_transitive(first: Seq<char>, second: Seq<char>, third: Seq<char>)
    requires
        in_order(first, second),
        in_order(second, third),
    ensures
        in_order(first, third),
{
    let a = choose|k: int|
        differ_at(first, second, k) && (k == first.len() || (k < second.len() && first[k]
            < second[k]));
    let b = choose|k: int|
        differ_at(second, third, k) && (k == second.len() || (k < third.len() && second[k]
            < third[k]));
    if a <= b {
        assert(differ_at(first, third, a));
    } else {
        assert(differ_at(first, third, b));
    }
}

/// Whether `left` comes before `right` in a dictionary, or is the same.
fn compare(left: &str, right: &str) -> (before: bool)
    ensures
        before ==> in_order(left@, right@),
        !before ==> in_order(right@, left@),
{
    let left_chars = chars_of(left);
    let right_chars = chars_of(right);
    let mut k: usize = 0;
    while k < left_chars.len() && k < right_chars.len() && left_chars[k] == right_chars[k]
        invariant
            left_chars@ == left@,
            right_chars@ == right@,
            k <= left@.len(),
            k <= right@.len(),
            forall|i: int| 0 <= i < k ==> left@[i] == right@[i],
        decreases left@.len() - k,
    {
        k += 1;
    }
    assert(differ_at(left@, right@, k as int));
    if k == left_chars.len() {
        return true;
    }
    if k < right_chars.len() && left_chars[k] < right_chars[k] {
        return true;
    }
    proof {
        lemma_order_total(left@, right@, k as int);
    }
    false
}

/// Puts one more partition among others that are sorted.
fn insert(partitions: &mut Vec<BusyPartition>, partition: BusyPartition)
    requires
        sorted(old(partitions)@),
    ensures
        sorted(final(partitions)@),
        final(partitions)@.to_multiset() == old(partitions)@.to_multiset().insert(partition),
{
    let ghost before = partitions@;
    let mut at: usize = 0;
    while at < partitions.len() && compare(partitions[at].path.as_str(), partition.path.as_str())
        invariant
            partitions@ == before,
            at <= before.len(),
            forall|i: int|
                0 <= i < at ==> in_order((#[trigger] before[i]).path@, partition.path@),
        decreases before.len() - at,
    {
        at += 1;
    }
    proof {
        assert forall|j: int| at <= j < before.len() implies in_order(
            partition.path@,
            (#[trigger] before[j]).path@,
        ) by {
            assert(in_order(partition.path@, before[at as int].path@));
            if at < j {
                law_order_transitive(partition.path@, before[at as int].path@, before[j].path@);
            }
        }
    }
    let ghost inserted = partition;
    partitions.insert(at, partition);
    proof {
        broadcast use vstd::seq_lib::group_to_multiset_ensures;

        assert(partitions@ == before.insert(at as int, inserted));
        assert forall|i: int, j: int| 0 <= i < j < partitions@.len() implies in_order(
            (#[trigger] partitions@[i]).path@,
            (#[trigger] partitions@[j]).path@,
        ) by {
            let old_i = if i < at { i } else { i - 1 };
            let old_j = if j < at { j } else { j - 1 };
            if i != at {
                assert(partitions@[i] == before[old_i]);
            }
            if j != at {
                assert(partitions@[j] == before[old_j]);
            }
        }
    }
}

/// Makes sure that nothing uses the partitions of a disk, given those that something does use.
/// They come back in the order of their paths.
pub fn ensure_exclusive_access(partitions: Vec<BusyPartition>) -> (access: Result<
    (),
    Vec<BusyPartition>,
>)
    ensures
        access is Ok <==> partitions@.len() == 0,
        access matches Err(busy) ==> sorted(busy@) && busy@.to_multiset()
            == partitions@.to_multiset(),
        access matches Err(busy) ==> forall|i: int, j: int|
            0 <= i < j < busy@.len() ==> in_order(
                (#[trigger] busy@[i]).path@,
                (#[trigger] busy@[j]).path@,
            ),
{
    let ghost all = partitions@.to_multiset();
    let ghost count = partitions@.len();
    let mut rest = partitions;
    let mut busy: Vec<BusyPartition> = Vec::new();
    proof {
        broadcast use vstd::seq_lib::group_to_multiset_ensures;

        assert(busy@.to_multiset().add(rest@.to_multiset()) =~= all);
    }
    while rest.len() > 0
        invariant
            sorted(busy@),
            busy@.to_multiset().add(rest@.to_multiset()) == all,
        decreases rest@.len(),
    {
        let ghost before = rest@;
        let ghost found = busy@.to_multiset();
        if let Some(partition) = rest.pop() {
            let ghost moved = partition;
            insert(&mut busy, partition);
            proof {
                broadcast use vstd::seq_lib::group_to_multiset_ensures;

                assert(before =~= rest@.push(moved));
                assert(busy@.to_multiset().add(rest@.to_multiset()) =~= found.add(
                    before.to_multiset(),
                ));
            }
        }
    }
    proof {
        broadcast use vstd::seq_lib::group_to_multiset_ensures;

        assert(rest@ =~= Seq::empty());
        assert(busy@.to_multiset() =~= all);
        assert(busy@.len() == busy@.to_multiset().len());
        assert(count == all.len());
    }
    if busy.len() == 0 {
        Ok(())
    } else {
        Err(busy)
    }
}

/// What the user is told first when a device is in use.
pub fn announce_busy_device(device: &str) -> (line: String)
    ensures
        line@ == "Partitions in use on "@ + device@ + ":"@,
{
    enclose("Partitions in use on ", device, ":")
}

/// The error when a device is in use.
pub fn busy_message() -> (message: String)
    ensures
        message@ == "found busy partitions"@,
{
    "found busy partitions".to_owned()
}

/// What the user is told of a partition that is mounted, or swapped to.
pub open spec fn usage(partition: &BusyPartition) -> Seq<Seq<char>> {
    let path = partition.path@;
    let mounted = match partition.mountpoint {
        Some(mountpoint) => seq!["    "@ + path + " mounted on "@ + mountpoint@],
        None => Seq::empty(),
    };
    let swapped = if partition.swap {
        seq!["    "@ + path + " is swap device"@]
    } else {
        Seq::empty()
    };
    mounted + swapped
}

/// What the user is told of the devices that are built on a partition: a line for each.
pub open spec fn holding(partition: &BusyPartition, holders: Seq<Seq<char>>) -> Seq<Seq<char>> {
    Seq::new(
        holders.len(),
        |i: int| "    "@ + partition.path@ + " in use by "@ + holders[i],
    )
}

/// The names in some lists.
pub open spec fn names(holders: Seq<Vec<String>>) -> Seq<Seq<Seq<char>>> {
    Seq::new(holders.len(), |i: int| contents(holders[i]@))
}

/// What the user is told of one of the partitions. It ends with how the partition is used where
/// its holders are not known.
pub open spec fn partition_lines(
    partitions: Seq<BusyPartition>,
    holders: Seq<Seq<Seq<char>>>,
    i: int,
) -> Seq<Seq<char>> {
    usage(&partitions[i]) + if i < holders.len() {
        holding(&partitions[i], holders[i])
    } else {
        Seq::empty()
    }
}

/// What the user is told of the first `n` partitions.
pub open spec fn lines_up_to(
    partitions: Seq<BusyPartition>,
    holders: Seq<Seq<Seq<char>>>,
    n: nat,
) -> Seq<Seq<char>>
    decreases n,
{
    if n == 0 {
        Seq::empty()
    } else {
        lines_up_to(partitions, holders, (n - 1) as nat) + partition_lines(
            partitions,
            holders,
            n - 1,
        )
    }
}

/// What the user is told of a device that is in use, given the holders of the first of its
/// partitions. The report ends at the partition whose holders could not be listed.
pub open spec fn busy_report(
    device: Seq<char>,
    partitions: Seq<BusyPartition>,
    holders: Seq<Seq<Seq<char>>>,
) -> Seq<Seq<char>> {
    let described = if holders.len() < partitions.len() {
        holders.len() + 1
    } else {
        partitions.len()
    };
    seq!["Partitions in use on "@ + device + ":"@] + lines_up_to(partitions, holders, described)
}

/// Reports what uses a device, given the holders of its partitions: of each partition how it is
/// used, and then its holders. Where the holders of a partition cannot be listed, those of the
/// partitions before it are given.
pub fn report_busy_device(
    device: &str,
    partitions: &Vec<BusyPartition>,
    holders: &Vec<Vec<String>>,
) -> (lines: Vec<String>)
    ensures
        contents(lines@) == busy_report(device@, partitions@, names(holders@)),
{
    let mut lines: Vec<String> = Vec::new();
    lines.push(announce_busy_device(device));
    let ghost heading = contents(lines@);
    let ghost held = names(holders@);
    assert(heading =~= seq!["Partitions in use on "@ + device@ + ":"@]);
    assert(heading =~= heading + lines_up_to(partitions@, held, 0));
    let mut i: usize = 0;
    while i < partitions.len() && i <= holders.len()
        invariant
            i <= partitions@.len(),
            i <= holders@.len() + 1,
            held == names(holders@),
            contents(lines@) == heading + lines_up_to(partitions@, held, i as nat),
        decreases partitions@.len() - i,
    {
        let ghost before = contents(lines@);
        let ghost said = lines@;
        let mut usage_lines = partitions[i].describe_usage();
        let ghost used = usage_lines@;
        lines.append(&mut usage_lines);
        assert(contents(lines@) =~= before + usage(&partitions@[i as int])) by {
            assert(lines@ =~= said + used);
            assert(contents(used) == usage(&partitions@[i as int]));
            assert(contents(said + used) =~= contents(said) + contents(used));
        }
        if i < holders.len() {
            let ghost middle = contents(lines@);
            let ghost told = lines@;
            let mut holder_lines = partitions[i].describe_holders(&holders[i]);
            let ghost added = holder_lines@;
            lines.append(&mut holder_lines);
            assert(contents(lines@) =~= middle + holding(&partitions@[i as int], held[i as int]))
                by {
                assert(lines@ =~= told + added);
                assert(contents(told + added) =~= contents(told) + contents(added));
            }
        }
        i += 1;
        assert(contents(lines@) =~= before + partition_lines(partitions@, held, i - 1));
        assert(contents(lines@) =~= heading + lines_up_to(partitions@, held, i as nat));
    }
    lines
}

impl BusyPartition {
    /// Says how the partition is used, as far as it is mounted or swapped to.
    pub fn describe_usage(&self) -> (lines: Vec<String>)
        ensures
            contents(lines@) == usage(self),
    {
        let mut lines: Vec<String> = Vec::new();
        let path = self.path.as_str();
        if let Some(mountpoint) = &self.mountpoint {
            lines.push(enclose("    ", path, " mounted on ").concat(mountpoint.as_str()));
        }
        if self.swap {
            lines.push(enclose("    ", path, " is swap device"));
        }
        assert(contents(lines@) =~= usage(self));
        lines
    }

    /// Says that `holder`, a device that is built on the partition, uses it.
    pub fn describe_holder(&self, holder: &str) -> (line: String)
        ensures
            line@ == "    "@ + self.path@ + " in use by "@ + holder@,
    {
        enclose("    ", self.path.as_str(), " in use by ").concat(holder)
    }

    /// Says which devices are built on the partition, one line for each, in their order.
    pub fn describe_holders(&self, holders: &Vec<String>) -> (lines: Vec<String>)
        ensures
            contents(lines@) == holding(self, contents(holders@)),
    {
        let mut lines: Vec<String> = Vec::new();
        let mut i: usize = 0;
        while i < holders.len()
            invariant
                i <= holders@.len(),
                contents(lines@) == holding(self, contents(holders@)).take(i as int),
            decreases holders@.len() - i,
        {
            let ghost before = contents(lines@);
            lines.push(self.describe_holder(holders[i].as_str()));
            i += 1;
            assert(contents(lines@) =~= before.push(
                "    "@ + self.path@ + " in use by "@ + holders@[i - 1]@,
            ));
            assert(contents(lines@) =~= holding(self, contents(holders@)).take(i as int));
        }
        assert(contents(lines@) =~= holding(self, contents(holders@)));
        lines
    }
}

/// Texts are ordered like words in a dictionary: by the first character in which they differ, and
/// a text before its continuations.
pub proof fn law_dictionary_order(a: char, left: Seq<char>, b: char, right: Seq<char>)
    ensures
        in_order(Seq::empty(), right),
        !in_order(seq![a] + left, Seq::empty()),
        in_order(seq![a] + left, seq![b] + right) <==> a < b || (a == b && in_order(left, right)),
{
    let nothing = Seq::<char>::empty();
    let l = seq![a] + left;
    let r = seq![b] + right;
    assert(differ_at(nothing, right, 0));
    if in_order(l, r) {
        let k = choose|k: int|
            differ_at(l, r, k) && (k == l.len() || (k < r.len() && l[k] < r[k]));
        if k == 0 {
            assert(l[0] == a && r[0] == b);
        } else {
            assert(l[0] == r[0]);
            assert forall|i: int| 0 <= i < k - 1 implies left[i] == right[i] by {
                assert(l[i + 1] == r[i + 1]);
            }
            if k < l.len() {
                assert(l[k] == left[k - 1]);
            }
            if k < r.len() {
                assert(r[k] == right[k - 1]);
            }
            assert(differ_at(left, right, k - 1));
        }
    }
    if a < b {
        assert(differ_at(l, r, 0));
    }
    if a == b && in_order(left, right) {
        let k = choose|k: int|
            differ_at(left, right, k) && (k == left.len() || (k < right.len() && left[k]
                < right[k]));
        assert forall|i: int| 0 <= i < k + 1 implies l[i] == r[i] by {
            if i > 0 {
                assert(l[i] == left[i - 1] && r[i] == right[i - 1]);
            }
        }
        if k < left.len() {
            assert(l[k + 1] == left[k]);
        }
        if k < right.len() {
            assert(r[k + 1] == right[k]);
        }
        assert(differ_at(l, r, k + 1));
    }
}

/// A partition that is mounted gets a line with the whole of its path and of its mountpoint. One
/// that is swapped to gets a line after that, and each of its holders gets one too.
pub proof fn law_usage_is_told(partition: &BusyPartition, holders: Seq<Seq<char>>)
    ensures
        usage(partition).len() == (if partition.mountpoint is Some {
            1int
        } else {
            0int
        }) + (if partition.swap {
            1int
        } else {
            0int
        }),
        partition.mountpoint is Some ==> usage(partition)[0] == "    "@ + partition.path@
            + " mounted on "@ + partition.mountpoint->0@,
        partition.swap ==> usage(partition).last() == "    "@ + partition.path@
            + " is swap device"@,
        holding(partition, holders).len() == holders.len(),
        forall|i: int|
            0 <= i < holders.len() ==> #[trigger] holding(partition, holders)[i] == "    "@
                + partition.path@ + " in use by "@ + holders[i],
{
}

proof fn lemma_lines_shift(
    partitions: Seq<BusyPartition>,
    holders: Seq<Seq<Seq<char>>>,
    n: nat,
)
    requires
        partitions.len() > 0,
        holders.len() > 0,
        n < partitions.len(),
    ensures
        lines_up_to(partitions, holders, n + 1) == partition_lines(partitions, holders, 0)
            + lines_up_to(partitions.skip(1), holders.skip(1), n),
    decreases n,
{
    let ps = partitions.skip(1);
    let hs = holders.skip(1);
    let head = partition_lines(partitions, holders, 0);
    if n == 0 {
        assert(lines_up_to(partitions, holders, 0) =~= Seq::empty());
        assert(lines_up_to(ps, hs, 0) =~= Seq::empty());
        assert(lines_up_to(partitions, holders, 1) =~= head + lines_up_to(ps, hs, 0));
    } else {
        let m = (n - 1) as nat;
        lemma_lines_shift(partitions, holders, m);
        assert(ps[m as int] == partitions[n as int]);
        if n < holders.len() {
            assert(hs[m as int] == holders[n as int]);
        }
        let last = partition_lines(partitions, holders, n as int);
        assert(partition_lines(ps, hs, m as int) == last);
        assert(lines_up_to(partitions, holders, n + 1) == lines_up_to(partitions, holders, n)
            + last);
        assert(lines_up_to(ps, hs, n) == lines_up_to(ps, hs, m) + last);
        assert(head + lines_up_to(ps, hs, m) + last =~= head + (lines_up_to(ps, hs, m) + last));
    }
}

/// A report names the device, and goes through its partitions one by one: of each, how it is
/// used, and then who holds it. It ends with the usage of the partition whose holders are not
/// known.
pub proof fn law_report_goes_through_partitions(
    device: Seq<char>,
    partitions: Seq<BusyPartition>,
    holders: Seq<Seq<Seq<char>>>,
)
    ensures
        busy_report(device, partitions, holders).len() >= 1,
        busy_report(device, partitions, holders)[0] == "Partitions in use on "@ + device + ":"@,
        partitions.len() == 0 ==> busy_report(device, partitions, holders).len() == 1,
        partitions.len() > 0 && holders.len() == 0 ==> busy_report(device, partitions, holders).skip(
            1,
        ) == usage(&partitions[0]),
        partitions.len() > 0 && holders.len() > 0 ==> busy_report(device, partitions, holders).skip(
            1,
        ) == usage(&partitions[0]) + holding(&partitions[0], holders[0]) + busy_report(
            device,
            partitions.skip(1),
            holders.skip(1),
        ).skip(1),
{
    let report = busy_report(device, partitions, holders);
    if partitions.len() > 0 {
        if holders.len() == 0 {
            assert(lines_up_to(partitions, holders, 0) =~= Seq::empty());
            assert(lines_up_to(partitions, holders, 1) =~= usage(&partitions[0]));
            assert(report.skip(1) =~= usage(&partitions[0]));
        } else {
            let described = if holders.len() < partitions.len() {
                holders.len() + 1
            } else {
                partitions.len()
            };
            let n = (described - 1) as nat;
            let ps = partitions.skip(1);
            let hs = holders.skip(1);
            lemma_lines_shift(partitions, holders, n);
            assert(report.skip(1) =~= lines_up_to(partitions, holders, described));
            assert(busy_report(device, ps, hs).skip(1) =~= lines_up_to(ps, hs, n));
        }
    }
}

/// The holders of each partition are listed one by one.
pub proof fn law_names_are_listed(holders: Seq<Vec<String>>)
    ensures
        names(holders).len() == holders.len(),
        forall|i: int| 0 <= i < holders.len() ==> #[trigger] names(holders)[i] == contents(
            holders[i]@,
        ),
{
}

} // verus!
