use vstd::prelude::*;

use crate::text::{contains_text, contents, is_between, law_occurs, occurs};

verus! {

/// What the user is told in front of other boot filesystems.
pub const HEADING: &'static str = "\nNote: detected other devices with a filesystem labeled `boot`:";

/// What the user is told after other boot filesystems.
pub const ADVICE: &'static str = "The installed OS may not work correctly if there are multiple boot filesystems.\nBefore rebooting, investigate whether these filesystems are needed and consider\nwiping them with `wipefs -a`.\n";

/// The line for one boot filesystem.
pub open spec fn filesystem_line(filesystem: Seq<char>) -> Seq<char> {
    "  - "@ + filesystem
}

/// The lines for those of the boot filesystems that are not on the disk `root`, whose name the
/// names of its partitions contain.
pub open spec fn other_lines(filesystems: Seq<Seq<char>>, root: Seq<char>) -> Seq<Seq<char>> {
    filesystems.filter(|filesystem: Seq<char>| !occurs(filesystem, root)).map_values(
        |filesystem: Seq<char>| filesystem_line(filesystem),
    )
}

/// What the user is told of the boot filesystems. More than one is worth a warning, since the
/// bootloader and the installed system might not pick the same one.
pub open spec fn boot_warning(filesystems: Seq<Seq<char>>, root: Seq<char>) -> Seq<Seq<char>> {
    if filesystems.len() > 1 {
        seq![HEADING@] + other_lines(filesystems, root) + seq![ADVICE@]
    } else {
        Seq::empty()
    }
}

/// Says what to tell the user of the filesystems that are labeled as boot filesystems, where
/// `root` is the disk that was installed to.
pub fn warn_of_boot_filesystems(filesystems: &Vec<String>, root: &str) -> (lines: Vec<String>)
    ensures
        contents(lines@) == boot_warning(contents(filesystems@), root@),
{
    let mut lines: Vec<String> = Vec::new();
    assert(contents(lines@) =~= Seq::<Seq<char>>::empty());
    if filesystems.len() <= 1 {
        return lines;
    }
    lines.push(HEADING.to_owned());
    let ghost all = contents(filesystems@);
    let ghost elsewhere = |filesystem: Seq<char>| !occurs(filesystem, root@);
    let ghost line = |filesystem: Seq<char>| filesystem_line(filesystem);
    proof {
        reveal(Seq::filter);
        assert(all.take(0).filter(elsewhere).map_values(line) =~= Seq::empty());
        assert(contents(lines@) =~= seq![HEADING@] + all.take(0).filter(elsewhere).map_values(line));
    }
    let mut i: usize = 0;
    while i < filesystems.len()
        invariant
            i <= filesystems@.len(),
            all == contents(filesystems@),
            elsewhere == (|filesystem: Seq<char>| !occurs(filesystem, root@)),
            line == (|filesystem: Seq<char>| filesystem_line(filesystem)),
            contents(lines@) == seq![HEADING@] + all.take(i as int).filter(elsewhere).map_values(
                line,
            ),
        decreases filesystems@.len() - i,
    {
        let ghost before = contents(lines@);
        proof {
            reveal(Seq::filter);
            assert(all.take(i + 1).drop_last() =~= all.take(i as int));
            assert(all.take(i + 1).last() == all[i as int]);
        }
        let filesystem = filesystems[i].as_str();
        if !contains_text(filesystem, root) {
            lines.push("  - ".to_owned().concat(filesystem));
            assert(contents(lines@) =~= before.push(filesystem_line(all[i as int])));
            assert(all.take(i + 1).filter(elsewhere) == all.take(i as int).filter(elsewhere).push(
                all[i as int],
            ));
            assert(all.take(i + 1).filter(elsewhere).map_values(line) =~= all.take(i as int).filter(
                elsewhere,
            ).map_values(line).push(filesystem_line(all[i as int])));
        }
        i += 1;
        assert(contents(lines@) =~= seq![HEADING@] + all.take(i as int).filter(elsewhere).map_values(
            line,
        ));
    }
    assert(all.take(i as int) =~= all);
    let ghost before = contents(lines@);
    lines.push(ADVICE.to_owned());
    assert(contents(lines@) =~= before.push(ADVICE@));
    assert(contents(lines@) =~= boot_warning(all, root@));
    lines
}

/// Nothing is said of a single boot filesystem. Several get a heading, advice, and lines between
/// the two.
pub proof fn law_several_boot_filesystems_are_worth_a_warning(
    filesystems: Seq<Seq<char>>,
    root: Seq<char>,
)
    ensures
        filesystems.len() <= 1 ==> boot_warning(filesystems, root).len() == 0,
        filesystems.len() >= 2 ==> {
            let lines = boot_warning(filesystems, root);
            let n = lines.len() as int;
            &&& n >= 2
            &&& lines[0]
                == "\nNote: detected other devices with a filesystem labeled `boot`:"@
            &&& lines[n - 1]
                == "The installed OS may not work correctly if there are multiple boot filesystems.\nBefore rebooting, investigate whether these filesystems are needed and consider\nwiping them with `wipefs -a`.\n"@
            &&& lines.subrange(1, n - 1) == other_lines(filesystems, root)
        },
{
    if filesystems.len() >= 2 {
        let lines = boot_warning(filesystems, root);
        assert(lines.subrange(1, lines.len() - 1) =~= other_lines(filesystems, root));
    }
}

/// A boot filesystem gets a line with its whole name, exactly if the name of the disk that was
/// installed to does not stand in it. The lines keep the order of the filesystems.
pub proof fn law_filesystems_elsewhere_are_listed(
    filesystems: Seq<Seq<char>>,
    filesystem: Seq<char>,
    root: Seq<char>,
)
    ensures
        other_lines(Seq::empty(), root).len() == 0,
        (exists|before: Seq<char>, after: Seq<char>| #[trigger]
            is_between(filesystem, before, root, after)) ==> other_lines(
            filesystems.push(filesystem),
            root,
        ) == other_lines(filesystems, root),
        (forall|before: Seq<char>, after: Seq<char>| !#[trigger]
            is_between(filesystem, before, root, after)) ==> other_lines(
            filesystems.push(filesystem),
            root,
        ) == other_lines(filesystems, root).push("  - "@ + filesystem),
{
    let elsewhere = |name: Seq<char>| !occurs(name, root);
    let line = |name: Seq<char>| filesystem_line(name);
    let more = filesystems.push(filesystem);
    law_occurs(filesystem, root);
    reveal(Seq::filter);
    assert(more.drop_last() =~= filesystems);
    assert(more.last() == filesystem);
    if elsewhere(filesystem) {
        assert(more.filter(elsewhere) == filesystems.filter(elsewhere).push(filesystem));
        assert(more.filter(elsewhere).map_values(line) =~= filesystems.filter(elsewhere).map_values(
            line,
        ).push(line(filesystem)));
    }
}

} // verus!
