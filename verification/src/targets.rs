//! Where the targets of a run come from: the arguments after a lone `--`,
//! or the lines of a list.

use vstd::prelude::*;
use vstd::string::StrSliceExecFns;
use crate::text::{texts, trim, trimmed};

verus! {

/// Exit status of the program after a completed run.
pub const EXIT_COMPLETED: i32 = 0;

/// Exit status of the program when no target was supplied.
pub const EXIT_NO_TARGETS: i32 = 2;

/// The arguments that follow the first lone `--`; none if there is no `--`.
pub open spec fn after_separator(args: Seq<Seq<char>>) -> Seq<Seq<char>>
    decreases args.len(),
{
    if args.len() == 0 {
        Seq::empty()
    } else if args[0] == "--"@ {
        args.drop_first()
    } else {
        after_separator(args.drop_first())
    }
}

/// Whether a line of a target list names a target: trimmed of white space
/// it is not empty and does not start with `#`.
pub open spec fn names_target(line: Seq<char>) -> bool {
    trimmed(line).len() > 0 && trimmed(line)[0] != '#'
}

/// The targets that the lines of a list name, in order.
pub open spec fn targets_of_lines(lines: Seq<Seq<char>>) -> Seq<Seq<char>>
    decreases lines.len(),
{
    if lines.len() == 0 {
        Seq::empty()
    } else if names_target(lines.last()) {
        targets_of_lines(lines.drop_last()).push(trimmed(lines.last()))
    } else {
        targets_of_lines(lines.drop_last())
    }
}

/// The targets given on the command line: every argument after the first
/// lone `--`.
pub fn targets_from_args(args: &Vec<String>) -> (targets: Vec<String>)
    ensures
        texts(targets@) == after_separator(texts(args@)),
{
    let separator = "--".to_owned();
    let ghost all = texts(args@);
    let mut targets: Vec<String> = Vec::new();
    let mut i: usize = 0;
    assert(all.skip(0) =~= all);
    while i < args.len()
        invariant
            i <= args.len(),
            all == texts(args@),
            separator@ == "--"@,
            targets.len() == 0,
            after_separator(all) == after_separator(all.skip(i as int)),
        decreases args.len() - i,
    {
        let ghost rest = all.skip(i as int);
        assert(rest[0] == args@[i as int]@);
        assert(rest.drop_first() =~= all.skip(i + 1));
        if args[i] == separator {
            let mut j: usize = i + 1;
            while j < args.len()
                invariant
                    i < j <= args.len(),
                    all == texts(args@),
                    texts(targets@) == all.subrange(i + 1, j as int),
                decreases args.len() - j,
            {
                let ghost before = texts(targets@);
                let target = args[j].clone();
                assert(target@ == all[j as int]);
                targets.push(target);
                assert(texts(targets@) =~= before.push(all[j as int]));
                assert(before.push(all[j as int]) =~= all.subrange(i + 1, j + 1));
                j += 1;
            }
            assert(all.subrange(i + 1, j as int) =~= all.skip(i + 1));
            return targets;
        }
        i += 1;
    }
    assert(all.skip(i as int) =~= Seq::<Seq<char>>::empty());
    assert(texts(targets@) =~= Seq::<Seq<char>>::empty());
    targets
}

/// The target that a line of a list names, if it names one.
pub fn target_from_line(line: &str) -> (target: Option<String>)
    ensures
        match target {
            Some(t) => names_target(line@) && t@ == trimmed(line@),
            None => !names_target(line@),
        },
{
    let inner = trim(line);
    if inner.unicode_len() == 0 {
        return None;
    }
    if inner.get_char(0) == '#' {
        return None;
    }
    Some(inner.to_owned())
}

/// The targets that the lines of a list name: blank lines and lines that
/// start with `#` are left out, the others are trimmed.
pub fn targets_from_lines(lines: &Vec<String>) -> (targets: Vec<String>)
    ensures
        texts(targets@) == targets_of_lines(texts(lines@)),
{
    let ghost all = texts(lines@);
    let mut targets: Vec<String> = Vec::new();
    let mut i: usize = 0;
    assert(texts(targets@) =~= Seq::<Seq<char>>::empty());
    assert(all.take(0) =~= Seq::<Seq<char>>::empty());
    while i < lines.len()
        invariant
            i <= lines.len(),
            all == texts(lines@),
            texts(targets@) == targets_of_lines(all.take(i as int)),
        decreases lines.len() - i,
    {
        let ghost before = texts(targets@);
        proof {
            assert(all.take(i + 1).drop_last() =~= all.take(i as int));
            assert(all.take(i + 1).last() == lines@[i as int]@);
        }
        match target_from_line(lines[i].as_str()) {
            Some(target) => {
                targets.push(target);
                assert(texts(targets@) =~= before.push(target@));
            },
            None => {},
        }
        i += 1;
    }
    assert(all.take(i as int) =~= all);
    targets
}

} // verus!
