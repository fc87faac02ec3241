//! The versions that a lock file names.
use crate::text::{chars_of, same_str, text_of, trim, trimmed};
use crate::view_keys::{has_prefix, starts_with};
use crate::views::views;
use vstd::prelude::*;

verus! {

broadcast use crate::views::group_views;

/// Where `separator` first stands in the text, from `i` on.
pub open spec fn first_at(s: Seq<char>, separator: Seq<char>, i: int) -> Option<int>
    decreases s.len() + 1 - i,
{
    if i < 0 || i + separator.len() > s.len() {
        None
    } else if s.subrange(i, i + separator.len()) == separator {
        Some(i)
    } else {
        first_at(s, separator, i + 1)
    }
}

/// The pieces of the text between the separators.
pub open spec fn pieces(s: Seq<char>, separator: Seq<char>) -> Seq<Seq<char>>
    decreases s.len(),
{
    match first_at(s, separator, 0) {
        Some(i) => if separator.len() > 0 && 0 <= i && i + separator.len() <= s.len() {
            seq![s.take(i)] + pieces(s.skip(i + separator.len()), separator)
        } else {
            seq![s]
        },
        None => seq![s],
    }
}

/// What stands in a line behind `prefix`, up to the quotation mark at its end.
pub open spec fn quoted(line: Seq<char>, prefix: Seq<char>) -> Option<Seq<char>> {
    let value = line.skip(prefix.len() as int);
    if value.len() > 0 && value.last() == '"' {
        Some(value.drop_last())
    } else {
        None
    }
}

/// The value in the last of the lines that begin with `prefix`.
pub open spec fn field(lines: Seq<Seq<char>>, prefix: Seq<char>) -> Option<Seq<char>>
    decreases lines.len(),
{
    if lines.len() == 0 {
        None
    } else if starts_with(trimmed(lines.last()), prefix) {
        quoted(trimmed(lines.last()), prefix)
    } else {
        field(lines.drop_last(), prefix)
    }
}

/// The version in a section, where it is that of the package.
pub open spec fn version_in(section: Seq<char>, package: Seq<char>) -> Option<Seq<char>> {
    let lines = pieces(section, seq!['\n']);
    if field(lines, "name = \""@) == Some(package) {
        field(lines, "version = \""@)
    } else {
        None
    }
}

/// The first version that one of the sections has for the package.
pub open spec fn first_version(sections: Seq<Seq<char>>, package: Seq<char>) -> Option<Seq<char>>
    decreases sections.len(),
{
    if sections.len() == 0 {
        None
    } else {
        match version_in(sections[0], package) {
            Some(version) => Some(version),
            None => first_version(sections.drop_first(), package),
        }
    }
}

/// The version that a lock file names for a package.
pub open spec fn locked_version(lock: Seq<char>, package: Seq<char>) -> Option<Seq<char>> {
    first_version(pieces(lock, "[[package]]"@), package)
}

fn stands_at(s: &Vec<char>, separator: &Vec<char>, i: usize) -> (r: bool)
    requires
        i + separator.len() <= s.len(),
    ensures
        r == (s@.subrange(i as int, i + separator.len()) == separator@),
{
    let ghost part = s@.subrange(i as int, i + separator.len());
    let mut k: usize = 0;
    while k < separator.len()
        invariant
            k <= separator.len(),
            i + separator.len() <= s.len(),
            part == s@.subrange(i as int, i + separator.len()),
            forall|j: int| 0 <= j < k ==> part[j] == separator@[j],
        decreases separator.len() - k,
    {
        if s[i + k] != separator[k] {
            assert(part[k as int] != separator@[k as int]);
            return false;
        }
        k += 1;
    }
    assert(part =~= separator@);
    true
}

fn find(s: &Vec<char>, separator: &Vec<char>) -> (r: Option<usize>)
    ensures
        first_at(s@, separator@, 0) == (match r {
            Some(i) => Some(i as int),
            None => None::<int>,
        }),
        r matches Some(i) ==> i + separator.len() <= s.len(),
{
    let mut i: usize = 0;
    while i <= s.len() && separator.len() <= s.len() - i
        invariant
            i <= s.len() + 1,
            first_at(s@, separator@, 0) == first_at(s@, separator@, i as int),
        decreases s.len() + 1 - i,
    {
        if stands_at(s, separator, i) {
            return Some(i);
        }
        if i == s.len() {
            assert(first_at(s@, separator@, i + 1) is None);
            return None;
        }
        i += 1;
    }
    None
}

fn split(s: Vec<char>, separator: &Vec<char>) -> (r: Vec<Vec<char>>)
    requires
        separator.len() > 0,
    ensures
        views(r@) == pieces(s@, separator@),
{
    let ghost goal = pieces(s@, separator@);
    let mut rest = s;
    let mut r: Vec<Vec<char>> = Vec::new();
    assert(goal =~= views(r@) + pieces(rest@, separator@));
    loop
        invariant
            separator.len() > 0,
            goal == pieces(s@, separator@),
            goal == views(r@) + pieces(rest@, separator@),
        decreases rest.len(),
    {
        match find(&rest, separator) {
            Some(i) => {
                let ghost before = rest@;
                let ghost done = views(r@);
                let tail = rest.split_off(i + separator.len());
                rest.truncate(i);
                proof {
                    assert(rest@ =~= before.take(i as int));
                    assert(tail@ =~= before.skip(i + separator.len()));
                }
                r.push(rest);
                rest = tail;
                proof {
                    assert(done + (seq![before.take(i as int)] + pieces(rest@, separator@))
                        =~= views(r@) + pieces(rest@, separator@));
                }
            },
            None => {
                r.push(rest);
                assert(views(r@) =~= goal);
                return r;
            },
        }
    }
}

fn find_field(lines: &Vec<Vec<char>>, prefix: &str) -> (r: Option<String>)
    ensures
        field(views(lines@), prefix@) == (match r {
            Some(value) => Some(value@),
            None => None,
        }),
{
    let start = chars_of(prefix);
    let ghost all = views(lines@);
    let mut n: usize = lines.len();
    assert(all.take(n as int) =~= all);
    while n > 0
        invariant
            n <= lines.len() == all.len(),
            all == views(lines@),
            start@ == prefix@,
            field(all, prefix@) == field(all.take(n as int), prefix@),
        decreases n,
    {
        let line = trim(text_of(&lines[n - 1], 0, lines[n - 1].len()).as_str());
        let chars = chars_of(line.as_str());
        proof {
            let text = lines@[n - 1]@;
            assert(text.subrange(0, text.len() as int) =~= text);
            assert(all.take(n as int).last() == text);
            assert(all.take(n as int).drop_last() =~= all.take(n - 1));
        }
        if has_prefix(&chars, &start) {
            let ghost value = chars@.skip(start.len() as int);
            if chars.len() > start.len() && chars[chars.len() - 1] == '"' {
                assert(value.last() == chars@.last());
                let r = text_of(&chars, start.len(), chars.len() - 1);
                assert(r@ =~= value.drop_last());
                return Some(r);
            }
            assert(value.len() > 0 ==> value.last() == chars@.last());
            return None;
        }
        n -= 1;
    }
    None
}

fn find_version(section: Vec<char>, package: &str) -> (r: Option<String>)
    ensures
        version_in(section@, package@) == (match r {
            Some(version) => Some(version@),
            None => None,
        }),
{
    let mut newline: Vec<char> = Vec::new();
    newline.push('\n');
    assert(newline@ =~= seq!['\n']);
    let lines = split(section, &newline);
    match find_field(&lines, "name = \"") {
        Some(name) => if same_str(name.as_str(), package) {
            find_field(&lines, "version = \"")
        } else {
            None
        },
        None => None,
    }
}

/// The version that a lock file names for a package: that in the first of its
/// sections which has one under this name.
pub fn package_version(lock: &str, package: &str) -> (r: Option<String>)
    ensures
        locked_version(lock@, package@) == (match r {
            Some(version) => Some(version@),
            None => None,
        }),
{
    let separator = chars_of("[[package]]");
    proof {
        reveal_strlit("[[package]]");
    }
    let mut sections = split(chars_of(lock), &separator);
    let ghost all = views(sections@);
    let ghost mut done: int = 0;
    assert(all.skip(0) =~= all);
    while sections.len() > 0
        invariant
            0 <= done,
            all == pieces(lock@, "[[package]]"@),
            done + sections.len() == all.len(),
            views(sections@) == all.skip(done),
            first_version(all, package@) == first_version(all.skip(done), package@),
        decreases sections.len(),
    {
        let section = sections.remove(0);
        proof {
            assert(section@ == all.skip(done)[0]);
            assert(all.skip(done).drop_first() =~= all.skip(done + 1));
            assert(views(sections@) =~= all.skip(done + 1));
            done = done + 1;
        }
        if let Some(version) = find_version(section, package) {
            return Some(version);
        }
    }
    None
}

} // verus!
