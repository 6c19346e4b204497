//! Paths, as each family of operating systems reads them.

use vstd::prelude::*;

use crate::text;

verus! {

/// A family of operating systems.
#[derive(Clone, Copy, Debug, PartialEq, Eq, Structural)]
pub enum Platform {
    MacOs,
    Windows,
    Other,
}

/// Whether the character separates the parts of a path.
pub open spec fn separates(platform: Platform, c: char) -> bool {
    c == '/' || platform == Platform::Windows && c == '\\'
}

/// Whether the character separates the parts of a path.
pub fn is_separator(platform: Platform, c: char) -> (r: bool)
    ensures
        r == separates(platform, c),
{
    c == '/' || platform == Platform::Windows && c == '\\'
}

/// What is put between the parts of a path.
pub open spec fn separator(platform: Platform) -> char {
    if platform == Platform::Windows {
        '\\'
    } else {
        '/'
    }
}

/// Whether the path begins with the letter of a drive.
pub open spec fn has_drive(path: Seq<char>) -> bool {
    &&& path.len() >= 2
    &&& ('a' <= path[0] <= 'z' || 'A' <= path[0] <= 'Z')
    &&& path[1] == ':'
}

fn begins_with_drive(path: &Vec<char>) -> (r: bool)
    ensures
        r == has_drive(path@),
{
    if path.len() < 2 || path[1] != ':' {
        return false;
    }
    let c = path[0];
    'a' <= c && c <= 'z' || 'A' <= c && c <= 'Z'
}

/// Where the part of a path that begins at `from` ends.
pub open spec fn part_end(platform: Platform, path: Seq<char>, from: int) -> int
    decreases path.len() - from,
{
    if from < 0 || from >= path.len() || separates(platform, path[from]) {
        from
    } else {
        part_end(platform, path, from + 1)
    }
}

fn end_of_part(platform: Platform, path: &Vec<char>, from: usize) -> (r: usize)
    requires
        from <= path@.len(),
    ensures
        from <= r <= path@.len(),
        r == part_end(platform, path@, from as int),
{
    let mut i: usize = from;
    while i < path.len() && !is_separator(platform, path[i])
        invariant
            from <= i <= path@.len(),
            part_end(platform, path@, i as int) == part_end(platform, path@, from as int),
        decreases path@.len() - i,
    {
        i += 1;
    }
    i
}

/// How long the prefix of a path is, on Windows: a drive, as in `C:`, or a share of another
/// machine, as in `\\server\share`. Elsewhere paths have no prefix.
pub open spec fn prefix_len(platform: Platform, path: Seq<char>) -> int {
    if platform != Platform::Windows {
        0
    } else if has_drive(path) {
        2
    } else if path.len() >= 2 && separates(platform, path[0]) && separates(platform, path[1]) {
        let server = part_end(platform, path, 2);
        let share = part_end(platform, path, server + 1);
        if server == 2 || server >= path.len() || share == server + 1 {
            0
        } else {
            share
        }
    } else {
        0
    }
}

fn length_of_prefix(platform: Platform, path: &Vec<char>) -> (r: usize)
    ensures
        r == prefix_len(platform, path@),
        r <= path@.len(),
{
    if platform != Platform::Windows {
        return 0;
    }
    if begins_with_drive(path) {
        return 2;
    }
    if path.len() < 2 || !is_separator(platform, path[0]) || !is_separator(platform, path[1]) {
        return 0;
    }
    let server = end_of_part(platform, path, 2);
    if server == 2 || server >= path.len() {
        return 0;
    }
    let share = end_of_part(platform, path, server + 1);
    if share == server + 1 {
        0
    } else {
        share
    }
}

/// Whether a path begins at a root: behind a drive, a separator is needed for that; a share
/// is a root.
pub open spec fn has_root(platform: Platform, path: Seq<char>) -> bool {
    if platform == Platform::Windows && has_drive(path) {
        path.len() > 2 && separates(platform, path[2])
    } else {
        path.len() > 0 && separates(platform, path[0])
    }
}

fn begins_at_root(platform: Platform, path: &Vec<char>) -> (r: bool)
    ensures
        r == has_root(platform, path@),
{
    if platform == Platform::Windows && begins_with_drive(path) {
        path.len() > 2 && is_separator(platform, path[2])
    } else {
        path.len() > 0 && is_separator(platform, path[0])
    }
}

/// Whether a path means the same whatever the current directory is.
pub open spec fn is_absolute(platform: Platform, path: Seq<char>) -> bool {
    has_root(platform, path) && (platform != Platform::Windows || prefix_len(platform, path) > 0)
}

/// Whether a path means the same whatever the current directory is.
pub fn is_absolute_path(platform: Platform, path: &str) -> (r: bool)
    ensures
        r == is_absolute(platform, path@),
{
    let chars = text::chars_of(path);
    begins_at_root(platform, &chars) && (platform != Platform::Windows || length_of_prefix(
        platform,
        &chars,
    ) > 0)
}

/// `part` under the directory `base`: a `part` with a prefix, or an absolute one, stands for
/// itself; one that begins at a root keeps nothing of `base` but its prefix. A `base` in the
/// verbatim form of Windows, as in `\\?\C:\dir`, is extended like any other.
pub open spec fn joined(platform: Platform, base: Seq<char>, part: Seq<char>) -> Seq<char> {
    if prefix_len(platform, part) > 0 {
        part
    } else if has_root(platform, part) {
        base.take(prefix_len(platform, base)) + part
    } else if base.len() == 0 || separates(platform, base.last()) || base.len() == prefix_len(
        platform,
        base,
    ) && has_drive(base) {
        base + part
    } else {
        base.push(separator(platform)) + part
    }
}

/// The path of `part` under the directory `base`.
pub fn join_path(platform: Platform, base: &str, part: &str) -> (out: String)
    ensures
        out@ == joined(platform, base@, part@),
{
    let left = text::chars_of(base);
    let right = text::chars_of(part);
    if length_of_prefix(platform, &right) > 0 {
        return part.to_owned();
    }
    let prefix = length_of_prefix(platform, &left);
    if begins_at_root(platform, &right) {
        let mut out = text::text_of(&left, 0, prefix);
        assert(left@.subrange(0, prefix as int) =~= left@.take(prefix as int));
        out.append(part);
        return out;
    }
    let mut out = base.to_owned();
    if left.len() > 0 && !is_separator(platform, left[left.len() - 1]) && !(left.len() == prefix
        && begins_with_drive(&left)) {
        out.push(
            if platform == Platform::Windows {
                '\\'
            } else {
                '/'
            },
        );
    }
    out.append(part);
    out
}

/// An absolute path is the same under every directory.
pub proof fn law_absolute_path_stays(platform: Platform, base: Seq<char>, path: Seq<char>)
    requires
        is_absolute(platform, path),
    ensures
        joined(platform, base, path) == path,
{
    if prefix_len(platform, path) == 0 {
        assert(base.take(0) + path =~= path);
    }
}

/// A part is put behind a directory with one separator in between.
pub proof fn law_part_stands_below_its_directory(
    platform: Platform,
    base: Seq<char>,
    part: Seq<char>,
)
    requires
        base.len() > 0,
        !separates(platform, base.last()),
        part.len() > 0,
        !separates(platform, part.first()),
        platform == Platform::Windows ==> !has_drive(part) && !(has_drive(base) && base.len() == 2),
    ensures
        platform == Platform::Windows ==> joined(platform, base, part) == base + seq!['\\'] + part,
        platform != Platform::Windows ==> joined(platform, base, part) == base + seq!['/'] + part,
        platform != Platform::Windows ==> joined(platform, base + seq!['/'], part) == base + seq![
            '/',
        ] + part,
        joined(platform, Seq::empty(), part) == part,
{
    assert(base.push(separator(platform)) + part =~= base + seq![separator(platform)] + part);
    assert(Seq::<char>::empty() + part =~= part);
}

/// Where paths have no drives, a path is absolute exactly where it begins with a slash.
pub proof fn law_slash_makes_a_path_absolute(platform: Platform, path: Seq<char>)
    requires
        platform != Platform::Windows,
    ensures
        is_absolute(platform, path) <==> path.len() > 0 && path[0] == '/',
{
}

/// With drives, a path is absolute where a separator follows the drive, and neither a drive
/// nor a separator alone makes it so.
pub proof fn law_drive_and_separator_make_a_path_absolute(path: Seq<char>)
    ensures
        has_drive(path) ==> (is_absolute(Platform::Windows, path) <==> path.len() > 2 && (path[2]
            == '/' || path[2] == '\\')),
        !has_drive(path) && path.len() > 0 && path[0] != '/' && path[0] != '\\' ==> !is_absolute(
            Platform::Windows,
            path,
        ),
        path.len() == 1 ==> !is_absolute(Platform::Windows, path),
{
}

} // verus!
