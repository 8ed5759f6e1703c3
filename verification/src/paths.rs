//! File names and paths as text.
use crate::text;
use vstd::prelude::*;

verus! {

/// The operating systems that the worker tells apart.
#[derive(Clone, Copy, PartialEq, Eq, Structural)]
pub enum Os {
    Macos,
    Windows,
    Linux,
    OtherUnix,
}

/// The position of the last `c` in `s`, if there is one.
pub open spec fn last_index(s: Seq<char>, c: char) -> Option<int>
    decreases s.len(),
{
    if s.len() == 0 {
        None
    } else if s.last() == c {
        Some(s.len() - 1)
    } else {
        last_index(s.drop_last(), c)
    }
}

/// Whether `c` sets the components of a path apart.
pub open spec fn is_separator(c: char, os: Os) -> bool {
    c == '/' || (os is Windows && c == '\\')
}

/// Whether a path is in the verbatim form of Windows, which begins with `\\?\`: in it nothing but
/// the backslash sets components apart, and `.` is a component like any other.
pub open spec fn is_verbatim(path: Seq<char>, os: Os) -> bool {
    os is Windows && path.len() >= 4 && path[0] == '\\' && path[1] == '\\' && path[2] == '?'
        && path[3] == '\\'
}

/// Whether `c` sets the components of a path apart, given whether the path is in the verbatim form.
pub open spec fn splits(c: char, verbatim: bool, os: Os) -> bool {
    if verbatim {
        c == '\\'
    } else {
        is_separator(c, os)
    }
}

/// The first position at or behind `i` that sets components apart, or the length of the path.
pub open spec fn segment_end(path: Seq<char>, i: int, verbatim: bool, os: Os) -> int
    decreases path.len() - i,
{
    if i >= path.len() {
        path.len() as int
    } else if i < 0 || splits(path[i], verbatim, os) {
        i
    } else {
        segment_end(path, i + 1, verbatim, os)
    }
}

/// Whether a drive such as `C:` stands at position `i`.
pub open spec fn drive_at(path: Seq<char>, i: int) -> bool {
    i + 2 <= path.len() && path[i + 1] == ':' && (('a' <= path[i] <= 'z') || ('A' <= path[i]
        <= 'Z'))
}

/// Whether a path begins with two separators.
pub open spec fn begins_double(path: Seq<char>, os: Os) -> bool {
    path.len() >= 2 && is_separator(path[0], os) && is_separator(path[1], os)
}

/// Whether a path begins with the device form of Windows, such as `\\.\COM1`.
pub open spec fn is_device(path: Seq<char>, os: Os) -> bool {
    begins_double(path, os) && path.len() >= 4 && path[2] == '.' && is_separator(path[3], os)
}

/// Whether a path in the verbatim form goes on with `UNC\`, behind which a server stands.
pub open spec fn names_server(path: Seq<char>) -> bool {
    path.len() >= 8 && path[4] == 'U' && path[5] == 'N' && path[6] == 'C' && path[7] == '\\'
}

/// The length of the prefix of a path in the verbatim form: `\\?\UNC\server\share`, `\\?\C:`
/// or `\\?\name`.
pub open spec fn verbatim_prefix_len(path: Seq<char>, os: Os) -> int {
    if names_server(path) {
        let server = segment_end(path, 8, true, os);
        if server + 1 < path.len() && path[server + 1] != '\\' {
            segment_end(path, server + 1, true, os)
        } else {
            server
        }
    } else if drive_at(path, 4) && (path.len() == 6 || is_separator(path[6], os)) {
        6
    } else {
        segment_end(path, 4, true, os)
    }
}

/// The length of the server and the share with which a path begins, such as `\\server\share`.
pub open spec fn share_len(path: Seq<char>, os: Os) -> int {
    let server = segment_end(path, 2, false, os);
    if 2 < server && server + 1 < path.len() && !is_separator(path[server + 1], os) {
        segment_end(path, server + 1, false, os)
    } else {
        0
    }
}

/// The length of what stands in front of a path's root: nothing but on Windows, where it is a drive,
/// a share with its server, a device, or a prefix in the verbatim form.
pub open spec fn prefix_len(path: Seq<char>, os: Os) -> int {
    if os !is Windows {
        0
    } else if is_verbatim(path, os) {
        verbatim_prefix_len(path, os)
    } else if is_device(path, os) {
        segment_end(path, 4, false, os)
    } else if begins_double(path, os) {
        share_len(path, os)
    } else if drive_at(path, 0) {
        2
    } else {
        0
    }
}

/// Whether a separator stands behind the prefix of a path.
pub open spec fn has_root(path: Seq<char>, os: Os) -> bool {
    prefix_len(path, os) < path.len() && is_separator(path[prefix_len(path, os)], os)
}

/// Where the components of a path begin: behind its prefix and its root.
pub open spec fn body_start(path: Seq<char>, os: Os) -> int {
    if has_root(path, os) {
        prefix_len(path, os) + 1
    } else {
        prefix_len(path, os)
    }
}

/// The length of a path without the separators at its end, and without the components `.` there but
/// in the verbatim form. What stands in front of `floor` stays.
pub open spec fn body_len(path: Seq<char>, floor: int, verbatim: bool, os: Os) -> int
    decreases path.len(),
{
    if path.len() <= floor || path.len() == 0 {
        path.len() as int
    } else if splits(path.last(), verbatim, os) || (!verbatim && path.last() == '.' && path.len()
        >= 2 && is_separator(path[path.len() - 2], os)) {
        body_len(path.drop_last(), floor, verbatim, os)
    } else {
        path.len() as int
    }
}

/// Where the last component of a path begins, behind `floor`.
pub open spec fn name_start(path: Seq<char>, floor: int, verbatim: bool, os: Os) -> int
    decreases path.len(),
{
    if path.len() <= floor || path.len() == 0 || splits(path.last(), verbatim, os) {
        path.len() as int
    } else {
        name_start(path.drop_last(), floor, verbatim, os)
    }
}

/// A path up to the end of its last component.
pub open spec fn body(path: Seq<char>, os: Os) -> Seq<char> {
    path.take(body_len(path, body_start(path, os), is_verbatim(path, os), os))
}

/// Where the last component of a path begins.
pub open spec fn last_start(path: Seq<char>, os: Os) -> int {
    name_start(body(path, os), body_start(path, os), is_verbatim(path, os), os)
}

/// What stands in front of the last component of a path.
pub open spec fn directory(path: Seq<char>, os: Os) -> Seq<char> {
    body(path, os).take(last_start(path, os))
}

/// The last component of a path.
pub open spec fn last_component(path: Seq<char>, os: Os) -> Seq<char> {
    body(path, os).skip(last_start(path, os))
}

/// Whether a path ends in the name of a file.
pub open spec fn names_file(path: Seq<char>, os: Os) -> bool {
    let name = last_component(path, os);
    name.len() > 0 && name != "."@ && name != ".."@
}

/// A file name without its extension. A name that begins with its only dot has none.
pub open spec fn stem(name: Seq<char>) -> Seq<char> {
    match last_index(name, '.') {
        Some(dot) => if dot == 0 {
            name
        } else {
            name.take(dot)
        },
        None => name,
    }
}

/// A path with the extension of its file name replaced. A path that names no file is left alone.
pub open spec fn with_extension(path: Seq<char>, extension: Seq<char>, os: Os) -> Seq<char> {
    if !names_file(path, os) {
        path
    } else if extension.len() == 0 {
        directory(path, os) + stem(last_component(path, os))
    } else {
        directory(path, os) + stem(last_component(path, os)) + "."@ + extension
    }
}

fn separator(c: char, os: Os) -> (r: bool)
    ensures
        r == is_separator(c, os),
{
    c == '/' || (os == Os::Windows && c == '\\')
}

fn splitting(c: char, verbatim: bool, os: Os) -> (r: bool)
    ensures
        r == splits(c, verbatim, os),
{
    if verbatim {
        c == '\\'
    } else {
        separator(c, os)
    }
}

fn find_end(chars: &Vec<char>, from: usize, verbatim: bool, os: Os) -> (r: usize)
    requires
        from <= chars@.len(),
    ensures
        from <= r <= chars@.len(),
        r == segment_end(chars@, from as int, verbatim, os),
{
    let mut i: usize = from;
    while i < chars.len() && !splitting(chars[i], verbatim, os)
        invariant
            from <= i <= chars@.len(),
            segment_end(chars@, from as int, verbatim, os) == segment_end(
                chars@,
                i as int,
                verbatim,
                os,
            ),
        decreases chars@.len() - i,
    {
        i = i + 1;
    }
    i
}

fn find_drive(chars: &Vec<char>, i: usize) -> (r: bool)
    requires
        i <= 4,
    ensures
        r == drive_at(chars@, i as int),
{
    chars.len() >= i + 2 && chars[i + 1] == ':' && (('a' <= chars[i] && chars[i] <= 'z') || ('A'
        <= chars[i] && chars[i] <= 'Z'))
}

fn verbatim(chars: &Vec<char>, os: Os) -> (r: bool)
    ensures
        r == is_verbatim(chars@, os),
{
    os == Os::Windows && chars.len() >= 4 && chars[0] == '\\' && chars[1] == '\\' && chars[2]
        == '?' && chars[3] == '\\'
}

fn find_verbatim_prefix(chars: &Vec<char>, os: Os) -> (r: usize)
    requires
        chars@.len() >= 4,
    ensures
        r <= chars@.len(),
        r == verbatim_prefix_len(chars@, os),
{
    let n = chars.len();
    if n >= 8 && chars[4] == 'U' && chars[5] == 'N' && chars[6] == 'C' && chars[7] == '\\' {
        let server = find_end(chars, 8, true, os);
        if server < n - 1 && chars[server + 1] != '\\' {
            find_end(chars, server + 1, true, os)
        } else {
            server
        }
    } else if find_drive(chars, 4) && (n == 6 || separator(chars[6], os)) {
        6
    } else {
        find_end(chars, 4, true, os)
    }
}

fn find_prefix(chars: &Vec<char>, os: Os) -> (r: usize)
    ensures
        r <= chars@.len(),
        r == prefix_len(chars@, os),
{
    let n = chars.len();
    if os != Os::Windows {
        0
    } else if verbatim(chars, os) {
        find_verbatim_prefix(chars, os)
    } else if n >= 2 && separator(chars[0], os) && separator(chars[1], os) {
        if n >= 4 && chars[2] == '.' && separator(chars[3], os) {
            return find_end(chars, 4, false, os);
        }
        let server = find_end(chars, 2, false, os);
        if 2 < server && server < n - 1 && !separator(chars[server + 1], os) {
            find_end(chars, server + 1, false, os)
        } else {
            0
        }
    } else if find_drive(chars, 0) {
        2
    } else {
        0
    }
}

fn find_root(chars: &Vec<char>, prefix: usize, os: Os) -> (r: bool)
    requires
        prefix == prefix_len(chars@, os),
    ensures
        r == has_root(chars@, os),
{
    prefix < chars.len() && separator(chars[prefix], os)
}

fn find_body_start(chars: &Vec<char>, os: Os) -> (r: usize)
    ensures
        r <= chars@.len(),
        r == body_start(chars@, os),
{
    let prefix = find_prefix(chars, os);
    let length = chars.len();
    if find_root(chars, prefix, os) {
        assert(prefix < length);
        prefix + 1
    } else {
        prefix
    }
}

fn find_body(chars: &Vec<char>, floor: usize, verbatim: bool, os: Os) -> (r: usize)
    requires
        floor <= chars@.len(),
    ensures
        r <= chars@.len(),
        r == body_len(chars@, floor as int, verbatim, os),
{
    let mut end: usize = chars.len();
    assert(chars@.take(end as int) =~= chars@);
    while floor < end && (splitting(chars[end - 1], verbatim, os) || (!verbatim && chars[end - 1]
        == '.' && end >= 2 && separator(chars[end - 2], os)))
        invariant
            end <= chars@.len(),
            body_len(chars@, floor as int, verbatim, os) == body_len(
                chars@.take(end as int),
                floor as int,
                verbatim,
                os,
            ),
        decreases end,
    {
        assert(chars@.take(end as int).drop_last() =~= chars@.take(end - 1));
        end = end - 1;
    }
    end
}

fn find_name(chars: &Vec<char>, floor: usize, end: usize, verbatim: bool, os: Os) -> (r: usize)
    requires
        end <= chars@.len(),
    ensures
        r <= end,
        r == name_start(chars@.take(end as int), floor as int, verbatim, os),
{
    let mut start: usize = end;
    while floor < start && !splitting(chars[start - 1], verbatim, os)
        invariant
            start <= end <= chars@.len(),
            name_start(chars@.take(end as int), floor as int, verbatim, os) == name_start(
                chars@.take(start as int),
                floor as int,
                verbatim,
                os,
            ),
        decreases start,
    {
        assert(chars@.take(start as int).drop_last() =~= chars@.take(start - 1));
        start = start - 1;
    }
    start
}

fn find_stem(chars: &Vec<char>, start: usize, end: usize) -> (r: usize)
    requires
        start <= end <= chars@.len(),
    ensures
        start <= r <= end,
        stem(chars@.subrange(start as int, end as int)) == chars@.subrange(start as int, r as int),
{
    let ghost name = chars@.subrange(start as int, end as int);
    let mut dot: usize = end;
    assert(name.take(dot - start) =~= name);
    while start < dot && chars[dot - 1] != '.'
        invariant
            start <= dot <= end <= chars@.len(),
            name == chars@.subrange(start as int, end as int),
            last_index(name, '.') == last_index(name.take(dot - start), '.'),
        decreases dot,
    {
        assert(name.take(dot - start).drop_last() =~= name.take(dot - 1 - start));
        dot = dot - 1;
    }
    let kept: usize = if dot - start <= 1 {
        end
    } else {
        dot - 1
    };
    assert(stem(name) =~= chars@.subrange(start as int, kept as int));
    kept
}

/// A path with the extension of its file name replaced.
pub fn replace_extension(path: &str, extension: &str, os: Os) -> (r: String)
    ensures
        r@ == with_extension(path@, extension@, os),
{
    let chars = text::characters(path);
    let raw = verbatim(&chars, os);
    let floor = find_body_start(&chars, os);
    let end = find_body(&chars, floor, raw, os);
    let start = find_name(&chars, floor, end, raw, os);
    let component = text::text_of(&chars, start, end);
    assert(component@ =~= last_component(path@, os));
    if start == end || text::same(component.as_str(), ".") || text::same(component.as_str(), "..") {
        return path.to_owned();
    }
    let kept = find_stem(&chars, start, end);
    let mut result = text::text_of(&chars, 0, kept);
    assert(result@ =~= directory(path@, os) + chars@.subrange(start as int, kept as int));
    if !extension.is_empty() {
        result.append(".");
        result.append(extension);
    }
    result
}

/// What a piece of a path contributes to its components. An empty one does not count, and outside
/// the verbatim form `.` counts at the very start of a relative path only.
pub open spec fn kept(piece: Seq<char>, verbatim: bool, start: bool) -> Seq<Seq<char>> {
    if piece.len() == 0 || (piece == "."@ && !verbatim && !start) {
        seq![]
    } else {
        seq![piece]
    }
}

/// The components of a path from position `i` on.
pub open spec fn components_from(
    path: Seq<char>,
    i: int,
    verbatim: bool,
    start: bool,
    os: Os,
) -> Seq<Seq<char>>
    decreases path.len() - i,
{
    let end = segment_end(path, i, verbatim, os);
    if end < i || end >= path.len() {
        kept(path.skip(i), verbatim, start)
    } else {
        kept(path.subrange(i, end), verbatim, start) + components_from(
            path,
            end + 1,
            verbatim,
            false,
            os,
        )
    }
}

/// Whether a path begins at a root: one that is written, or that of a share or a device.
pub open spec fn is_rooted(path: Seq<char>, os: Os) -> bool {
    has_root(path, os) || (begins_double(path, os) && 0 < prefix_len(path, os) && !is_verbatim(
        path,
        os,
    ))
}

/// The components of a path behind its prefix and its root.
pub open spec fn components(path: Seq<char>, os: Os) -> Seq<Seq<char>> {
    components_from(
        path,
        body_start(path, os),
        is_verbatim(path, os),
        !is_rooted(path, os),
        os,
    )
}

/// Where the drive letter stands in a path whose prefix is a drive.
pub open spec fn is_drive_letter(path: Seq<char>, i: int, os: Os) -> bool {
    if is_verbatim(path, os) {
        i == 4 && prefix_len(path, os) == 6 && drive_at(path, 4)
    } else {
        i == 0 && prefix_len(path, os) == 2 && drive_at(path, 0)
    }
}

/// A character of a path's prefix as it is compared: a drive letter in upper case, and outside the
/// verbatim form each separator as a backslash.
pub open spec fn prefix_char(path: Seq<char>, i: int, os: Os) -> char {
    let c = path[i];
    if is_drive_letter(path, i, os) && 'a' <= c <= 'z' {
        (c as u8 - 32) as char
    } else if c == '/' && !is_verbatim(path, os) {
        '\\'
    } else {
        c
    }
}

/// The prefix of a path as it is compared.
pub open spec fn prefix_text(path: Seq<char>, os: Os) -> Seq<char> {
    Seq::new(prefix_len(path, os) as nat, |i: int| prefix_char(path, i, os))
}

/// Whether two paths are the same, component by component.
pub open spec fn same_path(a: Seq<char>, b: Seq<char>, os: Os) -> bool {
    &&& is_verbatim(a, os) == is_verbatim(b, os)
    &&& prefix_text(a, os) == prefix_text(b, os)
    &&& is_rooted(a, os) == is_rooted(b, os)
    &&& components(a, os) == components(b, os)
}

fn list_components(chars: &Vec<char>, from: usize, verbatim: bool, relative: bool, os: Os) -> (r:
    Vec<String>)
    requires
        from <= chars@.len(),
    ensures
        text::texts(r@) == components_from(chars@, from as int, verbatim, relative, os),
{
    let mut found: Vec<String> = Vec::new();
    let mut begin: usize = from;
    let mut start = relative;
    loop
        invariant
            begin <= chars@.len(),
            components_from(chars@, from as int, verbatim, relative, os) =~= text::texts(found@)
                + components_from(chars@, begin as int, verbatim, start, os),
        decreases chars@.len() - begin,
    {
        let ghost before = text::texts(found@);
        let end = find_end(chars, begin, verbatim, os);
        let piece = text::text_of(chars, begin, end);
        let ghost shown = piece@;
        if end > begin && (verbatim || start || !text::same(piece.as_str(), ".")) {
            found.push(piece);
        }
        assert(text::texts(found@) =~= before + kept(shown, verbatim, start));
        if end == chars.len() {
            assert(shown =~= chars@.skip(begin as int));
            return found;
        }
        begin = end + 1;
        start = false;
    }
}

fn list_prefix(chars: &Vec<char>, prefix: usize, os: Os) -> (r: Vec<char>)
    requires
        prefix == prefix_len(chars@, os),
        prefix <= chars@.len(),
    ensures
        r@ == prefix_text(chars@, os),
{
    let raw = verbatim(chars, os);
    let mut shown: Vec<char> = Vec::new();
    let mut i: usize = 0;
    while i < prefix
        invariant
            i <= prefix <= chars@.len(),
            prefix == prefix_len(chars@, os),
            raw == is_verbatim(chars@, os),
            shown@ =~= prefix_text(chars@, os).take(i as int),
        decreases prefix - i,
    {
        let c = chars[i];
        let letter = if raw {
            i == 4 && prefix == 6 && find_drive(chars, 4)
        } else {
            i == 0 && prefix == 2 && find_drive(chars, 0)
        };
        if letter && 'a' <= c && c <= 'z' {
            shown.push((c as u8 - 32) as char);
        } else if c == '/' && !raw {
            shown.push('\\');
        } else {
            shown.push(c);
        }
        i = i + 1;
    }
    shown
}

fn same_characters(a: &Vec<char>, b: &Vec<char>) -> (r: bool)
    ensures
        r == (a@ == b@),
{
    if a.len() != b.len() {
        return false;
    }
    let mut i: usize = 0;
    while i < a.len()
        invariant
            i <= a@.len() == b@.len(),
            forall|k: int| 0 <= k < i ==> a@[k] == b@[k],
        decreases a@.len() - i,
    {
        if a[i] != b[i] {
            return false;
        }
        i = i + 1;
    }
    assert(a@ =~= b@);
    true
}

fn same_texts(a: &Vec<String>, b: &Vec<String>) -> (r: bool)
    ensures
        r == (text::texts(a@) == text::texts(b@)),
{
    assert(text::texts(a@).len() == a@.len() && text::texts(b@).len() == b@.len());
    if a.len() != b.len() {
        return false;
    }
    let mut i: usize = 0;
    while i < a.len()
        invariant
            i <= a@.len() == b@.len(),
            forall|k: int| 0 <= k < i ==> text::texts(a@)[k] == text::texts(b@)[k],
        decreases a@.len() - i,
    {
        if !text::same(a[i].as_str(), b[i].as_str()) {
            assert(text::texts(a@)[i as int] != text::texts(b@)[i as int]);
            return false;
        }
        assert(text::texts(a@)[i as int] == text::texts(b@)[i as int]);
        i = i + 1;
    }
    assert(text::texts(a@) =~= text::texts(b@));
    true
}

/// The parts of a path by which it is compared.
struct PathParts {
    verbatim: bool,
    prefix: Vec<char>,
    rooted: bool,
    components: Vec<String>,
}

fn parts(path: &str, os: Os) -> (r: PathParts)
    ensures
        r.verbatim == is_verbatim(path@, os),
        r.prefix@ == prefix_text(path@, os),
        r.rooted == is_rooted(path@, os),
        text::texts(r.components@) == components(path@, os),
{
    let chars = text::characters(path);
    let raw = verbatim(&chars, os);
    let prefix = find_prefix(&chars, os);
    let shown = list_prefix(&chars, prefix, os);
    let double = chars.len() >= 2 && separator(chars[0], os) && separator(chars[1], os);
    let rooted = find_root(&chars, prefix, os) || (double && 0 < prefix && !raw);
    let from = find_body_start(&chars, os);
    PathParts {
        verbatim: raw,
        prefix: shown,
        rooted,
        components: list_components(&chars, from, raw, !rooted, os),
    }
}

/// Whether two paths are the same, component by component.
pub fn paths_agree(a: &str, b: &str, os: Os) -> (r: bool)
    ensures
        r == same_path(a@, b@, os),
{
    let left = parts(a, os);
    let right = parts(b, os);
    left.verbatim == right.verbatim && same_characters(&left.prefix, &right.prefix) && left.rooted
        == right.rooted && same_texts(&left.components, &right.components)
}

/// Whether a path is a bare Windows drive such as `C:`, behind which no separator is put.
pub open spec fn is_drive(path: Seq<char>, os: Os) -> bool {
    os is Windows && drive_at(path, 0) && path.len() == 2
}

/// Each component behind a backslash.
pub open spec fn backslashed(components: Seq<Seq<char>>) -> Seq<char>
    decreases components.len(),
{
    if components.len() == 0 {
        seq![]
    } else {
        backslashed(components.drop_last()) + "\\"@ + components.last()
    }
}

/// The path of `name`, a single component, below `base`. A base in the verbatim form is spelled anew
/// with single backslashes.
pub open spec fn join(base: Seq<char>, name: Seq<char>, os: Os) -> Seq<char> {
    if is_verbatim(base, os) {
        base.take(prefix_len(base, os)) + backslashed(components(base, os)) + "\\"@ + name
    } else if base.len() == 0 || is_separator(base.last(), os) || is_drive(base, os) {
        base + name
    } else if os is Windows {
        base + "\\"@ + name
    } else {
        base + "/"@ + name
    }
}

fn join_verbatim(base: &str, name: &str, os: Os) -> (r: String)
    requires
        is_verbatim(base@, os),
    ensures
        r@ == join(base@, name@, os),
{
    let chars = text::characters(base);
    let prefix = find_prefix(&chars, os);
    let list = parts(base, os).components;
    let ghost all = text::texts(list@);
    let mut result = text::text_of(&chars, 0, prefix);
    let ghost front = base@.take(prefix as int);
    assert(result@ =~= front);
    assert(all.take(0) =~= seq![]);
    assert(result@ =~= front + backslashed(all.take(0)));
    let mut i: usize = 0;
    while i < list.len()
        invariant
            i <= list@.len(),
            all == text::texts(list@),
            result@ == front + backslashed(all.take(i as int)),
        decreases list@.len() - i,
    {
        result.append("\\");
        result.append(list[i].as_str());
        let ghost seen = all.take(i + 1);
        assert(seen.drop_last() =~= all.take(i as int));
        assert(seen.last() == list@[i as int]@);
        assert(result@ =~= front + backslashed(seen));
        i = i + 1;
    }
    assert(all.take(i as int) =~= all);
    result.append("\\");
    result.append(name);
    result
}

fn join_path(base: &str, name: &str, os: Os) -> (r: String)
    ensures
        r@ == join(base@, name@, os),
{
    let chars = text::characters(base);
    if verbatim(&chars, os) {
        return join_verbatim(base, name, os);
    }
    let n = chars.len();
    let mut result = base.to_owned();
    let complete = n == 0 || separator(chars[n - 1], os) || (os == Os::Windows && n == 2
        && find_drive(&chars, 0));
    if !complete {
        if os == Os::Windows {
            result.append("\\");
        } else {
            result.append("/");
        }
    }
    result.append(name);
    result
}

/// The directory of the worker's files in the home directory `home`.
pub fn worker_data_dir(home: &str, os: Os) -> (r: String)
    ensures
        r@ == join(home@, ".cybion"@, os),
{
    join_path(home, ".cybion", os)
}

/// The path of the configuration in the home directory `home`.
pub fn default_config_path(home: &str, os: Os) -> (r: String)
    ensures
        r@ == join(join(home@, ".cybion"@, os), "worker.toml"@, os),
{
    let directory = worker_data_dir(home, os);
    join_path(directory.as_str(), "worker.toml", os)
}

/// Files that stand beside each other under different extensions are different files.
pub proof fn siblings_differ(path: Seq<char>, a: Seq<char>, b: Seq<char>, os: Os)
    requires
        names_file(path, os),
        a != b,
    ensures
        with_extension(path, a, os) != with_extension(path, b, os),
{
    let bare = directory(path, os) + stem(last_component(path, os));
    let head = bare + "."@;
    if with_extension(path, a, os) == with_extension(path, b, os) {
        reveal_strlit(".");
        if a.len() > 0 && b.len() > 0 {
            assert(a =~= with_extension(path, a, os).skip(head.len() as int));
            assert(b =~= with_extension(path, b, os).skip(head.len() as int));
        } else {
            assert(a =~= seq![] || b =~= seq![]);
            assert(a.len() == b.len());
            assert(a =~= b);
        }
    }
}

proof fn lemma_segment_end(path: Seq<char>, i: int, j: int, verbatim: bool, os: Os)
    requires
        0 <= i <= j <= path.len(),
        forall|k: int| i <= k < j ==> !splits(#[trigger] path[k], verbatim, os),
        j < path.len() ==> splits(path[j], verbatim, os),
    ensures
        segment_end(path, i, verbatim, os) == j,
    decreases j - i,
{
    if i < j {
        lemma_segment_end(path, i + 1, j, verbatim, os);
    }
}

proof fn lemma_found_end(path: Seq<char>, i: int, verbatim: bool, os: Os)
    requires
        0 <= i <= path.len(),
    ensures
        i <= segment_end(path, i, verbatim, os) <= path.len(),
        forall|k: int|
            i <= k < segment_end(path, i, verbatim, os) ==> !splits(#[trigger] path[k], verbatim, os),
        segment_end(path, i, verbatim, os) < path.len() ==> splits(
            path[segment_end(path, i, verbatim, os)],
            verbatim,
            os,
        ),
    decreases path.len() - i,
{
    if i < path.len() && !splits(path[i], verbatim, os) {
        lemma_found_end(path, i + 1, verbatim, os);
    }
}

proof fn lemma_name_start(front: Seq<char>, name: Seq<char>, floor: int, verbatim: bool, os: Os)
    requires
        0 <= floor <= front.len(),
        front.len() == floor || splits(front.last(), verbatim, os),
        forall|k: int| 0 <= k < name.len() ==> !splits(#[trigger] name[k], verbatim, os),
    ensures
        name_start(front + name, floor, verbatim, os) == front.len(),
    decreases name.len(),
{
    if name.len() > 0 {
        let path = front + name;
        assert(path.last() == name[name.len() - 1]);
        assert(path.drop_last() =~= front + name.drop_last());
        assert forall|k: int| 0 <= k < name.drop_last().len() implies !splits(
            #[trigger] name.drop_last()[k],
            verbatim,
            os,
        ) by {
            assert(name.drop_last()[k] == name[k]);
        }
        lemma_name_start(front, name.drop_last(), floor, verbatim, os);
    } else {
        assert(front + name =~= front);
    }
}

/// Whether `front` is what stands in front of the last component of a path, its prefix and its root
/// or everything up to a separator, and `name` holds no separator.
pub open spec fn ends_with_component(front: Seq<char>, name: Seq<char>, os: Os) -> bool {
    let path = front + name;
    &&& 0 <= body_start(path, os) <= front.len()
    &&& front.len() == body_start(path, os) || splits(front.last(), is_verbatim(path, os), os)
    &&& forall|k: int| 0 <= k < name.len() ==> !splits(#[trigger] name[k], is_verbatim(path, os), os)
}

/// The last component of a path is what stands behind its last separator, or behind its prefix and
/// its root where there is none.
pub proof fn last_components_stand_behind_the_separator(
    front: Seq<char>,
    name: Seq<char>,
    os: Os,
)
    requires
        name.len() > 0,
        name != seq!['.'],
        ends_with_component(front, name, os),
    ensures
        directory(front + name, os) == front,
        last_component(front + name, os) == name,
{
    let path = front + name;
    let floor = body_start(path, os);
    let verbatim = is_verbatim(path, os);
    let n = name.len() as int;
    assert(path.last() == name[n - 1]);
    if n >= 2 {
        assert(path[path.len() - 2] == name[n - 2]);
    } else if name[0] == '.' {
        assert(name =~= seq!['.']);
    }
    assert(body_len(path, floor, verbatim, os) == path.len());
    assert(body(path, os) =~= path);
    lemma_name_start(front, name, floor, verbatim, os);
    assert(directory(path, os) =~= front);
    assert(last_component(path, os) =~= name);
}

proof fn lemma_last_index(front: Seq<char>, c: char, back: Seq<char>)
    requires
        forall|k: int| 0 <= k < back.len() ==> #[trigger] back[k] != c,
    ensures
        last_index(front + seq![c] + back, c) == Some(front.len() as int),
        last_index(back, c) is None,
    decreases back.len(),
{
    let s = front + seq![c] + back;
    if back.len() > 0 {
        let less = back.drop_last();
        assert forall|k: int| 0 <= k < less.len() implies #[trigger] less[k] != c by {
            assert(less[k] == back[k]);
        }
        assert(s.drop_last() =~= front + seq![c] + less);
        assert(s.last() == back[back.len() - 1]);
        lemma_last_index(front, c, less);
    } else {
        assert(s.last() == c);
    }
}

/// The extension of a file name is what stands behind its last dot, unless the name begins there:
/// replacing it leaves everything in front of that dot as it is, and a name without an extension
/// gets one. An empty extension takes the dot away, too.
#[verifier::rlimit(40)]
pub proof fn extensions_are_replaced(
    front: Seq<char>,
    name: Seq<char>,
    old: Seq<char>,
    new: Seq<char>,
    os: Os,
)
    requires
        name.len() > 0,
        name != seq!['.'] && name != seq!['.', '.'],
        new.len() > 0,
        forall|k: int| 0 <= k < old.len() ==> #[trigger] old[k] != '.',
    ensures
        ends_with_component(front, name + seq!['.'] + old, os) ==> with_extension(
            front + (name + seq!['.'] + old),
            new,
            os,
        ) == front + name + seq!['.'] + new && with_extension(
            front + (name + seq!['.'] + old),
            seq![],
            os,
        ) == front + name,
        ends_with_component(front, name, os) && (forall|k: int|
            0 < k < name.len() ==> #[trigger] name[k] != '.') ==> with_extension(
            front + name,
            new,
            os,
        ) == front + name + seq!['.'] + new && with_extension(front + name, seq![], os) == front
            + name,
{
    reveal_strlit(".");
    reveal_strlit("..");
    assert("."@ =~= seq!['.']);
    assert(".."@ =~= seq!['.', '.']);
    let full = name + seq!['.'] + old;
    if ends_with_component(front, full, os) {
        last_components_stand_behind_the_separator(front, full, os);
        lemma_last_index(name, '.', old);
        assert(full.take(name.len() as int) =~= name);
        if full == seq!['.', '.'] {
            assert(name =~= seq!['.']);
        }
        assert(with_extension(front + full, new, os) =~= front + name + seq!['.'] + new);
    }
    if ends_with_component(front, name, os) && (forall|k: int|
        0 < k < name.len() ==> #[trigger] name[k] != '.') {
        last_components_stand_behind_the_separator(front, name, os);
        if name[0] == '.' {
            let back = name.skip(1);
            assert forall|k: int| 0 <= k < back.len() implies #[trigger] back[k] != '.' by {
                assert(back[k] == name[k + 1]);
            }
            lemma_last_index(seq![], '.', back);
            assert(name =~= Seq::<char>::empty() + seq!['.'] + back);
        } else {
            assert forall|k: int| 0 <= k < name.len() implies #[trigger] name[k] != '.' by {}
            lemma_last_index(seq![], '.', name);
        }
        assert(stem(name) == name);
        assert(with_extension(front + name, new, os) =~= front + name + seq!['.'] + new);
    }
}

/// A path that ends in the parent directory names no file, and is left alone; so is an empty one.
pub proof fn directories_keep_their_names(front: Seq<char>, extension: Seq<char>, os: Os)
    ensures
        ends_with_component(front, seq!['.', '.'], os) ==> with_extension(
            front + seq!['.', '.'],
            extension,
            os,
        ) == front + seq!['.', '.'],
        with_extension(seq![], extension, os) == Seq::<char>::empty(),
{
    reveal_strlit("..");
    assert(".."@ =~= seq!['.', '.']);
    if ends_with_component(front, seq!['.', '.'], os) {
        last_components_stand_behind_the_separator(front, seq!['.', '.'], os);
    }
    let nothing = Seq::<char>::empty();
    assert(body(nothing, os) =~= nothing);
    assert(last_component(nothing, os) =~= nothing);
}

/// Separators at the end of a path, and the current directory there, do not count: the file is the
/// same and gets the same extension.
pub proof fn trailing_separators_do_not_count(path: Seq<char>, extension: Seq<char>, os: Os)
    requires
        os !is Windows,
        names_file(path, os),
    ensures
        with_extension(path + seq!['/'], extension, os) == with_extension(path, extension, os),
        with_extension(path + seq!['/', '.'], extension, os) == with_extension(path, extension, os),
{
    if path.len() == 0 {
        assert(body(path, os) =~= path);
        assert(last_component(path, os) =~= path);
    }
    let slash = path + seq!['/'];
    let dot = path + seq!['/', '.'];
    let floor = body_start(path, os);
    assert(slash[0] == path[0] && dot[0] == path[0]);
    assert(slash.drop_last() =~= path);
    assert(dot.drop_last() =~= slash);
    assert(slash.last() == '/' && dot.last() == '.' && dot[dot.len() - 2] == '/');
    lemma_body_len(path, floor, os);
    let n = body_len(path, floor, false, os);
    assert(body_len(slash, floor, false, os) == n);
    assert(body_len(dot, floor, false, os) == n);
    assert(slash.take(n) =~= path.take(n));
    assert(dot.take(n) =~= path.take(n));
}

proof fn lemma_body_len(path: Seq<char>, floor: int, os: Os)
    ensures
        0 <= body_len(path, floor, false, os) <= path.len(),
    decreases path.len(),
{
    if path.len() > floor && path.len() > 0 {
        lemma_body_len(path.drop_last(), floor, os);
    }
}

/// What stands in front of the root of a path: nothing but on Windows, where it is a drive by its
/// letter and colon, and elsewhere nothing where the path does not begin with two separators.
pub proof fn drives_are_prefixes(path: Seq<char>, os: Os)
    ensures
        os !is Windows ==> prefix_len(path, os) == 0,
        os is Windows && path.len() >= 2 && (('a' <= path[0] <= 'z') || ('A' <= path[0] <= 'Z'))
            && path[1] == ':' ==> prefix_len(path, os) == 2,
        os is Windows && path.len() >= 1 && path[0] != '\\' && path[0] != '/' && !(path.len() >= 2
            && path[1] == ':') ==> prefix_len(path, os) == 0,
{
}

/// On Windows a path that begins with two separators begins with a server and a share, where both
/// are named, by either separator.
#[verifier::rlimit(40)]
pub proof fn shares_are_prefixes(
    server: Seq<char>,
    share: Seq<char>,
    rest: Seq<char>,
    first: char,
    second: char,
    third: char,
)
    requires
        server.len() > 0 && share.len() > 0,
        server != seq!['.'] && server != seq!['?'],
        forall|k: int| 0 <= k < server.len() ==> !is_separator(#[trigger] server[k], Os::Windows),
        forall|k: int| 0 <= k < share.len() ==> !is_separator(#[trigger] share[k], Os::Windows),
        is_separator(first, Os::Windows),
        is_separator(second, Os::Windows),
        is_separator(third, Os::Windows),
        rest.len() > 0 ==> is_separator(rest[0], Os::Windows),
    ensures
        prefix_len(seq![first, second] + server + seq![third] + share + rest, Os::Windows) == 2
            + server.len() + 1 + share.len(),
{
    let os = Os::Windows;
    let path = seq![first, second] + server + seq![third] + share + rest;
    let n = 2 + server.len() as int;
    let m = n + 1 + share.len() as int;
    assert(path[0] == first && path[1] == second && path[n] == third);
    assert forall|k: int| 2 <= k < n implies !splits(#[trigger] path[k], false, os) by {
        assert(path[k] == server[k - 2]);
    }
    assert forall|k: int| n + 1 <= k < m implies !splits(#[trigger] path[k], false, os) by {
        assert(path[k] == share[k - n - 1]);
    }
    if rest.len() > 0 {
        assert(path[m] == rest[0]);
    }
    lemma_segment_end(path, 2, n, false, os);
    lemma_segment_end(path, n + 1, m, false, os);
    assert(path[2] == server[0]);
    assert(path[n + 1] == share[0]);
    if server.len() == 1 {
        assert(path[2] != '.' && path[2] != '?') by {
            if path[2] == '.' {
                assert(server =~= seq!['.']);
            }
            if path[2] == '?' {
                assert(server =~= seq!['?']);
            }
        }
    } else {
        assert(path[3] == server[1]);
    }
    assert(!is_verbatim(path, os));
    assert(!is_device(path, os));
}

/// In the verbatim form of Windows the prefix is a drive, a server with its share, or the first name,
/// and only backslashes end it.
#[verifier::rlimit(40)]
pub proof fn verbatim_prefixes_are_found(
    letter: char,
    server: Seq<char>,
    share: Seq<char>,
    rest: Seq<char>,
)
    requires
        ('a' <= letter <= 'z') || ('A' <= letter <= 'Z'),
        share.len() > 0,
        forall|k: int| 0 <= k < server.len() ==> #[trigger] server[k] != '\\',
        forall|k: int| 0 <= k < share.len() ==> #[trigger] share[k] != '\\',
        rest.len() > 0 ==> rest[0] == '\\',
    ensures
        prefix_len(seq!['\\', '\\', '?', '\\', letter, ':'] + rest, Os::Windows) == 6,
        prefix_len(
            seq!['\\', '\\', '?', '\\', 'U', 'N', 'C', '\\'] + server + seq!['\\'] + share + rest,
            Os::Windows,
        ) == 8 + server.len() + 1 + share.len(),
        (share.len() != 2 || share[1] != ':') && share != seq!['U', 'N', 'C'] && !(share.len() > 2
            && share[1] == ':' && share[2] == '/') ==> prefix_len(
            seq!['\\', '\\', '?', '\\'] + share + rest,
            Os::Windows,
        ) == 4 + share.len(),
{
    let os = Os::Windows;
    let drive = seq!['\\', '\\', '?', '\\', letter, ':'] + rest;
    assert(drive[0] == '\\' && drive[1] == '\\' && drive[2] == '?' && drive[3] == '\\' && drive[4]
        == letter && drive[5] == ':');
    if rest.len() > 0 {
        assert(drive[6] == rest[0]);
    }
    assert(is_verbatim(drive, os) && !names_server(drive));
    let net = seq!['\\', '\\', '?', '\\', 'U', 'N', 'C', '\\'] + server + seq!['\\'] + share + rest;
    let n = 8 + server.len() as int;
    let m = n + 1 + share.len() as int;
    assert(net[0] == '\\' && net[1] == '\\' && net[2] == '?' && net[3] == '\\' && net[4] == 'U'
        && net[5] == 'N' && net[6] == 'C' && net[7] == '\\' && net[n] == '\\');
    assert forall|k: int| 8 <= k < n implies !splits(#[trigger] net[k], true, os) by {
        assert(net[k] == server[k - 8]);
    }
    assert forall|k: int| n + 1 <= k < m implies !splits(#[trigger] net[k], true, os) by {
        assert(net[k] == share[k - n - 1]);
    }
    if rest.len() > 0 {
        assert(net[m] == rest[0]);
    }
    assert(net[n + 1] == share[0]);
    lemma_segment_end(net, 8, n, true, os);
    lemma_segment_end(net, n + 1, m, true, os);
    assert(is_verbatim(net, os) && names_server(net));
    let named = seq!['\\', '\\', '?', '\\'] + share + rest;
    let e = 4 + share.len() as int;
    assert(named[0] == '\\' && named[1] == '\\' && named[2] == '?' && named[3] == '\\');
    assert forall|k: int| 4 <= k < e implies !splits(#[trigger] named[k], true, os) by {
        assert(named[k] == share[k - 4]);
    }
    if rest.len() > 0 {
        assert(named[e] == rest[0]);
    }
    lemma_segment_end(named, 4, e, true, os);
    assert(is_verbatim(named, os));
    if (share.len() != 2 || share[1] != ':') && share != seq!['U', 'N', 'C'] && !(share.len() > 2
        && share[1] == ':' && share[2] == '/') {
        if names_server(named) {
            if share.len() >= 4 {
                assert(named[7] == share[3]);
            } else {
                if share.len() == 3 {
                    assert(named[4] == share[0] && named[5] == share[1] && named[6] == share[2]);
                    assert(share =~= seq!['U', 'N', 'C']);
                } else if share.len() == 2 {
                    assert(named[6] == rest[0]);
                } else {
                    assert(named[5] == rest[0]);
                }
            }
        }
        assert(!names_server(named));
        if drive_at(named, 4) {
            if share.len() == 1 {
                assert(named[5] == rest[0]);
            } else {
                assert(named[5] == share[1]);
                if share.len() > 2 {
                    assert(named[6] == share[2]);
                }
            }
        }
    }
}

#[verifier::rlimit(40)]
proof fn lemma_components_split(
    path: Seq<char>,
    c: char,
    name: Seq<char>,
    i: int,
    verbatim: bool,
    start: bool,
    os: Os,
)
    requires
        splits(c, verbatim, os),
        0 <= i <= path.len(),
        forall|k: int| 0 <= k < name.len() ==> !splits(#[trigger] name[k], verbatim, os),
    ensures
        components_from(path + seq![c] + name, i, verbatim, start, os) == components_from(
            path,
            i,
            verbatim,
            start,
            os,
        ) + kept(name, verbatim, false),
    decreases path.len() - i,
{
    let all = path + seq![c] + name;
    let n = path.len() as int;
    lemma_found_end(path, i, verbatim, os);
    let end = segment_end(path, i, verbatim, os);
    assert(all[n] == c);
    assert forall|k: int| i <= k < end implies !splits(#[trigger] all[k], verbatim, os) by {
        assert(all[k] == path[k]);
    }
    if end < n {
        assert(all[end] == path[end]);
    }
    lemma_segment_end(all, i, end, verbatim, os);
    assert(all.subrange(i, end) =~= path.subrange(i, end));
    if end < n {
        lemma_components_split(path, c, name, end + 1, verbatim, false, os);
        assert(components_from(all, i, verbatim, start, os) =~= components_from(
            path,
            i,
            verbatim,
            start,
            os,
        ) + kept(name, verbatim, false));
    } else {
        assert(path.subrange(i, end) =~= path.skip(i));
        let total = all.len() as int;
        assert forall|k: int| n + 1 <= k < total implies !splits(#[trigger] all[k], verbatim, os) by {
            assert(all[k] == name[k - n - 1]);
        }
        lemma_segment_end(all, n + 1, total, verbatim, os);
        assert(all.skip(n + 1) =~= name);
        assert(components_from(all, n + 1, verbatim, false, os) == kept(name, verbatim, false));
    }
}

/// On every system one more name behind a separator is one more component, as long as it changes
/// neither the prefix nor the root; an empty one does not count, and neither does the current
/// directory, but in the verbatim form.
#[verifier::rlimit(40)]
pub proof fn names_are_components(path: Seq<char>, c: char, name: Seq<char>, os: Os)
    requires
        splits(c, is_verbatim(path, os), os),
        forall|k: int| 0 <= k < name.len() ==> !splits(#[trigger] name[k], is_verbatim(path, os), os),
        is_verbatim(path + seq![c] + name, os) == is_verbatim(path, os),
        is_rooted(path + seq![c] + name, os) == is_rooted(path, os),
        body_start(path + seq![c] + name, os) == body_start(path, os),
        0 <= body_start(path, os) <= path.len(),
    ensures
        name.len() == 0 || (name == seq!['.'] && !is_verbatim(path, os)) ==> components(
            path + seq![c] + name,
            os,
        ) == components(path, os),
        name.len() > 0 && (name != seq!['.'] || is_verbatim(path, os)) ==> components(
            path + seq![c] + name,
            os,
        ) == components(path, os).push(name),
{
    reveal_strlit(".");
    assert("."@ =~= seq!['.']);
    let start = !is_rooted(path, os);
    lemma_components_split(path, c, name, body_start(path, os), is_verbatim(path, os), start, os);
    assert(components(path, os) + seq![name] =~= components(path, os).push(name));
    assert(components(path, os) + seq![] =~= components(path, os));
}

/// Two paths are the same only where they begin alike and go on alike: their prefixes differ in
/// nothing but their separators and the case of a drive letter, both or neither have a root, and
/// their components are the same.
#[verifier::rlimit(40)]
pub proof fn same_paths_agree_in_their_parts(a: Seq<char>, b: Seq<char>, os: Os, i: int)
    requires
        same_path(a, b, os),
        0 <= i < prefix_len(a, os),
    ensures
        prefix_len(a, os) == prefix_len(b, os),
        is_verbatim(a, os) == is_verbatim(b, os),
        is_rooted(a, os) == is_rooted(b, os),
        components(a, os) == components(b, os),
        a[i] == b[i] || (is_separator(a[i], os) && is_separator(b[i], os)) || ((i == 0 || i == 4) && (
        a[i] as int == b[i] as int + 32 || b[i] as int == a[i] as int + 32)),
{
    lemma_prefix_len(a, os);
    lemma_prefix_len(b, os);
    assert(prefix_text(a, os).len() == prefix_text(b, os).len());
    assert(prefix_text(a, os)[i] == prefix_char(a, i, os));
    assert(prefix_text(b, os)[i] == prefix_char(b, i, os));
    let x = a[i];
    let y = b[i];
    if is_drive_letter(a, i, os) && 'a' <= x <= 'z' {
        assert(prefix_char(a, i, os) as int == x as int - 32);
    }
    if is_drive_letter(b, i, os) && 'a' <= y <= 'z' {
        assert(prefix_char(b, i, os) as int == y as int - 32);
    }
}

proof fn lemma_prefix_len(path: Seq<char>, os: Os)
    ensures
        0 <= prefix_len(path, os) <= path.len(),
{
    if path.len() >= 8 {
        lemma_found_end(path, 8, true, os);
        let server = segment_end(path, 8, true, os);
        if server + 1 < path.len() {
            lemma_found_end(path, server + 1, true, os);
        }
    }
    if path.len() >= 4 {
        lemma_found_end(path, 4, true, os);
        lemma_found_end(path, 4, false, os);
    }
    if path.len() >= 2 {
        lemma_found_end(path, 2, false, os);
        let server = segment_end(path, 2, false, os);
        if server + 1 < path.len() {
            lemma_found_end(path, server + 1, false, os);
        }
    }
}

/// Outside Windows the components of a path are what its slashes set apart, in order: one more name
/// is one more component, and empty ones and the current directory do not count.
#[verifier::rlimit(40)]
pub proof fn components_are_set_apart_by_slashes(path: Seq<char>, name: Seq<char>, os: Os)
    requires
        os !is Windows,
        path.len() > 0,
        name.len() > 0,
        name != seq!['.'],
        forall|k: int| 0 <= k < name.len() ==> #[trigger] name[k] != '/',
    ensures
        components(path + seq!['/'] + name, os) == components(path, os).push(name),
        components(path + seq!['/'], os) == components(path, os),
        components(path + seq!['/', '.'], os) == components(path, os),
        components(name, os) == seq![name],
        components(seq!['/'] + name, os) == seq![name],
        components(seq!['/'], os) == Seq::<Seq<char>>::empty(),
{
    reveal_strlit(".");
    assert("."@ =~= seq!['.']);
    let start = !is_rooted(path, os);
    let from = body_start(path, os);
    let longer = path + seq!['/'] + name;
    let slash = path + seq!['/'] + seq![];
    let dot = path + seq!['/'] + seq!['.'];
    assert(longer[0] == path[0] && slash[0] == path[0] && dot[0] == path[0]);
    assert(slash =~= path + seq!['/']);
    assert(dot =~= path + seq!['/', '.']);
    lemma_components_split(path, '/', name, from, false, start, os);
    lemma_components_split(path, '/', seq![], from, false, start, os);
    lemma_components_split(path, '/', seq!['.'], from, false, start, os);
    assert(components(longer, os) =~= components(path, os).push(name));
    assert(components(slash, os) =~= components(path, os));
    assert(components(dot, os) =~= components(path, os));
    lemma_segment_end(name, 0, name.len() as int, false, os);
    assert(name.skip(0) =~= name);
    let rooted = seq!['/'] + name;
    assert forall|k: int| 1 <= k < rooted.len() implies !splits(#[trigger] rooted[k], false, os) by {
        assert(rooted[k] == name[k - 1]);
    }
    lemma_segment_end(rooted, 1, rooted.len() as int, false, os);
    assert(rooted.skip(1) =~= name);
    assert(rooted[0] == '/');
    let root = seq!['/'];
    lemma_segment_end(root, 1, 1, false, os);
    assert(root.skip(1) =~= seq![]);
}

/// Outside Windows two paths are the same exactly where both or neither begin at the root and their
/// components are the same, letter by letter.
pub proof fn paths_are_compared_by_components(a: Seq<char>, b: Seq<char>, os: Os)
    requires
        os !is Windows,
    ensures
        same_path(a, b, os) <==> ((a.len() > 0 && a[0] == '/') == (b.len() > 0 && b[0] == '/'))
            && components(a, os) == components(b, os),
{
    assert(prefix_text(a, os) =~= seq![]);
    assert(prefix_text(b, os) =~= seq![]);
}

/// To be the same is an equivalence between paths.
pub proof fn same_paths_are_equivalent(a: Seq<char>, b: Seq<char>, c: Seq<char>, os: Os)
    ensures
        same_path(a, a, os),
        same_path(a, b, os) ==> same_path(b, a, os),
        same_path(a, b, os) && same_path(b, c, os) ==> same_path(a, c, os),
{
}

proof fn lemma_components_agree(a: Seq<char>, b: Seq<char>, i: int, start: bool, os: Os)
    requires
        0 <= i <= a.len(),
        a.len() == b.len(),
        forall|k: int|
            i <= k < a.len() ==> #[trigger] a[k] == b[k] || (is_separator(a[k], os) && is_separator(
                b[k],
                os,
            )),
    ensures
        components_from(a, i, false, start, os) == components_from(b, i, false, start, os),
    decreases a.len() - i,
{
    lemma_found_end(a, i, false, os);
    let end = segment_end(a, i, false, os);
    assert forall|k: int| i <= k < end implies !splits(#[trigger] b[k], false, os) && a[k] == b[k] by {
        assert(!splits(a[k], false, os));
    }
    if end < a.len() {
        assert(splits(a[end], false, os));
    }
    lemma_segment_end(b, i, end, false, os);
    if end < a.len() {
        assert(a.subrange(i, end) =~= b.subrange(i, end));
        lemma_components_agree(a, b, end + 1, false, os);
    } else {
        assert(a.skip(i) =~= b.skip(i));
    }
}

proof fn lemma_segment_ends_agree(a: Seq<char>, b: Seq<char>, i: int)
    requires
        0 <= i <= a.len(),
        a.len() == b.len(),
        forall|k: int|
            0 <= k < a.len() ==> #[trigger] a[k] == b[k] || (is_separator(a[k], Os::Windows)
                && is_separator(b[k], Os::Windows)),
    ensures
        segment_end(a, i, false, Os::Windows) == segment_end(b, i, false, Os::Windows),
        i <= segment_end(a, i, false, Os::Windows) <= a.len(),
{
    let os = Os::Windows;
    lemma_found_end(a, i, false, os);
    let end = segment_end(a, i, false, os);
    assert forall|k: int| i <= k < end implies !splits(#[trigger] b[k], false, os) by {
        assert(!splits(a[k], false, os));
    }
    if end < a.len() {
        assert(splits(a[end], false, os));
    }
    lemma_segment_end(b, i, end, false, os);
}

/// On Windows either separator does, in every path that is not in the verbatim form.
#[verifier::rlimit(40)]
pub proof fn separators_are_alike_on_windows(a: Seq<char>, b: Seq<char>)
    requires
        a.len() == b.len(),
        forall|k: int|
            0 <= k < a.len() ==> #[trigger] a[k] == b[k] || (is_separator(a[k], Os::Windows)
                && is_separator(b[k], Os::Windows)),
        !is_verbatim(a, Os::Windows),
        !is_verbatim(b, Os::Windows),
    ensures
        same_path(a, b, Os::Windows),
{
    let os = Os::Windows;
    if a.len() >= 1 {
        assert(a[0] == b[0] || (is_separator(a[0], os) && is_separator(b[0], os)));
    }
    if a.len() >= 2 {
        assert(a[1] == b[1] || (is_separator(a[1], os) && is_separator(b[1], os)));
        lemma_segment_ends_agree(a, b, 2);
        let server = segment_end(a, 2, false, os);
        if server + 1 < a.len() {
            assert(a[server + 1] == b[server + 1] || (is_separator(a[server + 1], os)
                && is_separator(b[server + 1], os)));
            lemma_segment_ends_agree(a, b, server + 1);
        }
    }
    if a.len() >= 4 {
        assert(a[2] == b[2] || (is_separator(a[2], os) && is_separator(b[2], os)));
        assert(a[3] == b[3] || (is_separator(a[3], os) && is_separator(b[3], os)));
        lemma_segment_ends_agree(a, b, 4);
    }
    let n = prefix_len(a, os);
    assert(n == prefix_len(b, os));
    assert(0 <= n <= a.len());
    assert forall|k: int| 0 <= k < n implies prefix_char(a, k, os) == prefix_char(b, k, os) by {
        assert(a[k] == b[k] || (is_separator(a[k], os) && is_separator(b[k], os)));
    }
    assert(prefix_text(a, os) =~= prefix_text(b, os));
    if n < a.len() {
        assert(a[n] == b[n] || (is_separator(a[n], os) && is_separator(b[n], os)));
    }
    assert(body_start(a, os) == body_start(b, os));
    lemma_components_agree(a, b, body_start(a, os), !is_rooted(a, os), os);
}

/// On Windows the case of a drive letter does not count.
pub proof fn drive_letters_have_no_case(letter: char, rest: Seq<char>)
    requires
        'a' <= letter <= 'z',
    ensures
        same_path(
            seq![letter, ':'] + rest,
            seq![(letter as u8 - 32) as char, ':'] + rest,
            Os::Windows,
        ),
{
    let os = Os::Windows;
    let small = seq![letter, ':'] + rest;
    let large = seq![(letter as u8 - 32) as char, ':'] + rest;
    assert(small[0] == letter && small[1] == ':' && large[1] == ':');
    assert(large[0] == (letter as u8 - 32) as char);
    assert(forall|k: int| 1 <= k < small.len() ==> small[k] == large[k]);
    assert(prefix_len(small, os) == 2 && prefix_len(large, os) == 2);
    assert(prefix_text(small, os) =~= prefix_text(large, os));
    if rest.len() > 0 {
        assert(small[2] == rest[0] && large[2] == rest[0]);
    }
    assert(body_start(small, os) == body_start(large, os));
    lemma_components_agree(small, large, body_start(small, os), !is_rooted(small, os), os);
}

/// A joined path is the base, one separator of the system where the base needs one, and the name; a
/// base that ends with a separator, an empty one and a bare drive need none.
pub proof fn names_are_joined_below_their_base(base: Seq<char>, name: Seq<char>, os: Os)
    requires
        !is_verbatim(base, os),
    ensures
        base.len() == 0 || base.last() == '/' ==> join(base, name, os) == base + name,
        os is Windows && base.len() > 0 && base.last() == '\\' ==> join(base, name, os) == base + name,
        os is Windows && base.len() == 2 && base[1] == ':' && (('a' <= base[0] <= 'z') || ('A'
            <= base[0] <= 'Z')) ==> join(base, name, os) == base + name,
        os !is Windows && base.len() > 0 && base.last() != '/' ==> join(base, name, os) == base + seq![
            '/',
        ] + name,
        os is Windows && base.len() > 0 && base.last() != '/' && base.last() != '\\' && !(base.len()
            == 2 && base[1] == ':') ==> join(base, name, os) == base + seq!['\\'] + name,
{
    reveal_strlit("/");
    reveal_strlit("\\");
    assert("/"@ =~= seq!['/']);
    assert("\\"@ =~= seq!['\\']);
}

/// Outside Windows a joined path has the components of its base and then the name.
pub proof fn joined_paths_have_one_more_component(base: Seq<char>, name: Seq<char>, os: Os)
    requires
        os !is Windows,
        base.len() > 0,
        name.len() > 0,
        name != seq!['.'],
        forall|k: int| 0 <= k < name.len() ==> #[trigger] name[k] != '/',
    ensures
        components(join(base, name, os), os) == components(base, os).push(name),
{
    names_are_joined_below_their_base(base, name, os);
    if base.last() == '/' {
        let front = base.drop_last();
        assert(base =~= front + seq!['/']);
        assert(join(base, name, os) =~= front + seq!['/'] + name);
        if front.len() > 0 {
            components_are_set_apart_by_slashes(front, name, os);
        } else {
            components_are_set_apart_by_slashes(base, name, os);
            assert(base =~= seq!['/']);
            assert(join(base, name, os) =~= seq!['/'] + name);
            assert(components(join(base, name, os), os) =~= components(base, os).push(name));
        }
    } else {
        components_are_set_apart_by_slashes(base, name, os);
    }
}

proof fn lemma_backslashed_front(first: Seq<char>, list: Seq<Seq<char>>)
    ensures
        backslashed(seq![first] + list) == seq!['\\'] + first + backslashed(list),
    decreases list.len(),
{
    reveal_strlit("\\");
    assert("\\"@ =~= seq!['\\']);
    let all = seq![first] + list;
    if list.len() > 0 {
        assert(all.drop_last() =~= seq![first] + list.drop_last());
        assert(all.last() == list.last());
        lemma_backslashed_front(first, list.drop_last());
        assert(backslashed(all) =~= seq!['\\'] + first + backslashed(list));
    } else {
        assert(all.drop_last() =~= seq![]);
        assert(all.last() == first);
        assert(backslashed(all.drop_last()) =~= seq![]);
        assert(backslashed(list) =~= seq![]);
        assert(backslashed(all) =~= seq!['\\'] + first);
        assert(seq!['\\'] + first + backslashed(list) =~= seq!['\\'] + first);
    }
}

proof fn lemma_backslashed_again(path: Seq<char>, i: int, start: bool, os: Os)
    requires
        1 <= i < path.len(),
        path[i - 1] == '\\',
        path.last() != '\\',
        forall|k: int| i <= k < path.len() ==> !(#[trigger] path[k] == '\\' && path[k - 1] == '\\'),
    ensures
        backslashed(components_from(path, i, true, start, os)) == path.skip(i - 1),
    decreases path.len() - i,
{
    lemma_found_end(path, i, true, os);
    let end = segment_end(path, i, true, os);
    assert(path[i] != '\\');
    assert(end > i);
    if end < path.len() {
        let piece = path.subrange(i, end);
        assert(end + 1 < path.len());
        lemma_backslashed_again(path, end + 1, false, os);
        lemma_backslashed_front(piece, components_from(path, end + 1, true, false, os));
        assert(path.skip(i - 1) =~= seq!['\\'] + piece + path.skip(end));
    } else {
        let piece = path.skip(i);
        lemma_backslashed_front(piece, seq![]);
        assert(seq![piece] + Seq::<Seq<char>>::empty() =~= seq![piece]);
        assert(backslashed(seq![]) =~= seq![]);
        assert(path.skip(i - 1) =~= seq!['\\'] + piece + seq![]);
    }
}

/// A joined path in the verbatim form is the base, a backslash and the name, where the base is spelled
/// with single backslashes; and it always ends with a backslash and the name.
#[verifier::rlimit(40)]
pub proof fn verbatim_paths_are_joined_by_backslashes(base: Seq<char>, name: Seq<char>, os: Os)
    requires
        is_verbatim(base, os),
    ensures
        exists|front: Seq<char>| join(base, name, os) == #[trigger] (front + seq!['\\'] + name),
        base.last() != '\\' && (forall|k: int|
            prefix_len(base, os) < k < base.len() ==> !(#[trigger] base[k] == '\\' && base[k - 1]
                == '\\')) && 0 < prefix_len(base, os) <= base.len() && (prefix_len(base, os)
            < base.len() ==> base[prefix_len(base, os)] == '\\') ==> join(base, name, os) == base
            + seq!['\\'] + name,
{
    reveal_strlit("\\");
    assert("\\"@ =~= seq!['\\']);
    let front = base.take(prefix_len(base, os)) + backslashed(components(base, os));
    assert(join(base, name, os) == front + seq!['\\'] + name);
    let n = prefix_len(base, os);
    if base.last() != '\\' && (forall|k: int|
        n < k < base.len() ==> !(#[trigger] base[k] == '\\' && base[k - 1] == '\\')) && 0 < n
        <= base.len() && (n < base.len() ==> base[n] == '\\') {
        if n < base.len() {
            assert(has_root(base, os) && body_start(base, os) == n + 1);
            assert(n + 1 < base.len());
            lemma_backslashed_again(base, n + 1, !is_rooted(base, os), os);
            assert(front =~= base);
        } else {
            assert(!has_root(base, os) && body_start(base, os) == n);
            lemma_segment_end(base, n, n, true, os);
            assert(base.skip(n) =~= seq![]);
            assert(components(base, os) =~= seq![]);
            assert(backslashed(components(base, os)) =~= seq![]);
            assert(front =~= base);
        }
    }
}

/// On Windows a path that begins with two separators, a dot and a separator begins with a device.
pub proof fn devices_are_prefixes(name: Seq<char>, rest: Seq<char>)
    requires
        forall|k: int| 0 <= k < name.len() ==> !is_separator(#[trigger] name[k], Os::Windows),
        rest.len() > 0 ==> is_separator(rest[0], Os::Windows),
    ensures
        prefix_len(seq!['\\', '\\', '.', '\\'] + name + rest, Os::Windows) == 4 + name.len(),
{
    let os = Os::Windows;
    let path = seq!['\\', '\\', '.', '\\'] + name + rest;
    let n = 4 + name.len() as int;
    assert(path[0] == '\\' && path[1] == '\\' && path[2] == '.' && path[3] == '\\');
    assert forall|k: int| 4 <= k < n implies !splits(#[trigger] path[k], false, os) by {
        assert(path[k] == name[k - 4]);
    }
    if rest.len() > 0 {
        assert(path[n] == rest[0]);
    }
    lemma_segment_end(path, 4, n, false, os);
    assert(!is_verbatim(path, os));
}

/// Slashes set components apart everywhere and backslashes on Windows only, where they alone do so in
/// the verbatim form, which begins with two of them, a question mark and another one.
pub proof fn separators_are_those_of_the_system(c: char, path: Seq<char>, os: Os)
    ensures
        is_separator(c, os) <==> c == '/' || (os == Os::Windows && c == '\\'),
        splits(c, false, os) <==> is_separator(c, os),
        splits(c, true, os) <==> c == '\\',
        is_verbatim(path, os) <==> os == Os::Windows && path.len() >= 4 && path.take(4) == seq![
            '\\',
            '\\',
            '?',
            '\\',
        ],
{
    if path.len() >= 4 {
        assert(path.take(4)[0] == path[0] && path.take(4)[1] == path[1] && path.take(4)[2] == path[2]
            && path.take(4)[3] == path[3]);
        if path[0] == '\\' && path[1] == '\\' && path[2] == '?' && path[3] == '\\' {
            assert(path.take(4) =~= seq!['\\', '\\', '?', '\\']);
        }
    }
}

/// The components of a path begin behind its prefix, and behind the separator there, which is its
/// root. A path is rooted where it has one, and where its prefix is a share or a device.
pub proof fn roots_follow_the_prefix(path: Seq<char>, os: Os)
    ensures
        ({
            let n = prefix_len(path, os);
            let written = n < path.len() && is_separator(path[n], os);
            &&& body_start(path, os) == (if written {
                n + 1
            } else {
                n
            })
            &&& written ==> is_rooted(path, os)
            &&& os == Os::Windows && n > 2 && !is_verbatim(path, os) ==> is_rooted(path, os)
            &&& !written && (n <= 2 || is_verbatim(path, os)) ==> !is_rooted(path, os)
        }),
{
    if begins_double(path, os) && !is_verbatim(path, os) {
        if is_device(path, os) {
            lemma_found_end(path, 4, false, os);
        } else {
            lemma_found_end(path, 2, false, os);
            let server = segment_end(path, 2, false, os);
            if server + 1 < path.len() {
                lemma_found_end(path, server + 1, false, os);
            }
        }
    }
}

} // verus!
