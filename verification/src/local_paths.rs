//! Local paths, as `std::path::Path` reads them.
//!
//! What a path means depends on the platform: drives, network shares and backslashes
//! count on Windows only. What is stated here holds on every platform, and for the most
//! part of paths that hold none of these.

use crate::pieces::{lemma_split_concat, lemma_split_nonempty, lemma_split_single, split};
use crate::profiles::opt_view;
use crate::search::begins;
use vstd::prelude::*;

verus! {

/// Whether a path reads alike on every platform: it has no backslash and no colon behind
/// its first character, and does not begin with two slashes.
pub open spec fn is_portable(path: Seq<char>) -> bool {
    !path.contains('\\') && !(path.len() > 1 && path[1] == ':') && !begins(path, "//"@)
}

/// Whether a path is made of slashes alone, and so of nothing but a root.
pub open spec fn is_slashes(path: Seq<char>) -> bool {
    path.len() > 0 && forall|i: int| 0 <= i < path.len() ==> #[trigger] path[i] == '/'
}

/// The final component among the segments between slashes. Empty segments do not count,
/// and neither does `.` but for the first.
pub open spec fn final_segment(segments: Seq<Seq<char>>) -> Option<Seq<char>>
    decreases segments.len(),
{
    if segments.len() == 0 {
        None
    } else {
        let last = segments.last();
        if last.len() == 0 || (last == "."@ && segments.len() > 1) {
            final_segment(segments.drop_last())
        } else {
            Some(last)
        }
    }
}

/// The final component of a path, if it has one besides the root.
pub open spec fn final_component(path: Seq<char>) -> Option<Seq<char>> {
    final_segment(split(path, '/'))
}

/// The file name of a path: its final component, where that is no dot path.
pub open spec fn file_name_of(path: Seq<char>) -> Option<Seq<char>> {
    match final_component(path) {
        Some(name) if name != "."@ && name != ".."@ => Some(name),
        _ => None,
    }
}

/// Whether a path is the root of the file system.
pub open spec fn is_root(path: Seq<char>) -> bool {
    begins(path, "/"@) && final_component(path) is None
}

/// `std::path::Path::has_root`: whether the path has a root. A path that begins with a
/// slash has one on every platform, and one without any slash or backslash has none. A
/// portable path has one exactly where it begins with a slash.
#[verifier::external_body]
pub(crate) fn has_root(path: &str) -> (r: bool)
    ensures
        begins(path@, "/"@) ==> r,
        !path@.contains('/') && !path@.contains('\\') ==> !r,
        is_portable(path@) ==> r == begins(path@, "/"@),
{
    std::path::Path::new(path).has_root()
}

/// `std::path::Path::parent`: whether there is one. A path that ends in its root or in a
/// prefix, or is empty, has none: so one of slashes alone has none. A portable path has
/// one where it has a component besides the root.
#[verifier::external_body]
pub(crate) fn has_parent(path: &str) -> (r: bool)
    ensures
        path@.len() == 0 || is_slashes(path@) ==> !r,
        is_portable(path@) ==> r == (final_component(path@) is Some),
{
    std::path::Path::new(path).parent().is_some()
}

/// `std::path::Path::file_name`: the final component of the path. There is none where the
/// path ends in its root, so none in a path of slashes alone, and none where it ends in
/// `..` or is empty or the current directory.
#[verifier::external_body]
pub(crate) fn file_name(path: &str) -> (r: Option<String>)
    ensures
        path@.len() == 0 || is_slashes(path@) ==> r is None,
        is_portable(path@) ==> opt_view(r) == file_name_of(path@),
{
    std::path::Path::new(path).file_name().map(|name| name.to_string_lossy().into_owned())
}

/// A path of slashes alone begins with one.
pub proof fn lemma_slashes_begin(path: Seq<char>)
    requires
        is_slashes(path),
    ensures
        begins(path, "/"@),
{
    reveal_strlit("/");
    assert(path.take(1) == "/"@);
}

/// A path of slashes alone is the root.
pub proof fn law_slashes_are_the_root(path: Seq<char>)
    requires
        is_slashes(path),
    ensures
        is_root(path),
{
    lemma_slashes_begin(path);
    assert forall|i: int| 0 <= i < split(path, '/').len() implies (#[trigger] split(
        path,
        '/',
    )[i]).len() == 0 by {
        lemma_empty_segments(path, i);
    }
    law_dots_do_not_leave_the_root(path);
}

/// Between slashes alone stand only empty segments.
proof fn lemma_empty_segments(path: Seq<char>, i: int)
    requires
        forall|j: int| 0 <= j < path.len() ==> #[trigger] path[j] == '/',
        0 <= i < split(path, '/').len(),
    ensures
        split(path, '/')[i].len() == 0,
    decreases path.len(),
{
    if path.len() > 0 {
        let rest = path.drop_last();
        assert(path.last() == path[path.len() - 1]);
        if i < split(rest, '/').len() {
            lemma_empty_segments(rest, i);
        }
    }
}

/// A path is its own file name, where it has no slash and is no dot path.
pub proof fn law_bare_name_is_file_name(path: Seq<char>)
    requires
        path.len() > 0,
        !path.contains('/'),
        path != "."@,
        path != ".."@,
    ensures
        file_name_of(path) == Some(path),
        !is_root(path),
{
    lemma_split_single(path, '/');
    assert(split(path, '/').last() == path);
}

/// However often slashes and `.` follow it, the root stays the root.
pub proof fn law_dots_do_not_leave_the_root(path: Seq<char>)
    requires
        begins(path, "/"@),
        forall|i: int|
            0 <= i < split(path, '/').len() ==> (#[trigger] split(path, '/')[i]).len() == 0
                || split(path, '/')[i] == "."@,
    ensures
        is_root(path),
{
    reveal_strlit("/");
    let segments = split(path, '/');
    assert(path.take(1)[0] == path[0]);
    lemma_first_segment(path);
    lemma_no_component(segments);
}

/// A path that begins with a slash has an empty first segment.
proof fn lemma_first_segment(path: Seq<char>)
    requires
        path.len() > 0,
        path[0] == '/',
    ensures
        split(path, '/').len() > 1,
        split(path, '/')[0].len() == 0,
    decreases path.len(),
{
    let rest = path.drop_last();
    if rest.len() > 0 {
        lemma_first_segment(rest);
    } else {
        assert(rest == Seq::<char>::empty());
        assert(split(rest, '/') == seq![Seq::<char>::empty()]);
    }
}

proof fn lemma_no_component(segments: Seq<Seq<char>>)
    requires
        segments.len() > 0 ==> segments[0].len() == 0,
        forall|i: int|
            0 <= i < segments.len() ==> (#[trigger] segments[i]).len() == 0 || segments[i] == "."@,
    ensures
        final_segment(segments) is None,
    decreases segments.len(),
{
    if segments.len() > 0 {
        let rest = segments.drop_last();
        assert forall|i: int| 0 <= i < rest.len() implies rest[i] == segments[i] by {}
        lemma_no_component(rest);
        assert(segments.last() == segments[segments.len() - 1]);
    }
}

/// The final component is what stands behind the last slash; slashes behind it, and `.`
/// between them, play no part.
pub proof fn law_final_component(dir: Seq<char>, name: Seq<char>, path: Seq<char>)
    ensures
        name.len() > 0 && !name.contains('/') && name != seq!['.'] ==> final_component(
            dir + seq!['/'] + name,
        ) == Some(name),
        final_component(path + seq!['/']) == final_component(path),
        final_component(path + seq!['/', '.']) == final_component(path),
        final_component(seq![]) is None,
{
    reveal_strlit(".");
    assert("."@ == seq!['.']);
    let none = Seq::<char>::empty();
    if name.len() > 0 && !name.contains('/') && name != seq!['.'] {
        lemma_split_concat(dir, name, '/');
        lemma_split_single(name, '/');
    }
    let segments = split(path, '/');
    lemma_split_nonempty(path, '/');
    lemma_split_concat(path, none, '/');
    assert(path + seq!['/'] + none == path + seq!['/']);
    assert(split(none, '/') == seq![none]);
    assert((segments + seq![none]).drop_last() == segments);
    assert((segments + seq![none]).last() == none);
    let dot = seq!['.'];
    assert(!dot.contains('/'));
    lemma_split_single(dot, '/');
    lemma_split_concat(path, dot, '/');
    assert(path + seq!['/'] + dot == path + seq!['/', '.']);
    assert((segments + seq![dot]).drop_last() == segments);
    assert((segments + seq![dot]).last() == dot);
    let empty = seq![none];
    assert(empty.drop_last() == Seq::<Seq<char>>::empty());
    assert(final_segment(empty) == final_segment(empty.drop_last()));
}

/// A path reads alike everywhere unless it holds a backslash, has a colon as its second
/// character or begins with two slashes.
pub proof fn law_portable(path: Seq<char>, a: char, b: char, rest: Seq<char>)
    ensures
        path.contains('\\') ==> !is_portable(path),
        is_portable(seq![a, b] + rest) <==> a != '\\' && b != '\\' && !rest.contains('\\') && b
            != ':' && !(a == '/' && b == '/'),
        path.len() <= 1 && !path.contains('\\') ==> is_portable(path),
{
    reveal_strlit("//");
    assert("//"@ == seq!['/', '/']);
    let s = seq![a, b] + rest;
    assert(s[0] == a && s[1] == b);
    assert(s.take(2) == seq![a, b]);
    if rest.contains('\\') {
        let i = choose|i: int| 0 <= i < rest.len() && rest[i] == '\\';
        assert(s[i + 2] == '\\');
    }
    if s.contains('\\') {
        let i = choose|i: int| 0 <= i < s.len() && s[i] == '\\';
        if i >= 2 {
            assert(rest[i - 2] == '\\');
        }
    }
    if a == '/' && b == '/' {
        assert(s.take(2) == "//"@);
    } else {
        assert(seq![a, b][0] == a && seq![a, b][1] == b);
        assert("//"@[0] == '/' && "//"@[1] == '/');
    }
}

} // verus!
