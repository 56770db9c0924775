//! Putting `ghostftp-cli` on the user's PATH: what to write where, per platform,
//! and how to take exactly that away again.

use crate::marker::{
    fits, insert_marker_block, inserted, is_marker, law_round_trip_restores, remove_marker_block,
    stripped, unmarked,
};
use crate::path_list::{
    add_dir, added, contains_dir, has_dir, lists, lists_dir, remove_dir, removed,
};
use crate::pieces::lemma_rows_single;
use crate::search::{
    begins, contains, ends, law_begins_and_ends, law_occurs, occurs, parts_round,
};
use crate::text::{chars_of, drop_start, same, trimmed, trimmed_end, white};
use vstd::prelude::*;
use vstd::string::*;

verus! {

/// What the settings page shows of the command-line tool and PATH.
#[derive(Debug, PartialEq, Eq)]
pub struct PathStatus {
    /// The application's own directory for an installed tool.
    pub bin_dir: String,
    /// Whether that directory holds the tool.
    pub bin_has_cli: bool,
    /// Whether the tool is found on PATH, and where.
    pub on_path: bool,
    pub cli_location: Option<String>,
    /// Whether the application's own entry is present.
    pub managed: bool,
    /// A short note for the user.
    pub detail: Option<String>,
}

/// The status made of what was found: the tool counts as on PATH exactly when it
/// was located there.
pub fn compute_status(
    bin_dir: String,
    bin_has_cli: bool,
    located: Option<String>,
    managed: bool,
) -> (r: PathStatus)
    ensures
        r.bin_dir == bin_dir,
        r.bin_has_cli == bin_has_cli,
        r.on_path == (located is Some),
        r.cli_location == located,
        r.managed == managed,
        r.detail is None,
{
    PathStatus {
        bin_dir,
        bin_has_cli,
        on_path: located.is_some(),
        cli_location: located,
        managed,
        detail: None,
    }
}

/// The file name of the command-line tool.
pub fn cli_exe_name(windows: bool) -> (r: &'static str)
    ensures
        r@ == if windows {
            "ghostftp-cli.exe"@
        } else {
            "ghostftp-cli"@
        },
{
    if windows {
        "ghostftp-cli.exe"
    } else {
        "ghostftp-cli"
    }
}

/// The first candidate that is a file. Each candidate is a path together with
/// whether there is a file at it.
pub fn cli_on_path(candidates: &Vec<(String, bool)>) -> (r: Option<String>)
    ensures
        r is None <==> forall|i: int| 0 <= i < candidates@.len() ==> !(#[trigger] candidates@[i]).1,
        r matches Some(path) ==> exists|i: int|
            0 <= i < candidates@.len() && (#[trigger] candidates@[i]) == (path, true) && forall|j: int|
                0 <= j < i ==> !(#[trigger] candidates@[j]).1,
{
    let mut i: usize = 0;
    while i < candidates.len()
        invariant
            i <= candidates.len(),
            forall|j: int| 0 <= j < i ==> !(#[trigger] candidates@[j]).1,
        decreases candidates.len() - i,
    {
        if candidates[i].1 {
            let path = candidates[i].0.clone();
            proof {
                assert(candidates@[i as int] == (path, true));
            }
            return Some(path);
        }
        i = i + 1;
    }
    None
}

// ---------------------------------------------------------------- Windows
/// The types that a registry value can have.
#[derive(Debug, Clone, Copy, PartialEq, Eq)]
pub enum RegType {
    Untyped,
    Sz,
    ExpandSz,
    Binary,
    Dword,
    DwordBigEndian,
    Link,
    MultiSz,
    ResourceList,
    FullResourceDescriptor,
    ResourceRequirementsList,
    Qword,
}

/// A raw registry value.
#[derive(Debug, PartialEq, Eq)]
pub struct RegValue {
    pub bytes: Vec<u8>,
    pub vtype: RegType,
}

/// The number under which a value's type goes into the backup record. Types
/// that `Path` never has count as expandable strings, its real type.
pub fn vtype_u32(t: RegType) -> (r: u32)
    ensures
        r == match t {
            RegType::Untyped => 0u32,
            RegType::Sz => 1u32,
            RegType::ExpandSz => 2u32,
            RegType::Binary => 3u32,
            RegType::Dword => 4u32,
            RegType::MultiSz => 7u32,
            _ => 2u32,
        },
{
    match t {
        RegType::Untyped => 0,
        RegType::Sz => 1,
        RegType::ExpandSz => 2,
        RegType::Binary => 3,
        RegType::Dword => 4,
        RegType::MultiSz => 7,
        _ => 2,
    }
}

/// The `Path` value read from the registry: a missing one counts as an empty
/// expandable string, so that a first write creates it with the right type.
pub fn read_path(found: Option<(String, RegType)>) -> (r: (String, RegType))
    ensures
        found matches Some(value) ==> r == value,
        found is None ==> r.0@.len() == 0 && r.1 == RegType::ExpandSz,
{
    match found {
        Some(value) => value,
        None => (String::new(), RegType::ExpandSz),
    }
}

/// The UTF-16 code units of a character.
pub open spec fn utf16(c: char) -> Seq<u16> {
    let n = c as u32;
    if n < 0x10000 {
        seq![n as u16]
    } else {
        seq![(0xd800 + (n - 0x10000) / 0x400) as u16, (0xdc00 + (n - 0x10000) % 0x400) as u16]
    }
}

/// A code unit as two bytes, the low one first.
pub open spec fn little_endian(u: u16) -> Seq<u8> {
    seq![(u % 256) as u8, (u / 256) as u8]
}

/// A character in UTF-16LE.
pub open spec fn utf16_bytes(c: char) -> Seq<u8> {
    let units = utf16(c);
    if units.len() == 1 {
        little_endian(units[0])
    } else {
        little_endian(units[0]) + little_endian(units[1])
    }
}

/// A text in UTF-16LE.
pub open spec fn text_bytes(s: Seq<char>) -> Seq<u8>
    decreases s.len(),
{
    if s.len() == 0 {
        seq![]
    } else {
        text_bytes(s.drop_last()) + utf16_bytes(s.last())
    }
}

fn push_unit(bytes: &mut Vec<u8>, u: u16)
    ensures
        final(bytes)@ == old(bytes)@ + little_endian(u),
{
    bytes.push((u % 256) as u8);
    bytes.push((u / 256) as u8);
    proof {
        assert(bytes@ == old(bytes)@ + little_endian(u));
    }
}

/// A text as a raw registry value of the given type: UTF-16LE with a terminating
/// zero.
pub fn make_value(s: &str, vtype: RegType) -> (r: RegValue)
    ensures
        r.bytes@ == text_bytes(s@) + seq![0u8, 0u8],
        r.vtype == vtype,
{
    let v = chars_of(s);
    let mut bytes: Vec<u8> = Vec::new();
    let mut i: usize = 0;
    while i < v.len()
        invariant
            i <= v.len(),
            bytes@ == text_bytes(v@.take(i as int)),
        decreases v.len() - i,
    {
        proof {
            assert(v@.take(i + 1).drop_last() == v@.take(i as int));
            assert(v@.take(i + 1).last() == v@[i as int]);
        }
        let ghost before = bytes@;
        let n: u32 = v[i] as u32;
        if n < 0x10000 {
            push_unit(&mut bytes, n as u16);
        } else {
            let high: u16 = (0xd800 + (n - 0x10000) / 0x400) as u16;
            let low: u16 = (0xdc00 + (n - 0x10000) % 0x400) as u16;
            push_unit(&mut bytes, high);
            push_unit(&mut bytes, low);
            proof {
                assert(before + little_endian(high) + little_endian(low) == before + (
                little_endian(high) + little_endian(low)));
            }
        }
        i = i + 1;
    }
    proof {
        assert(v@.take(v@.len() as int) == v@);
    }
    let ghost before = bytes@;
    bytes.push(0);
    bytes.push(0);
    proof {
        assert(bytes@ == before + seq![0u8, 0u8]);
    }
    RegValue { bytes, vtype }
}

/// How the `Path` value is to change so that it lists a directory.
#[derive(Debug, PartialEq, Eq)]
pub struct PathEdit {
    /// The value to back up before the first write; none where it was empty.
    pub backup: Option<String>,
    /// The value to write; none where the directory is listed already.
    pub next: Option<String>,
}

/// Plans the addition of `bin` to the value `current`.
pub fn path_add(current: &str, bin: &str) -> (r: PathEdit)
    ensures
        r.backup is None <==> current@.len() == 0,
        r.backup matches Some(value) ==> value@ == current@,
        r.next is None <==> has_dir(current@, bin@),
        r.next matches Some(value) ==> value@ == added(current@, bin@),
{
    let backup = if current.is_empty() {
        None
    } else {
        Some(current.to_owned())
    };
    let next = if contains_dir(current, bin) {
        None
    } else {
        Some(add_dir(current, bin))
    };
    PathEdit { backup, next }
}

/// Plans the removal of `bin` from the value `current`: the value to write, or
/// none where the directory is not listed.
pub fn path_remove(current: &str, bin: &str) -> (r: Option<String>)
    ensures
        r is Some <==> has_dir(current@, bin@),
        r matches Some(value) ==> value@ == removed(current@, bin@),
{
    if contains_dir(current, bin) {
        Some(remove_dir(current, bin))
    } else {
        None
    }
}

/// The note after adding the directory to the account's PATH.
pub const PATH_ADDED: &'static str =
    "Added to your account's PATH. Open a new terminal for `ghostftp-cli` to resolve (already-open terminals need a restart).";

/// The note after removing it.
pub const PATH_REMOVED: &'static str = "Removed from your account's PATH.";

// ---------------------------------------------------------------- Unix
/// The note after removing the link and the block in the profile.
pub const LINK_REMOVED: &'static str = "Removed the ghostftp-cli symlink and profile line.";

/// The line that opens the application's block in a shell profile.
pub const PROFILE_BEGIN: &'static str = "# >>> ghostftp-cli PATH >>>";

/// The line that closes the application's block in a shell profile.
pub const PROFILE_END: &'static str = "# <<< ghostftp-cli PATH <<<";

/// The tool to link to: the one on PATH, else the application's own copy if it
/// is there.
pub fn link_target(located: Option<String>, own: String, own_is_file: bool) -> (r: Result<
    String,
    String,
>)
    ensures
        match located {
            Some(path) => r == Ok::<String, String>(path),
            None => if own_is_file {
                r == Ok::<String, String>(own)
            } else {
                r matches Err(e) && e@ == "ghostftp-cli isn't installed yet — install it first"@
            },
        },
{
    match located {
        Some(path) => Ok(path),
        None => if own_is_file {
            Ok(own)
        } else {
            Err("ghostftp-cli isn't installed yet — install it first".to_owned())
        },
    }
}

/// The name of the profile that the shell reads.
pub open spec fn profile_name(shell: Seq<char>) -> Seq<char> {
    if occurs(shell, "zsh"@) {
        ".zshrc"@
    } else if occurs(shell, "bash"@) {
        ".bashrc"@
    } else {
        ".profile"@
    }
}

/// The name of the profile that the shell reads.
pub fn shell_profile(shell: &str) -> (r: &'static str)
    ensures
        r@ == profile_name(shell@),
{
    if contains(shell, "zsh") {
        ".zshrc"
    } else if contains(shell, "bash") {
        ".bashrc"
    } else {
        ".profile"
    }
}

/// Whether the value of PATH, whose entries `:` separates, lists `local_bin`.
pub fn local_bin_on_path(path: &str, local_bin: &str) -> (r: bool)
    ensures
        r == lists(path@, ':', local_bin@),
{
    lists_dir(path, ':', local_bin)
}

/// The line that puts `bin` on PATH.
pub open spec fn export_line(bin: Seq<char>) -> Seq<char> {
    "export PATH=\""@ + bin + ":$PATH\""@
}

/// The profile with the line that puts `bin` on PATH.
pub fn profile_with_path(existing: &str, bin: &str) -> (r: String)
    ensures
        r@ == inserted(existing@, PROFILE_BEGIN@, PROFILE_END@, export_line(bin@)),
{
    let mut body = "export PATH=\"".to_owned();
    body.append(bin);
    body.append(":$PATH\"");
    insert_marker_block(existing, PROFILE_BEGIN, PROFILE_END, body.as_str())
}

/// The profile without the application's block; none where it has none to
/// remove, so that nothing is to be written.
pub fn profile_without_path(existing: &str) -> (r: Option<String>)
    ensures
        ({
            let next = stripped(existing@, PROFILE_BEGIN@, PROFILE_END@);
            &&& r is None <==> next == existing@
            &&& r matches Some(text) ==> text@ == next
        }),
{
    let next = remove_marker_block(existing, PROFILE_BEGIN, PROFILE_END);
    if same(next.as_str(), existing) {
        None
    } else {
        Some(next)
    }
}

/// The note after linking the tool, with the profile that was changed, if any.
pub open spec fn linked_note(bin: Seq<char>, profile: Option<Seq<char>>) -> Seq<char> {
    match profile {
        None => "Linked ghostftp-cli into "@ + bin + "."@,
        Some(p) => "Linked ghostftp-cli into "@ + bin + " and added it to "@ + p
            + ". Open a new terminal (or `source` your profile) to pick it up."@,
    }
}

/// The note after linking the tool into `bin`.
pub fn linked_detail(bin: &str, profile: Option<&str>) -> (r: String)
    ensures
        r@ == linked_note(bin@, match profile { Some(p) => Some(p@), None => None }),
{
    let mut r = "Linked ghostftp-cli into ".to_owned();
    r.append(bin);
    match profile {
        None => {
            r.append(".");
        },
        Some(p) => {
            r.append(" and added it to ");
            r.append(p);
            r.append(". Open a new terminal (or `source` your profile) to pick it up.");
        },
    }
    r
}

// ---------------------------------------------------------------- laws
/// Taking the block out of a profile restores it character for character, when it
/// had none and ended in one line feed behind its last line (or was empty).
pub proof fn law_profile_round_trip(existing: Seq<char>, bin: Seq<char>)
    requires
        !bin.contains('\n'),
        unmarked(existing, PROFILE_BEGIN@),
        existing.len() == 0 || (trimmed_end(existing).len() > 0 && existing == trimmed_end(existing)
            + "\n"@),
    ensures
        stripped(
            inserted(existing, PROFILE_BEGIN@, PROFILE_END@, export_line(bin)),
            PROFILE_BEGIN@,
            PROFILE_END@,
        ) == existing,
{
    lemma_profile_markers(bin);
    law_round_trip_restores(existing, PROFILE_BEGIN@, PROFILE_END@, export_line(bin));
}

/// The profile's markers can be found again, and no line of the block closes it
/// early.
proof fn lemma_profile_markers(bin: Seq<char>)
    requires
        !bin.contains('\n'),
    ensures
        is_marker(PROFILE_BEGIN@),
        fits(export_line(bin), PROFILE_BEGIN@, PROFILE_END@),
{
    reveal_strlit("# >>> ghostftp-cli PATH >>>");
    reveal_strlit("# <<< ghostftp-cli PATH <<<");
    reveal_strlit("export PATH=\"");
    reveal_strlit(":$PATH\"");
    reveal_strlit("\n");
    let begin = PROFILE_BEGIN@;
    assert(!white()(begin[0]));
    assert(!white()(begin.last()));
    assert(trimmed(begin) == begin);
    assert(!begin.contains('\n'));
    let row = export_line(bin) + "\n"@;
    assert forall|i: int| 0 <= i < row.len() - 1 implies #[trigger] row[i] != '\n' by {
        let head = "export PATH=\""@;
        if i < head.len() {
            assert(row[i] == head[i]);
        } else if i < head.len() + bin.len() {
            assert(row[i] == bin[i - head.len()]);
        } else {
            assert(row[i] == ":$PATH\""@[i - head.len() - bin.len()]);
        }
    }
    lemma_rows_single(row);
    assert(row[0] == 'e');
    assert(!white()(row[0]));
    assert(drop_start(row, white()) == row);
    crate::text::lemma_drop_end_shape(row, white());
    let t = trimmed(row);
    assert(t.len() > 0 ==> t[0] == 'e');
    assert(PROFILE_END@[0] == '#');
    assert(t != PROFILE_END@);
}

/// The code units of a character stand for it: one unit for its number where that has
/// sixteen bits; else a high and a low surrogate that hold ten bits each of the rest.
pub proof fn law_utf16_denotes(c: char)
    ensures
        utf16(c).len() == 1 <==> (c as u32) < 65536,
        utf16(c).len() == 1 ==> utf16(c)[0] == c as u32,
        utf16(c).len() == 1 || utf16(c).len() == 2,
        utf16(c).len() == 2 ==> {
            let (high, low) = (utf16(c)[0], utf16(c)[1]);
            &&& 0xd800 <= high < 0xdc00
            &&& 0xdc00 <= low < 0xe000
            &&& 65536 + (high - 0xd800) * 1024 + (low - 0xdc00) == c as u32
        },
{
    let n = c as u32;
    if n >= 0x10000 {
        let d = (n - 0x10000) as int;
        assert(d < 0x100000);
        assert(d == (d / 0x400) * 0x400 + d % 0x400);
        assert(d / 0x400 < 0x400);
    }
}

/// Two bytes stand for a code unit: the first for what is below 256, the second for 256
/// times as much.
pub proof fn law_little_endian_denotes(u: u16)
    ensures
        little_endian(u).len() == 2,
        little_endian(u)[0] + 256 * little_endian(u)[1] == u,
{
}

/// The bytes of a text are those of its parts in their order, down to the code units of
/// each character.
pub proof fn law_text_bytes(a: Seq<char>, b: Seq<char>, c: char)
    ensures
        text_bytes(a + b) == text_bytes(a) + text_bytes(b),
        text_bytes(seq![]) == Seq::<u8>::empty(),
        utf16(c).len() == 1 ==> text_bytes(seq![c]) == little_endian(utf16(c)[0]),
        utf16(c).len() == 2 ==> text_bytes(seq![c]) == little_endian(utf16(c)[0]) + little_endian(
            utf16(c)[1],
        ),
    decreases b.len(),
{
    let one = seq![c];
    assert(one.drop_last() == Seq::<char>::empty());
    assert(one.last() == c);
    assert(text_bytes(one.drop_last()) == Seq::<u8>::empty());
    assert(Seq::<u8>::empty() + utf16_bytes(c) == utf16_bytes(c));
    if b.len() == 0 {
        assert(a + b == a);
        assert(text_bytes(a) + Seq::<u8>::empty() == text_bytes(a));
    } else {
        law_text_bytes(a, b.drop_last(), c);
        assert((a + b).drop_last() == a + b.drop_last());
        assert((a + b).last() == b.last());
        let x = text_bytes(a);
        let y = text_bytes(b.drop_last());
        let z = utf16_bytes(b.last());
        assert(x + y + z == x + (y + z));
    }
}

/// The profile goes by the name of the shell, wherever that stands in what `SHELL` says:
/// first by that of zsh, then by that of bash.
pub proof fn law_profile_by_shell(a: Seq<char>, b: Seq<char>, shell: Seq<char>)
    ensures
        profile_name(a + seq!['z', 's', 'h'] + b) == ".zshrc"@,
        !occurs(a + seq!['b', 'a', 's', 'h'] + b, "zsh"@) ==> profile_name(
            a + seq!['b', 'a', 's', 'h'] + b,
        ) == ".bashrc"@,
        profile_name(shell) == ".zshrc"@ ==> occurs(shell, "zsh"@),
        profile_name(shell) == ".bashrc"@ ==> occurs(shell, "bash"@),
        profile_name(shell) == ".profile"@ <==> !occurs(shell, "zsh"@) && !occurs(shell, "bash"@),
{
    reveal_strlit("zsh");
    reveal_strlit("bash");
    reveal_strlit(".zshrc");
    reveal_strlit(".bashrc");
    reveal_strlit(".profile");
    assert("zsh"@ == seq!['z', 's', 'h']);
    assert("bash"@ == seq!['b', 'a', 's', 'h']);
    let x = a + "zsh"@ + b;
    law_occurs(x, "zsh"@);
    assert(parts_round(x, a, "zsh"@, b));
    let y = a + "bash"@ + b;
    law_occurs(y, "bash"@);
    assert(parts_round(y, a, "bash"@, b));
    assert(".zshrc"@[1] == 'z' && ".bashrc"@[1] == 'b' && ".profile"@[1] == 'p');
}

/// The line sets PATH to the directory, then a colon and what PATH was before.
pub proof fn law_export_line(bin: Seq<char>)
    ensures
        begins(export_line(bin), "export PATH=\""@ + bin),
        ends(export_line(bin), bin + ":$PATH\""@),
        export_line(bin).len() == bin.len() + 20,
{
    reveal_strlit("export PATH=\"");
    reveal_strlit(":$PATH\"");
    law_begins_and_ends(":$PATH\""@, "export PATH=\""@ + bin);
    law_begins_and_ends("export PATH=\""@, bin + ":$PATH\""@);
    assert(export_line(bin) == "export PATH=\""@ + (bin + ":$PATH\""@));
}

/// The note names the directory, and the profile where one was changed.
pub proof fn law_linked_note(bin: Seq<char>, profile: Seq<char>)
    ensures
        occurs(linked_note(bin, None), bin),
        occurs(linked_note(bin, Some(profile)), bin),
        occurs(linked_note(bin, Some(profile)), profile),
{
    let a = "Linked ghostftp-cli into "@;
    let short = linked_note(bin, None);
    law_occurs(short, bin);
    assert(parts_round(short, a, bin, "."@));
    let long = linked_note(bin, Some(profile));
    let b = " and added it to "@;
    let c = ". Open a new terminal (or `source` your profile) to pick it up."@;
    law_occurs(long, bin);
    law_occurs(long, profile);
    assert(long == a + bin + (b + profile + c));
    assert(parts_round(long, a, bin, b + profile + c));
    assert(parts_round(long, a + bin + b, profile, c));
}

/// The two lines round the application's block differ, and both can be found again.
pub proof fn law_profile_markers()
    ensures
        is_marker(PROFILE_BEGIN@),
        is_marker(PROFILE_END@),
        PROFILE_BEGIN@ != PROFILE_END@,
        PROFILE_BEGIN@[0] == '#',
        PROFILE_END@[0] == '#',
{
    reveal_strlit("# >>> ghostftp-cli PATH >>>");
    reveal_strlit("# <<< ghostftp-cli PATH <<<");
    lemma_profile_markers(seq![]);
    let end = PROFILE_END@;
    assert(PROFILE_BEGIN@[2] == '>' && end[2] == '<');
    assert(!white()(end[0]));
    assert(!white()(end.last()));
    assert(trimmed(end) == end);
    assert(!end.contains('\n'));
}

} // verus!
