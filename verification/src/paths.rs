//! Where the downloaded file goes, and where it is kept while it is incomplete.
//!
//! Paths are texts. How a path is taken apart and put together differs between
//! platforms, so that is left to `std::path`, and every contract that speaks of
//! it says that there is a platform on which the result is right.

use crate::text;
use vstd::prelude::*;

verus! {

/// The name of the downloaded file where the user chose none.
pub const DEFAULT_FILENAME: &'static str = "gregtech-lite-nightly-curseforge.zip";

/// The directory for the installer inside the user's download directory.
pub const DOWNLOAD_SUBDIR: &'static str = "GTLite";

/// What `std::path::Path::join` gives for a directory and a name, on the given platform.
pub uninterp spec fn joined_path(
    platform: Seq<char>,
    dir: Seq<char>,
    name: Seq<char>,
) -> Seq<char>;

/// What `std::path::Path::file_name` gives for a path, on the given platform.
pub uninterp spec fn final_component(platform: Seq<char>, path: Seq<char>) -> Option<Seq<char>>;

/// What `std::path::Path::with_file_name` gives for a path and a name, on the given platform.
pub uninterp spec fn renamed_path(
    platform: Seq<char>,
    path: Seq<char>,
    name: Seq<char>,
) -> Seq<char>;

/// A character that separates components on some platform.
pub open spec fn is_separator(c: char) -> bool {
    c == '/' || c == '\\'
}

/// `path` starts with two separators, as the network and device paths of some
/// platforms do.
pub open spec fn starts_double(path: Seq<char>) -> bool {
    path.len() >= 2 && is_separator(path[0]) && is_separator(path[1])
}

/// `path` starts as the paths do that Windows takes word for word.
pub open spec fn starts_verbatim(path: Seq<char>) -> bool {
    path.len() >= 4 && path[0] == '\\' && path[1] == '\\' && path[2] == '?' && path[3] == '\\'
}

/// `path` starts with a drive letter, where the platform has such.
pub open spec fn starts_with_drive(path: Seq<char>) -> bool {
    path.len() >= 2 && path[1] == ':'
}

/// `path` starts neither at a root nor with a drive letter, on any platform.
pub open spec fn is_relative(path: Seq<char>) -> bool {
    &&& path.len() > 0 ==> !is_separator(path[0])
    &&& !starts_with_drive(path)
}

/// A name that holds no separator of any platform, and that names neither a
/// directory itself nor its parent.
pub open spec fn is_plain_name(name: Seq<char>) -> bool {
    &&& name.len() > 0
    &&& forall|i: int| 0 <= i < name.len() ==> !is_separator(#[trigger] name[i])
    &&& name != "."@
    &&& name != ".."@
}

/// A name of one component on every platform: a plain one without a drive letter.
pub open spec fn is_simple_name(name: Seq<char>) -> bool {
    is_plain_name(name) && is_relative(name)
}

/// `path` is `dir` and then `name`, with one separator between them unless `dir`
/// is empty, ends with a separator or is a drive.
pub open spec fn is_adjoined(dir: Seq<char>, name: Seq<char>, path: Seq<char>) -> bool {
    ||| path == dir + seq!['/'] + name
    ||| path == dir + seq!['\\'] + name
    ||| {
        &&& path == dir + name
        &&& dir.len() == 0 || is_separator(dir.last()) || dir.len() == 2 && starts_with_drive(dir)
    }
}

/// The part of `name` after its last separator, of whichever platform.
pub open spec fn last_piece(name: Seq<char>) -> Seq<char>
    decreases name.len(),
{
    if name.len() == 0 || is_separator(name.last()) {
        seq![]
    } else {
        last_piece(name.drop_last()).push(name.last())
    }
}

/// `path` ends with `piece`, and that is all of its last piece, but for a drive
/// letter that may stand before it.
pub open spec fn ends_in_piece(path: Seq<char>, piece: Seq<char>) -> bool {
    let last = last_piece(path);
    &&& ends_with(path, piece)
    &&& last == piece || starts_with_drive(last) && last.skip(2) == piece
}

/// `path`, which was made of `start` and `name`, ends with the name, or at least
/// with its last piece.
pub open spec fn ends_with_name(start: Seq<char>, name: Seq<char>, path: Seq<char>) -> bool {
    &&& !starts_verbatim(start) ==> ends_with(path, name)
    &&& is_plain_name(last_piece(name)) ==> ends_in_piece(path, last_piece(name))
}

/// `path` is `name` joined to `dir`: `dir`, a separator and `name`, where `name`
/// is relative. It ends with the name in any case, also where that is a whole
/// path and takes the place of `dir`. To a `dir` that Windows takes word for
/// word the pieces of the name are joined one by one, so only the last is said
/// to stand at the end. A name of one component leads to another path than `dir`.
pub open spec fn is_joined(dir: Seq<char>, name: Seq<char>, path: Seq<char>) -> bool {
    &&& exists|platform: Seq<char>| path == joined_path(platform, dir, name)
    &&& is_relative(name) && !starts_verbatim(dir) ==> is_adjoined(dir, name, path)
    &&& ends_with_name(dir, name, path)
    &&& is_simple_name(name) ==> path != dir
}

/// `name` is the file name of `path`, `None` if it has none.
pub open spec fn is_file_name(path: Seq<char>, name: Option<Seq<char>>) -> bool {
    exists|platform: Seq<char>| name == final_component(platform, path)
}

/// `name` is a single component on the given platform.
pub open spec fn is_component(platform: Seq<char>, name: Seq<char>) -> bool {
    is_simple_name(name) || final_component(platform, name) == Some(name)
}

/// If `path` has a file name, `renamed` has the file name `name` and stands
/// beside `path`: what another name in place of the file name gives is the same
/// for both. The former is said of a name of one component, and of a path that
/// does not start with two separators; the latter follows from the former,
/// except for a path that Windows takes word for word. If `path` has no file
/// name, a relative name is adjoined to it, with the same exception.
pub open spec fn is_placed(
    platform: Seq<char>,
    path: Seq<char>,
    name: Seq<char>,
    renamed: Seq<char>,
) -> bool {
    match final_component(platform, path) {
        Some(_) => {
            &&& is_component(platform, name) && !starts_double(path) ==> final_component(
                platform,
                renamed,
            ) == Some(name)
            &&& final_component(platform, renamed) == Some(name) && !starts_verbatim(path)
                ==> forall|other: Seq<char>| #[trigger]
                renamed_path(platform, renamed, other) == renamed_path(platform, path, other)
        },
        None => is_relative(name) && !starts_verbatim(path) ==> is_adjoined(path, name, renamed),
    }
}

/// The part of `path` up to its last separator, of whichever platform.
pub open spec fn head_of(path: Seq<char>) -> Seq<char> {
    path.take(path.len() - last_piece(path).len())
}

/// `path` holds an empty component or a `.` that `std::path` passes over, after
/// the separator before position `at`.
pub open spec fn is_redundant_at(path: Seq<char>, at: int) -> bool {
    path[at - 1] == '/' && (path[at] == '/' || path[at] == '.' && at + 1 < path.len() && path[at
        + 1] == '/')
}

/// A path that every platform takes apart in the same way: its components are
/// separated by single slashes, and the last of them is a simple name.
pub open spec fn is_ordinary(path: Seq<char>) -> bool {
    &&& is_simple_name(last_piece(path))
    &&& forall|i: int| 0 <= i < path.len() ==> #[trigger] path[i] != '\\'
    &&& forall|i: int| 0 < i < path.len() ==> !(#[trigger] is_redundant_at(path, i))
}

/// `renamed` is `path` with `name` in place of its last piece. The separator
/// before it may be that of another platform.
pub open spec fn is_beside(path: Seq<char>, name: Seq<char>, renamed: Seq<char>) -> bool {
    ||| renamed == head_of(path) + name
    ||| {
        &&& head_of(path).len() > 0
        &&& renamed == head_of(path).drop_last() + seq!['\\'] + name
    }
}

/// `renamed` is `path` with `name` in place of its file name, on the given platform.
pub open spec fn is_renamed(
    platform: Seq<char>,
    path: Seq<char>,
    name: Seq<char>,
    renamed: Seq<char>,
) -> bool {
    &&& renamed == renamed_path(platform, path, name)
    &&& is_placed(platform, path, name, renamed)
    &&& ends_with_name(path, name, renamed)
    &&& is_ordinary(path) && is_simple_name(name) ==> is_beside(path, name, renamed)
}

/// `path` is `before`, `name` and `after` in a row, where `name` is a whole
/// component, after a separator, a drive letter or nothing, and only separators
/// and `.` components follow it.
pub open spec fn ends_in_component(
    path: Seq<char>,
    before: Seq<char>,
    name: Seq<char>,
    after: Seq<char>,
) -> bool {
    &&& path == before + name + after
    &&& name.len() > 0
    &&& {
        ||| before.len() == 0
        ||| before.len() == 2 && !is_separator(before[0]) && before[1] == ':'
        ||| is_separator(before.last()) && !name.contains(before.last())
    }
    &&& forall|i: int| 0 <= i < after.len() ==> #[trigger] is_passed_over(after, i)
}

/// What stands at position `at` after the last component is a separator, or a
/// `.` after one.
pub open spec fn is_passed_over(after: Seq<char>, at: int) -> bool {
    is_separator(after[at]) || after[at] == '.' && at > 0 && is_separator(after[at - 1])
}

/// A last piece that is no file name: nothing, `.` or `..`, or one of them after
/// a drive letter.
pub open spec fn is_blank(piece: Seq<char>) -> bool {
    let rest = if starts_with_drive(piece) {
        piece.skip(2)
    } else {
        piece
    };
    rest.len() == 0 || rest == "."@ || rest == ".."@
}

/// `s` ends with `suffix`.
pub open spec fn ends_with(s: Seq<char>, suffix: Seq<char>) -> bool {
    &&& suffix.len() <= s.len()
    &&& s.skip(s.len() - suffix.len()) == suffix
}

/// Calls `std::path::Path::join`: the contract says that the result is what the
/// call gives on some platform, and leaves open which. A relative name is
/// adjoined to the directory, and any other takes its place, as a whole or up to
/// the drive; either way the text of the result ends with the name. Only for a
/// directory that Windows takes word for word the call takes the name apart, and
/// then the text ends with its last piece. Adjoining a name of one component
/// gives another path.
#[verifier::external_body]
pub(crate) fn path_join(dir: &str, name: &str) -> (path: String)
    ensures
        exists|platform: Seq<char>| path@ == joined_path(platform, dir@, name@),
        is_relative(name@) && !starts_verbatim(dir@) ==> is_adjoined(dir@, name@, path@),
        ends_with_name(dir@, name@, path@),
        is_simple_name(name@) ==> path@ != dir@,
{
    std::path::Path::new(dir).join(name).display().to_string()
}

/// Calls `std::path::Path::file_name`: the result is what the call gives on
/// some platform. It is the final component of the path, so it stands in the
/// path as a whole component, and only separators and `.` components, which
/// `std::path` passes over, can follow it. A slash separates components on every
/// platform, except in a path that Windows takes word for word. A path has no
/// file name where it is empty or ends in a root, in `.`, in `..` or in a drive
/// letter, or is no more than the name of a share or a device, which two
/// separators introduce.
#[verifier::external_body]
fn path_file_name(path: &str) -> (name: Option<String>)
    ensures
        exists|platform: Seq<char>|
            text::chars_or_none(name) == final_component(platform, path@),
        name matches Some(n) ==> exists|before: Seq<char>, after: Seq<char>|
            ends_in_component(path@, before, n@, after),
        name matches Some(n) ==> !starts_verbatim(path@) ==> !n@.contains('/'),
        name is None ==> is_blank(last_piece(path@)) || starts_double(path@),
{
    std::path::Path::new(path).file_name().map(|name| name.to_string_lossy().into_owned())
}

/// Calls `std::path::Path::with_file_name`: the result is what the call gives
/// on some platform. Where the path has a file name, the result is its sibling,
/// with the same parent, under the new name; where every platform takes the path
/// apart in the same way, the text before the last separator is the same.
/// Otherwise the name is adjoined to the path. Either way the text of the result
/// ends with the name; only for a path that Windows takes word for word the call
/// takes the name apart, and then the text ends with its last piece.
#[verifier::external_body]
fn path_with_file_name(path: &str, name: &str) -> (renamed: String)
    ensures
        exists|platform: Seq<char>|
            renamed@ == #[trigger] renamed_path(platform, path@, name@) && is_placed(
                platform,
                path@,
                name@,
                renamed@,
            ),
        ends_with_name(path@, name@, renamed@),
        is_ordinary(path@) && is_simple_name(name@) ==> is_beside(path@, name@, renamed@),
{
    std::path::Path::new(path).with_file_name(name).display().to_string()
}

/// `dir` is the directory for downloads where the user chose none.
pub open spec fn is_default_dir(
    download_dir: Option<String>,
    current_dir: Option<String>,
    dir: Seq<char>,
) -> bool {
    match (download_dir, current_dir) {
        (Some(downloads), _) => is_joined(downloads@, DOWNLOAD_SUBDIR@, dir),
        (None, Some(current)) => dir == current@,
        (None, None) => dir == "."@,
    }
}

/// The directory for downloads where the user chose none: a directory of the
/// installer's own in the user's download directory, else the current
/// directory, else `.`. The two directories are `None` where there is none.
pub fn default_output_dir(download_dir: Option<String>, current_dir: Option<String>) -> (dir:
    String)
    ensures
        is_default_dir(download_dir, current_dir, dir@),
{
    match download_dir {
        Some(downloads) => path_join(downloads.as_str(), DOWNLOAD_SUBDIR),
        None => match current_dir {
            Some(current) => current,
            None => ".".to_owned(),
        },
    }
}

/// The name of the incomplete file for a target with the given file name.
pub open spec fn partial_name(file_name: Option<Seq<char>>) -> Seq<char> {
    match file_name {
        Some(name) => name + ".part"@,
        None => DEFAULT_FILENAME@ + ".part"@,
    }
}

/// The name of the incomplete file for a target with the given file name.
pub fn partial_file_name(file_name: Option<String>) -> (res: String)
    ensures
        res@ == partial_name(text::chars_or_none(file_name)),
{
    let mut name: String = match file_name {
        Some(name) => name,
        None => DEFAULT_FILENAME.to_owned(),
    };
    name.append(".part");
    name
}

/// `temp` is where the incomplete file for `target`, which has the file name
/// `name`, is kept: beside it, under its name with `.part` after it, or below it,
/// under the default name with `.part` after it, if it has none.
pub open spec fn is_kept_at(
    target: Seq<char>,
    name: Option<Seq<char>>,
    temp: Seq<char>,
) -> bool {
    match name {
        Some(_) => exists|platform: Seq<char>| #[trigger]
            is_renamed(platform, target, partial_name(name), temp),
        None => is_joined(target, partial_name(name), temp),
    }
}

/// `temp` is where the incomplete file for `target` is kept. It is another file
/// than `target`. Where the last piece of `target` is a simple name, `temp` ends
/// in that and `.part`; only a target that starts with two separators may be a
/// share or a device instead, and have no file name.
pub open spec fn is_partial_path(target: Seq<char>, temp: Seq<char>) -> bool {
    let piece = last_piece(target);
    &&& exists|name: Option<Seq<char>>| #[trigger]
        is_file_name(target, name) && is_kept_at(target, name, temp)
    &&& temp != target
    &&& is_simple_name(piece) ==> {
        ||| ends_in_piece(temp, piece + ".part"@)
        ||| starts_double(target) && ends_in_piece(temp, partial_name(None))
    }
    &&& is_ordinary(target) ==> is_beside(target, piece + ".part"@, temp)
}

/// What the last piece of a name is.
proof fn lemma_last_piece(name: Seq<char>)
    ensures
        last_piece(name).len() <= name.len(),
        last_piece(name) == name.skip(name.len() - last_piece(name).len()),
        forall|i: int|
            0 <= i < last_piece(name).len() ==> !is_separator(#[trigger] last_piece(name)[i]),
        last_piece(name).len() < name.len() ==> is_separator(
            name[name.len() - last_piece(name).len() - 1],
        ),
    decreases name.len(),
{
    if name.len() > 0 && !is_separator(name.last()) {
        lemma_last_piece(name.drop_last());
        let piece = last_piece(name.drop_last());
        assert(last_piece(name) =~= name.skip(name.len() - piece.len() - 1));
    } else {
        assert(last_piece(name) =~= name.skip(name.len() as int));
    }
}

/// What a name with `.part` after it is.
proof fn lemma_partial_name(name: Seq<char>)
    ensures
        partial_name(Some(name)).len() == name.len() + 5,
        partial_name(Some(name)).last() == 't',
        last_piece(partial_name(Some(name))) == last_piece(name) + ".part"@,
        is_plain_name(last_piece(name) + ".part"@),
{
    reveal_strlit(".part");
    reveal_strlit(".");
    reveal_strlit("..");
    reveal_with_fuel(last_piece, 6);
    let partial = partial_name(Some(name));
    assert(partial.drop_last() =~= name + seq!['.', 'p', 'a', 'r']);
    assert(partial.drop_last().drop_last() =~= name + seq!['.', 'p', 'a']);
    assert(partial.drop_last().drop_last().drop_last() =~= name + seq!['.', 'p']);
    assert(partial.drop_last().drop_last().drop_last().drop_last() =~= name + seq!['.']);
    assert(partial.drop_last().drop_last().drop_last().drop_last().drop_last() =~= name);
    assert(last_piece(partial) =~= last_piece(name) + ".part"@);
    lemma_last_piece(name);
    let piece = last_piece(name) + ".part"@;
    assert forall|i: int| 0 <= i < piece.len() implies !is_separator(#[trigger] piece[i]) by {
        if i >= last_piece(name).len() {
            assert(piece[i] == ".part"@[i - last_piece(name).len()]);
        }
    }
}

/// A path cannot both have the file name `name` and end with the last piece of
/// its partial name.
proof fn lemma_partial_is_not_target(
    target: Seq<char>,
    temp: Seq<char>,
    before: Seq<char>,
    name: Seq<char>,
    after: Seq<char>,
)
    requires
        ends_in_component(target, before, name, after),
        ends_with(temp, last_piece(name) + ".part"@),
    ensures
        temp != target,
{
    reveal_strlit(".part");
    lemma_partial_name(name);
    lemma_last_piece(name);
    let piece = last_piece(name);
    let partial = piece + ".part"@;
    if temp == target {
        let start = target.len() - partial.len();
        assert forall|i: int| 0 <= i < partial.len() implies #[trigger] partial[i] == target[start
            + i] by {
            assert(target.skip(start)[i] == target[start + i]);
        }
        if after.len() > 0 {
            assert(target[target.len() - 1] == after[after.len() - 1]);
            assert(is_passed_over(after, after.len() - 1));
            assert(partial[partial.len() - 1] == 't');
            assert(false);
        }
        // The character before the piece is a separator, and stands within the
        // partial name, which holds none.
        let at = target.len() - piece.len() - 1;
        if piece.len() < name.len() {
            assert(target[at] == name[name.len() - piece.len() - 1]);
        } else {
            assert(before.len() > 2);
            assert(target[at] == before.last());
        }
        assert(partial[at - start] == target[at]);
        assert(false);
    }
}

/// Where `name` is the file name of `target` and the last piece of `target` is a
/// simple name, that is the last piece of `name` too.
proof fn lemma_last_piece_of_target(
    target: Seq<char>,
    before: Seq<char>,
    name: Seq<char>,
    after: Seq<char>,
)
    requires
        ends_in_component(target, before, name, after),
        is_simple_name(last_piece(target)),
    ensures
        last_piece(name) == last_piece(target),
{
    reveal_strlit(".");
    lemma_last_piece(target);
    lemma_last_piece(name);
    let piece = last_piece(target);
    if after.len() > 0 {
        let end = after.len() - 1;
        assert(target.last() == after.last());
        assert(is_passed_over(after, end));
        assert(piece.last() == target.last());
        // The last piece would be a single dot.
        assert(target[target.len() - 2] == after[end - 1]);
        if piece.len() >= 2 {
            assert(piece[piece.len() - 2] == target[target.len() - 2]);
            assert(false);
        }
        assert(piece =~= "."@);
        assert(false);
    }
    assert(target =~= before + name);
    let own = last_piece(name);
    let at = target.len() - piece.len() - 1;
    if own.len() < name.len() {
        let mark = name.len() - own.len() - 1;
        assert(target[before.len() + mark] == name[mark]);
        if piece.len() > own.len() {
            assert(piece[piece.len() - own.len() - 1] == target[before.len() + mark]);
            assert(false);
        }
        if piece.len() < own.len() {
            assert(target[at] == name[at - before.len()]);
            assert(own[at - before.len() - mark - 1] == name[at - before.len()]);
            assert(false);
        }
    } else {
        if piece.len() < own.len() {
            assert(target[at] == name[at - before.len()]);
            assert(own[at - before.len()] == name[at - before.len()]);
            assert(false);
        }
        if piece.len() > own.len() {
            assert(target[before.len() - 1] == before.last());
            assert(piece[piece.len() - own.len() - 1] == before.last());
            if is_separator(before.last()) {
                assert(false);
            }
            assert(before[0] == target[0] && before[1] == target[1]);
            if piece.len() < target.len() {
                assert(at == 0);
                assert(false);
            }
            assert(piece[1] == target[1]);
            assert(false);
        }
    }
    assert(own =~= piece);
}

/// The file name of an ordinary target is its last piece.
proof fn lemma_ordinary_file_name(
    target: Seq<char>,
    before: Seq<char>,
    name: Seq<char>,
    after: Seq<char>,
)
    requires
        is_ordinary(target),
        ends_in_component(target, before, name, after),
        !name.contains('/'),
    ensures
        name == last_piece(target),
        is_simple_name(partial_name(Some(name))),
{
    reveal_strlit(".part");
    lemma_last_piece_of_target(target, before, name, after);
    lemma_last_piece(name);
    lemma_partial_name(name);
    if last_piece(name).len() < name.len() {
        let mark = name.len() - last_piece(name).len() - 1;
        assert(target[before.len() + mark] == name[mark]);
        assert(name.contains(name[mark]));
        assert(false);
    }
    assert(last_piece(name) =~= name);
}

/// The name of an incomplete file whose target has none is its own last piece.
proof fn lemma_default_partial_name()
    ensures
        last_piece(partial_name(None)) == partial_name(None),
        is_simple_name(partial_name(None)),
{
    reveal_strlit("gregtech-lite-nightly-curseforge.zip");
    lemma_partial_name(DEFAULT_FILENAME@);
    lemma_last_piece(DEFAULT_FILENAME@);
    let piece = last_piece(DEFAULT_FILENAME@);
    if piece.len() < DEFAULT_FILENAME@.len() {
        assert(is_separator(DEFAULT_FILENAME@[DEFAULT_FILENAME@.len() - piece.len() - 1]));
        assert(false);
    }
    assert(piece =~= DEFAULT_FILENAME@);
    assert(partial_name(None) == partial_name(Some(DEFAULT_FILENAME@)));
    assert(partial_name(None)[0] == 'g' && partial_name(None)[1] == 'r');
}

/// Where the incomplete file for `target` is kept. Where `target` has no file
/// name, to put one in its place is to join it.
pub fn partial_path(target: &str) -> (temp: String)
    ensures
        is_partial_path(target@, temp@),
        temp@ != target@,
{
    let file_name: Option<String> = path_file_name(target);
    let ghost name = text::chars_or_none(file_name);
    let ghost piece = last_piece(target@);
    let named: bool = file_name.is_some();
    let renamed: String = partial_file_name(file_name);
    proof {
        assert(is_file_name(target@, name));
        lemma_last_piece(target@);
    }
    if named {
        let temp: String = path_with_file_name(target, renamed.as_str());
        proof {
            let platform = choose|platform: Seq<char>|
                temp@ == #[trigger] renamed_path(platform, target@, renamed@) && is_placed(
                    platform,
                    target@,
                    renamed@,
                    temp@,
                );
            assert(is_renamed(platform, target@, renamed@, temp@));
            let (before, after) = choose|before: Seq<char>, after: Seq<char>|
                ends_in_component(target@, before, name->0, after);
            lemma_partial_name(name->0);
            lemma_partial_is_not_target(target@, temp@, before, name->0, after);
            if is_simple_name(piece) {
                lemma_last_piece_of_target(target@, before, name->0, after);
            }
            if is_ordinary(target@) {
                lemma_ordinary_file_name(target@, before, name->0, after);
            }
            assert(is_kept_at(target@, name, temp@));
        }
        temp
    } else {
        let temp: String = path_join(target, renamed.as_str());
        proof {
            lemma_default_partial_name();
            if is_simple_name(piece) {
                assert(!is_blank(piece));
            }
            if is_ordinary(target@) && starts_double(target@) {
                assert(is_redundant_at(target@, 1));
            }
            assert(is_kept_at(target@, name, temp@));
        }
        temp
    }
}

/// `temp` has the name made from that of `target`: it is known to, or that name
/// is one component and `target` does not start with two separators.
pub open spec fn is_named_after(
    platform: Seq<char>,
    target: Seq<char>,
    name: Seq<char>,
    temp: Seq<char>,
) -> bool {
    let partial = partial_name(Some(name));
    ||| final_component(platform, temp) == Some(partial)
    ||| is_component(platform, partial) && !starts_double(target)
}

/// On one platform, two targets share the path of their incomplete files only
/// if they are one file: they have one file name, and stand in one directory, so
/// that any name in place of the file name gives one path for both. Targets that
/// are spelled as `std::path` spells them are then equal.
pub proof fn law_files_do_not_share_a_partial_file(
    platform: Seq<char>,
    first: Seq<char>,
    first_name: Seq<char>,
    second: Seq<char>,
    second_name: Seq<char>,
    temp: Seq<char>,
)
    requires
        final_component(platform, first) == Some(first_name),
        final_component(platform, second) == Some(second_name),
        is_renamed(platform, first, partial_name(Some(first_name)), temp),
        is_renamed(platform, second, partial_name(Some(second_name)), temp),
        is_named_after(platform, first, first_name, temp),
        is_named_after(platform, second, second_name, temp),
        !starts_verbatim(first),
        !starts_verbatim(second),
    ensures
        first_name == second_name,
        forall|name: Seq<char>| #[trigger]
            renamed_path(platform, first, name) == renamed_path(platform, second, name),
        first == renamed_path(platform, first, first_name) && second == renamed_path(
            platform,
            second,
            second_name,
        ) ==> first == second,
{
    lemma_partial_name(first_name);
    lemma_partial_name(second_name);
    let partial = partial_name(Some(first_name));
    assert(partial == partial_name(Some(second_name)));
    assert(first_name =~= partial.take(first_name.len() as int));
    assert(second_name =~= partial.take(second_name.len() as int));
    assert forall|name: Seq<char>| #[trigger]
        renamed_path(platform, first, name) == renamed_path(platform, second, name) by {
        assert(renamed_path(platform, temp, name) == renamed_path(platform, first, name));
        assert(renamed_path(platform, temp, name) == renamed_path(platform, second, name));
    }
}

/// Two pieces that are simple names are equal if one path ends in both of them
/// with `.part` after them.
proof fn lemma_pieces_are_equal(path: Seq<char>, first: Seq<char>, second: Seq<char>)
    requires
        is_simple_name(first),
        is_simple_name(second),
        ends_in_piece(path, first + ".part"@),
        ends_in_piece(path, second + ".part"@),
    ensures
        first == second,
{
    reveal_strlit(".part");
    let a = first + ".part"@;
    let b = second + ".part"@;
    let last = last_piece(path);
    assert(!starts_with_drive(a) && !starts_with_drive(b));
    assert(a == b);
    assert(first =~= a.take(first.len() as int));
    assert(second =~= b.take(second.len() as int));
}

/// Two targets whose incomplete files share a path have the same last piece, if
/// it is a simple name in both. If every platform takes them apart in the same
/// way, they are equal. Said of targets that do not start with two separators.
pub proof fn law_targets_do_not_share_a_partial_file(
    first: Seq<char>,
    second: Seq<char>,
    temp: Seq<char>,
)
    requires
        is_partial_path(first, temp),
        is_partial_path(second, temp),
        is_simple_name(last_piece(first)),
        is_simple_name(last_piece(second)),
        !starts_double(first),
        !starts_double(second),
    ensures
        last_piece(first) == last_piece(second),
        is_ordinary(first) && is_ordinary(second) ==> first == second,
{
    let piece = last_piece(first);
    lemma_pieces_are_equal(temp, piece, last_piece(second));
    lemma_last_piece(first);
    lemma_last_piece(second);
    if is_ordinary(first) && is_ordinary(second) {
        let count = head_of(first).len() as int;
        assert(first.len() == second.len());
        assert forall|i: int| 0 <= i < first.len() implies first[i] == second[i] by {
            if i < count - 1 {
                assert(temp[i] == first[i]);
                assert(temp[i] == second[i]);
            } else if i == count - 1 {
                assert(is_separator(first[i]) && is_separator(second[i]));
            } else {
                assert(piece[i - count] == first[i]);
                assert(piece[i - count] == second[i]);
            }
        }
        assert(first =~= second);
    }
}

/// A path that was joined is what `std::path` joins. Where the name is relative,
/// and the directory is none that Windows takes word for word, it is the
/// directory, a separator unless there is one or none is needed, and the name.
pub proof fn law_joined_path_is_directory_and_name(
    dir: Seq<char>,
    name: Seq<char>,
    path: Seq<char>,
)
    requires
        is_joined(dir, name, path),
    ensures
        exists|platform: Seq<char>| path == joined_path(platform, dir, name),
        ({
            let rooted = name.len() > 0 && (name[0] == '/' || name[0] == '\\');
            let drive = name.len() > 1 && name[1] == ':';
            let verbatim = dir.len() > 3 && dir.take(4) == seq!['\\', '\\', '?', '\\'];
            !rooted && !drive && !verbatim ==> {
                ||| path == dir + seq!['/'] + name
                ||| path == dir + seq!['\\'] + name
                ||| path == dir + name && (dir.len() == 0 || dir.last() == '/' || dir.last() == '\\'
                    || dir.last() == ':')
            }
        }),
{
    if starts_verbatim(dir) {
        assert(dir.take(4) =~= seq!['\\', '\\', '?', '\\']);
    }
}

/// `temp` is what `std::path` gives for `target` with its file name and `.part` in
/// the place of that, or for the default name and `.part` joined to it.
pub open spec fn is_name_and_part(
    on: Seq<char>,
    platform: Seq<char>,
    target: Seq<char>,
    temp: Seq<char>,
) -> bool {
    let part = seq!['.', 'p', 'a', 'r', 't'];
    match final_component(on, target) {
        Some(name) => temp == renamed_path(platform, target, name + part),
        None => temp == joined_path(
            platform,
            target,
            "gregtech-lite-nightly-curseforge.zip"@ + part,
        ),
    }
}

/// The path of an incomplete file is another than that of the target. It is what
/// `std::path` gives for the target with its file name and `.part` in the place of
/// that, or for the default name and `.part` joined to a target without one.
pub proof fn law_partial_path_is_the_name_and_part(target: Seq<char>, temp: Seq<char>)
    requires
        is_partial_path(target, temp),
    ensures
        temp != target,
        exists|on: Seq<char>, platform: Seq<char>| is_name_and_part(on, platform, target, temp),
{
    reveal_strlit(".part");
    assert(".part"@ =~= seq!['.', 'p', 'a', 'r', 't']);
    let name = choose|name: Option<Seq<char>>| #[trigger]
        is_file_name(target, name) && is_kept_at(target, name, temp);
    let on = choose|on: Seq<char>| name == final_component(on, target);
    match name {
        Some(n) => {
            let platform = choose|platform: Seq<char>|
                is_renamed(platform, target, partial_name(name), temp);
            assert(is_name_and_part(on, platform, target, temp));
        },
        None => {
            let platform = choose|platform: Seq<char>|
                temp == joined_path(platform, target, partial_name(name));
            assert(is_name_and_part(on, platform, target, temp));
        },
    }
}

/// The two files of a download.
#[derive(Debug)]
pub struct DownloadPaths {
    /// Where the complete file goes.
    pub target: String,
    /// Where the file is kept while it is incomplete.
    pub temp: String,
}

impl DownloadPaths {
    /// The files of a download to `target`.
    pub fn new(target: String) -> (paths: Self)
        ensures
            paths.target@ == target@,
            is_partial_path(target@, paths.temp@),
            paths.temp@ != target@,
    {
        let temp: String = partial_path(target.as_str());
        DownloadPaths { target, temp }
    }
}

} // verus!
