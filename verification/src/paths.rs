//! The files that the plugin keeps.
use vstd::prelude::*;
use vstd::utf8::*;

use crate::protocol::PLUGIN_NAME;

verus! {

/// `std::path::Path`.
#[verifier::external_type_specification]
#[verifier::external_body]
pub struct ExPath(std::path::Path);

/// `std::path::PathBuf`.
#[verifier::external_type_specification]
#[verifier::external_body]
pub struct ExPathBuf(std::path::PathBuf);

/// The bytes of a borrowed path.
pub uninterp spec fn path_bytes(path: &std::path::Path) -> Seq<u8>;

/// The bytes of an owned path.
pub uninterp spec fn path_buf_bytes(path: std::path::PathBuf) -> Seq<u8>;

/// The components of a borrowed path, each by its bytes, as `std::path::Path::components` tells them
/// apart: what stands between separators, and before them the root or the prefix, if there is one.
pub uninterp spec fn path_components(path: &std::path::Path) -> Seq<Seq<u8>>;

/// The components of an owned path, each by its bytes.
pub uninterp spec fn path_buf_components(path: std::path::PathBuf) -> Seq<Seq<u8>>;

/// Whether `name` can only be the name of a file in a directory: it has no separator in it and no
/// colon, and is neither the directory itself nor the one above.
pub open spec fn is_file_name(name: Seq<char>) -> bool {
    &&& name.len() > 0
    &&& name != "."@
    &&& name != ".."@
    &&& forall|i: int| 0 <= i < name.len() ==> (#[trigger] name[i]) != '/' && name[i] != '\\' && name[i] != ':'
}

/// Whether a path begins with `\\?\`, as a verbatim path on Windows does.
pub open spec fn is_verbatim(path: Seq<u8>) -> bool {
    path.len() >= 4 && path[0] == 0x5c && path[1] == 0x5c && path[2] == 0x3f && path[3] == 0x5c
}

/// A slash, or a backslash as on Windows.
pub open spec fn is_separator(between: Seq<u8>) -> bool {
    between == seq![0x2fu8] || between == seq![0x5cu8]
}

/// Whether a name can only follow behind a separator: the directory is not empty, and does not end in
/// a slash. (On Windows a backslash or the colon of a drive needs none either.)
pub open spec fn needs_separator(dir: Seq<u8>) -> bool {
    dir.len() > 0 && dir.last() != 0x2f && dir.last() != 0x5c && dir.last() != 0x3a
}

/// Whether a name follows without a separator: the directory is empty, or ends in a slash.
pub open spec fn has_separator(dir: Seq<u8>) -> bool {
    dir.len() == 0 || dir.last() == 0x2f
}

/// Whether `whole` leads to the file `name` in the directory `dir`: the directory, one separator
/// unless there is one already, and the name.
pub open spec fn leads_to(whole: Seq<u8>, dir: Seq<u8>, name: Seq<char>) -> bool {
    ||| whole == dir + encode_utf8(name) && !needs_separator(dir)
    ||| !has_separator(dir) && exists|between: Seq<u8>| #[trigger]
        is_separator(between) && whole == dir + between + encode_utf8(name)
}

/// Whether a path ends in the given name.
pub open spec fn ends_in(whole: Seq<u8>, name: Seq<char>) -> bool {
    encode_utf8(name).is_suffix_of(whole)
}

/// Whether a path begins with two separators, as a verbatim path, a device or a network share on
/// Windows does.
pub open spec fn has_double_root(path: Seq<u8>) -> bool {
    path.len() >= 2 && (path[0] == 0x2f || path[0] == 0x5c) && (path[1] == 0x2f || path[1] == 0x5c)
}

/// Whether the components of a path are those of a directory and, behind them, one more: the name.
pub open spec fn stands_in(whole: Seq<Seq<u8>>, dir: Seq<Seq<u8>>, name: Seq<char>) -> bool {
    whole == dir.push(encode_utf8(name))
}

/// Calls `std::path::Path::join`: the directory, a separator where one is needed, and the name, which
/// is one component more. (Joining to a verbatim path on Windows also removes `.` and `..` from it, so
/// there only the name at the end is stated. Behind two separators a name may become part of the prefix
/// there, as in a server and its share, so nothing is said of the components.) Whether the separator
/// is a slash or a backslash depends on the system.
#[verifier::external_body]
fn join(dir: &std::path::Path, name: &str) -> (r: std::path::PathBuf)
    requires
        is_file_name(name@),
    ensures
        ends_in(path_buf_bytes(r), name@),
        !is_verbatim(path_bytes(dir)) ==> leads_to(path_buf_bytes(r), path_bytes(dir), name@),
        !has_double_root(path_bytes(dir)) ==> stands_in(path_buf_components(r), path_components(dir), name@),
{
    dir.join(name)
}

/// Calls `std::path::PathBuf::from` on a string, whose bytes become those of the path. A single dot is
/// one component.
#[verifier::external_body]
fn path_of(text: &str) -> (r: std::path::PathBuf)
    ensures
        path_buf_bytes(r) == encode_utf8(text@),
        text@ == "."@ ==> path_buf_components(r) == seq![encode_utf8(text@)],
{
    std::path::PathBuf::from(text)
}

/// `std::path::PathBuf::as_path` gives the same path.
pub assume_specification[ std::path::PathBuf::as_path ](path: &std::path::PathBuf) -> (r: &std::path::Path)
    ensures
        path_bytes(r) == path_buf_bytes(*path),
        path_components(r) == path_buf_components(*path),
;

proof fn lemma_plugin_name()
    ensures
        is_file_name(PLUGIN_NAME@),
{
    reveal_strlit("clipygo-plugin-relay");
    reveal_strlit(".");
    reveal_strlit("..");
    assert(PLUGIN_NAME@.len() == 20);
}

/// Where the plugin keeps its files: in a directory of its own under the user's data, or under the
/// current directory where there is no place for the user's data.
pub fn data_dir(user_data: Option<std::path::PathBuf>) -> (r: std::path::PathBuf)
    ensures
        ends_in(path_buf_bytes(r), PLUGIN_NAME@),
        user_data matches Some(base) ==> (!is_verbatim(path_buf_bytes(base)) ==> leads_to(
            path_buf_bytes(r),
            path_buf_bytes(base),
            PLUGIN_NAME@,
        )),
        user_data matches Some(base) ==> (!has_double_root(path_buf_bytes(base)) ==> stands_in(
            path_buf_components(r),
            path_buf_components(base),
            PLUGIN_NAME@,
        )),
        user_data is None ==> leads_to(path_buf_bytes(r), encode_utf8("."@), PLUGIN_NAME@),
        user_data is None ==> stands_in(path_buf_components(r), seq![encode_utf8("."@)], PLUGIN_NAME@),
{
    proof {
        lemma_plugin_name();
        reveal_strlit(".");
        reveal_with_fuel(encode_utf8, 2);
        assert(encode_utf8("."@).len() == 1);
    }
    match user_data {
        Some(base) => join(base.as_path(), PLUGIN_NAME),
        None => join(path_of(".").as_path(), PLUGIN_NAME),
    }
}

/// Where the configuration is kept.
pub fn config_path(data_dir: &std::path::Path) -> (r: std::path::PathBuf)
    ensures
        ends_in(path_buf_bytes(r), "config.json"@),
        !is_verbatim(path_bytes(data_dir)) ==> leads_to(path_buf_bytes(r), path_bytes(data_dir), "config.json"@),
        !has_double_root(path_bytes(data_dir)) ==> stands_in(
            path_buf_components(r),
            path_components(data_dir),
            "config.json"@,
        ),
{
    proof {
        reveal_strlit("config.json");
        reveal_strlit(".");
        reveal_strlit("..");
        assert("config.json"@.len() == 11);
    }
    join(data_dir, "config.json")
}

/// Where the keys are kept.
pub fn keypair_path(data_dir: &std::path::Path) -> (r: std::path::PathBuf)
    ensures
        ends_in(path_buf_bytes(r), "keypair.json"@),
        !is_verbatim(path_bytes(data_dir)) ==> leads_to(path_buf_bytes(r), path_bytes(data_dir), "keypair.json"@),
        !has_double_root(path_bytes(data_dir)) ==> stands_in(
            path_buf_components(r),
            path_components(data_dir),
            "keypair.json"@,
        ),
{
    proof {
        reveal_strlit("keypair.json");
        reveal_strlit(".");
        reveal_strlit("..");
        assert("keypair.json"@.len() == 12);
    }
    join(data_dir, "keypair.json")
}

/// The configuration and the keys are two files: what is written to the one never touches the other.
pub proof fn law_two_files(config: std::path::PathBuf, keypair: std::path::PathBuf)
    requires
        ends_in(path_buf_bytes(config), "config.json"@),
        ends_in(path_buf_bytes(keypair), "keypair.json"@),
    ensures
        path_buf_bytes(config) != path_buf_bytes(keypair),
{
    reveal_strlit("config.json");
    reveal_strlit("keypair.json");
    is_ascii_chars_encode_utf8("config.json"@);
    is_ascii_chars_encode_utf8("keypair.json"@);
    let a = path_buf_bytes(config);
    let b = path_buf_bytes(keypair);
    let x = encode_utf8("config.json"@);
    let y = encode_utf8("keypair.json"@);
    assert(x[5] as int == 'g' as int && y[6] as int == 'r' as int);
    assert(a[a.len() - 6] == x[5]);
    assert(b[b.len() - 6] == y[6]);
}

/// The configuration and the keys stand side by side: each lies in the directory itself, under its name.
pub proof fn law_files_stand_side_by_side(
    dir: &std::path::Path,
    config: std::path::PathBuf,
    keypair: std::path::PathBuf,
)
    requires
        stands_in(path_buf_components(config), path_components(dir), "config.json"@),
        stands_in(path_buf_components(keypair), path_components(dir), "keypair.json"@),
    ensures
        path_buf_components(config).drop_last() == path_components(dir),
        path_buf_components(config).last() == encode_utf8("config.json"@),
        path_buf_components(keypair).drop_last() == path_components(dir),
        path_buf_components(keypair).last() == encode_utf8("keypair.json"@),
        path_buf_components(config) != path_buf_components(keypair),
{
    assert(path_buf_components(config).drop_last() =~= path_components(dir));
    assert(path_buf_components(keypair).drop_last() =~= path_components(dir));
    reveal_strlit("config.json");
    reveal_strlit("keypair.json");
    is_ascii_chars_encode_utf8("config.json"@);
    is_ascii_chars_encode_utf8("keypair.json"@);
    assert(path_buf_components(config).last().len() != path_buf_components(keypair).last().len());
}

/// A path that leads to a file is the directory, the name, and one separator between them where the
/// directory does not end in one.
pub proof fn law_path_is_directory_and_name(whole: Seq<u8>, dir: Seq<u8>, name: Seq<char>)
    requires
        leads_to(whole, dir, name),
    ensures
        dir.is_prefix_of(whole),
        encode_utf8(name).is_suffix_of(whole),
        dir.len() == 0 || dir.last() == 0x2f ==> whole == dir + encode_utf8(name),
        dir.len() > 0 && dir.last() != 0x2f && dir.last() != 0x5c && dir.last() != 0x3a ==> whole.len() == dir.len() + 1
            + encode_utf8(name).len() && (whole[dir.len() as int] == 0x2f || whole[dir.len() as int] == 0x5c),
{
}

/// A file that stands in a directory has the directory's components and its own name behind them.
pub proof fn law_file_stands_in_its_directory(whole: Seq<Seq<u8>>, dir: Seq<Seq<u8>>, name: Seq<char>)
    requires
        stands_in(whole, dir, name),
    ensures
        whole.len() == dir.len() + 1,
        whole.drop_last() == dir,
        whole.last() == encode_utf8(name),
{
    assert(whole.drop_last() =~= dir);
}

/// The two files are `config.json` and `keypair.json` in the directory.
pub proof fn law_paths_of_the_files(
    dir: &std::path::Path,
    config: std::path::PathBuf,
    keypair: std::path::PathBuf,
)
    requires
        call_ensures(config_path, (dir,), config),
        call_ensures(keypair_path, (dir,), keypair),
    ensures
        path_buf_bytes(config) != path_buf_bytes(keypair),
        !has_double_root(path_bytes(dir)) ==> path_buf_components(config) == path_components(dir).push(
            encode_utf8("config.json"@),
        ) && path_buf_components(keypair) == path_components(dir).push(encode_utf8("keypair.json"@)),
{
    law_two_files(config, keypair);
}

/// The files of the plugin are kept in a directory of its own, below the user's data, or below the current
/// directory.
pub proof fn law_path_of_the_data(user_data: Option<std::path::PathBuf>, r: std::path::PathBuf)
    requires
        call_ensures(data_dir, (user_data,), r),
    ensures
        user_data is None ==> path_buf_components(r) == seq![encode_utf8("."@)].push(
            encode_utf8("clipygo-plugin-relay"@),
        ),
        user_data matches Some(base) ==> (!has_double_root(path_buf_bytes(base)) ==> path_buf_components(r)
            == path_buf_components(base).push(encode_utf8("clipygo-plugin-relay"@))),
{
}

} // verus!
