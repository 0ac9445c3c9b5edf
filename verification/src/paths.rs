//! Paths as texts: names separated by `/`, absolute where they begin with
//! one.

use crate::text::{chars_of, has_prefix, same_chars, starts_with, string_of, sub_chars};
use crate::theme::option_view;
use std::path::Path;
use vstd::prelude::*;
use vstd::string::StringExecFns;

verus! {

/// The path begins at the root.
pub open spec fn is_absolute(path: Seq<char>) -> bool {
    path.len() > 0 && path[0] == '/'
}

/// `name` behind the path `base`: with a `/` between the two unless `base` is
/// empty or ends in one.
pub open spec fn joined(base: Seq<char>, name: Seq<char>) -> Seq<char> {
    if base.len() == 0 || base.last() == '/' {
        base + name
    } else {
        base + seq!['/'] + name
    }
}

/// The path `rel` as seen from `base`: `rel` itself if it is absolute, and
/// `rel` behind `base` if it is not.
pub open spec fn resolved(base: Seq<char>, rel: Seq<char>) -> Seq<char> {
    if is_absolute(rel) {
        rel
    } else {
        joined(base, rel)
    }
}

/// Where `cd` goes for `target`, from the directory `cwd` and with the home
/// directory `home`, if there is one. `~` is the home directory, or `.`
/// without one. `~/rest` is `rest` seen from the home directory, if there is
/// one. Anything else is the target seen from `cwd`.
pub open spec fn cd_target(target: Seq<char>, cwd: Seq<char>, home: Option<Seq<char>>) -> Seq<
    char,
> {
    if target == "~"@ {
        match home {
            Some(h) => h,
            None => "."@,
        }
    } else if has_prefix(target, "~/"@) && home is Some {
        resolved(home->Some_0, target.skip("~/"@.len() as int))
    } else {
        resolved(cwd, target)
    }
}

/// `name` behind the path `base`.
pub fn join_name(base: &[char], name: &[char]) -> (out: Vec<char>)
    ensures
        out@ == joined(base@, name@),
{
    let mut out: Vec<char> = Vec::new();
    let mut i: usize = 0;
    while i < base.len()
        invariant
            i <= base.len(),
            out@ == base@.take(i as int),
        decreases base.len() - i,
    {
        out.push(base[i]);
        i += 1;
    }
    if base.len() > 0 && base[base.len() - 1] != '/' {
        out.push('/');
    }
    let ghost head = out@;
    let mut k: usize = 0;
    while k < name.len()
        invariant
            k <= name.len(),
            out@ == head + name@.take(k as int),
        decreases name.len() - k,
    {
        out.push(name[k]);
        k += 1;
    }
    out
}

/// The path `rel` as seen from `base`.
pub fn resolve(base: &[char], rel: &[char]) -> (out: Vec<char>)
    ensures
        out@ == resolved(base@, rel@),
{
    if rel.len() > 0 && rel[0] == '/' {
        sub_chars(rel, 0, rel.len())
    } else {
        join_name(base, rel)
    }
}

/// The path `path` without its last component, in the sense of
/// `std::path::Path::parent`.
pub uninterp spec fn path_parent(path: Seq<char>) -> Option<Seq<char>>;

/// The last component of the path `path` where it is a name, in the sense of
/// `std::path::Path::file_name`.
pub uninterp spec fn path_file_name(path: Seq<char>) -> Option<Seq<char>>;

/// `std::path::Path::parent` gives the path without its last component, and
/// nothing for a path that ends in a root or is empty. What it gives depends
/// on the text of the path alone.
#[verifier::external_body]
pub(crate) fn parent_of(path: &str) -> (parent: Option<String>)
    ensures
        option_view(parent) == path_parent(path@),
{
    match Path::new(path).parent() {
        Some(parent) => Some(parent.to_string_lossy().into_owned()),
        None => None,
    }
}

/// `std::path::Path::file_name` gives the last component of the path where
/// that is a name, and nothing where the path ends in `..` or in a root.
/// What it gives depends on the text of the path alone.
#[verifier::external_body]
pub(crate) fn file_name_of(path: &str) -> (name: Option<String>)
    ensures
        option_view(name) == path_file_name(path@),
{
    match Path::new(path).file_name() {
        Some(name) => Some(name.to_string_lossy().into_owned()),
        None => None,
    }
}

/// Where `cd` goes for `target`, from the directory `cwd` and with the home
/// directory `home`.
pub fn expand_cd_target_from(target: &str, cwd: &str, home: Option<&str>) -> (dir: String)
    ensures
        dir@ == cd_target(
            target@,
            cwd@,
            match home {
                Some(h) => Some(h@),
                None => None,
            },
        ),
{
    let t = chars_of(target);
    let tilde = chars_of("~");
    let tilde_slash = chars_of("~/");
    if same_chars(t.as_slice(), tilde.as_slice()) {
        return match home {
            Some(h) => h.to_owned(),
            None => ".".to_owned(),
        };
    }
    if starts_with(t.as_slice(), tilde_slash.as_slice()) {
        match home {
            Some(h) => {
                let rest = sub_chars(t.as_slice(), tilde_slash.len(), t.len());
                let out = resolve(chars_of(h).as_slice(), rest.as_slice());
                return string_of(out.as_slice());
            },
            None => {},
        }
    }
    let out = resolve(chars_of(cwd).as_slice(), t.as_slice());
    string_of(out.as_slice())
}

/// `dirs::home_dir` gives the home directory of the user, if the system
/// knows one. It is asked of the environment, so nothing is said of it.
#[verifier::external_body]
pub(crate) fn home_dir() -> (home: Option<String>) {
    match dirs::home_dir() {
        Some(path) => Some(path.to_string_lossy().into_owned()),
        None => None,
    }
}

/// Where `cd` goes for `target` from the directory `cwd`, with the home
/// directory that the system reports.
pub fn expand_cd_target(target: &str, cwd: &str) -> (dir: String)
    ensures
        exists|home: Option<Seq<char>>| dir@ == cd_target(target@, cwd@, home),
{
    let home = home_dir();
    match home {
        Some(h) => {
            let dir = expand_cd_target_from(target, cwd, Some(h.as_str()));
            dir
        },
        None => {
            let dir = expand_cd_target_from(target, cwd, None);
            dir
        },
    }
}

/// The branch as the status bar shows it: its name, and behind it a mark
/// that tells whether anything in the work tree differs from the last
/// commit.
pub open spec fn branch_label(shorthand: Seq<char>, is_dirty: bool) -> Seq<char> {
    if is_dirty {
        shorthand + " \u{f12a}"@
    } else {
        shorthand + " \u{2714}"@
    }
}

/// The branch as the status bar shows it.
pub fn git_label(shorthand: &str, is_dirty: bool) -> (label: String)
    ensures
        label@ == branch_label(shorthand@, is_dirty),
{
    let mut label = shorthand.to_owned();
    if is_dirty {
        label.append(" \u{f12a}");
    } else {
        label.append(" \u{2714}");
    }
    label
}

/// The file `name` in the directory of the shell below the directory
/// `config_dir` for configurations.
pub open spec fn config_file(config_dir: Seq<char>, name: Seq<char>) -> Seq<char> {
    joined(joined(config_dir, "halo"@), name)
}

/// The file that holds the history.
pub fn history_path(config_dir: &str) -> (path: String)
    ensures
        path@ == config_file(config_dir@, "history"@),
{
    in_config_dir(config_dir, "history")
}

/// The file that holds the session.
pub fn session_path(config_dir: &str) -> (path: String)
    ensures
        path@ == config_file(config_dir@, "session.json"@),
{
    in_config_dir(config_dir, "session.json")
}

/// The file that holds the configuration.
pub fn config_path(config_dir: &str) -> (path: String)
    ensures
        path@ == config_file(config_dir@, "halo.toml"@),
{
    in_config_dir(config_dir, "halo.toml")
}

/// The directory that holds the themes.
pub fn themes_dir(config_dir: &str) -> (path: String)
    ensures
        path@ == config_file(config_dir@, "themes"@),
{
    in_config_dir(config_dir, "themes")
}

/// The file that holds the theme of the name `theme_name`.
pub fn theme_path(config_dir: &str, theme_name: &str) -> (path: String)
    ensures
        path@ == joined(config_file(config_dir@, "themes"@), theme_name@ + ".toml"@),
{
    let dir = themes_dir(config_dir);
    let mut file = theme_name.to_owned();
    file.append(".toml");
    string_of(join_name(chars_of(dir.as_str()).as_slice(), chars_of(file.as_str()).as_slice()).as_slice())
}

fn in_config_dir(config_dir: &str, name: &str) -> (path: String)
    ensures
        path@ == config_file(config_dir@, name@),
{
    let home = join_name(chars_of(config_dir).as_slice(), chars_of("halo").as_slice());
    string_of(join_name(home.as_slice(), chars_of(name).as_slice()).as_slice())
}

/// Whether the themes that come with the shell are to be unpacked: when the
/// directory of the themes is not there, or has nothing in it.
pub fn needs_themes(dir_exists: bool, dir_has_entries: bool) -> (needed: bool)
    ensures
        needed == (!dir_exists || !dir_has_entries),
{
    !dir_exists || !dir_has_entries
}

} // verus!
