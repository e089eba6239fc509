use vstd::prelude::*;
use vstd::string::*;

verus! {

/// The two physical arrangements of crate archives under `crates/`.
#[derive(Debug, Clone, Copy, PartialEq, Eq, Structural)]
pub enum CrateLayout {
    /// One flat directory per crate name.
    Legacy,
    /// Hashed prefix directories, as the index lays out its own files.
    Current,
}

/// The views of a sequence of strings.
pub open spec fn texts(v: Seq<String>) -> Seq<Seq<char>> {
    v.map_values(|s: String| s@)
}

/// A top-level directory name of the current layout: `1`, `2`, `3`, or a
/// two-character prefix.
pub open spec fn is_prefix_dir(n: Seq<char>) -> bool {
    (n.len() == 1 && (n[0] == '1' || n[0] == '2' || n[0] == '3')) || n.len() == 2
}

/// The layout of a tree whose top-level directories carry these names; an
/// empty tree is in the current layout.
pub open spec fn layout_of(names: Seq<Seq<char>>) -> CrateLayout {
    if forall|i: int| 0 <= i < names.len() ==> is_prefix_dir(#[trigger] names[i]) {
        CrateLayout::Current
    } else {
        CrateLayout::Legacy
    }
}

/// The prefix directory of a crate name in the current layout.
pub open spec fn prefix_of(name: Seq<char>) -> Seq<char> {
    if name.len() == 1 {
        "1"@
    } else if name.len() == 2 {
        "2"@
    } else if name.len() == 3 {
        "3/"@ + name.subrange(0, 1)
    } else {
        name.subrange(0, 2) + "/"@ + name.subrange(2, 4)
    }
}

/// The path of an archive below `crates/` in the current layout:
/// `<prefix>/<name>/<version>/<name>-<version>.crate`.
pub open spec fn crate_rel_path(name: Seq<char>, version: Seq<char>) -> Seq<char> {
    prefix_of(name) + "/"@ + name + "/"@ + version + "/"@ + name + "-"@ + version + ".crate"@
}

fn is_prefix_dir_name(n: &str) -> (r: bool)
    ensures
        r == is_prefix_dir(n@),
{
    let len = n.unicode_len();
    if len == 1 {
        let c = n.get_char(0);
        c == '1' || c == '2' || c == '3'
    } else {
        len == 2
    }
}

/// Tells the layout of an existing crate tree from its top-level directory
/// names.
pub fn detect_layout(dir_names: &Vec<String>) -> (r: CrateLayout)
    ensures
        r == layout_of(texts(dir_names@)),
{
    let mut i: usize = 0;
    while i < dir_names.len()
        invariant
            i <= dir_names.len(),
            forall|j: int| 0 <= j < i ==> is_prefix_dir(#[trigger] texts(dir_names@)[j]),
        decreases dir_names.len() - i,
    {
        if !is_prefix_dir_name(dir_names[i].as_str()) {
            assert(!is_prefix_dir(texts(dir_names@)[i as int]));
            return CrateLayout::Legacy;
        }
        i = i + 1;
    }
    CrateLayout::Current
}

fn prefix_dir(name: &str) -> (r: String)
    requires
        name@.len() > 0,
    ensures
        r@ == prefix_of(name@),
{
    proof {
        reveal_strlit("1");
        reveal_strlit("2");
        reveal_strlit("3/");
    }
    let len = name.unicode_len();
    if len == 1 {
        String::from_str("1")
    } else if len == 2 {
        String::from_str("2")
    } else if len == 3 {
        let mut s = String::from_str("3/");
        s.append(name.substring_char(0, 1));
        s
    } else {
        let mut s = String::from_str(name.substring_char(0, 2));
        s.append("/");
        s.append(name.substring_char(2, 4));
        s
    }
}

/// The path of a crate archive below `crates/`, or `None` for an empty name,
/// which has no place in the tree.
pub fn crate_path(name: &str, version: &str) -> (r: Option<String>)
    ensures
        r is None <==> name@.len() == 0,
        r matches Some(p) ==> p@ == crate_rel_path(name@, version@),
{
    if name.unicode_len() == 0 {
        return None;
    }
    let mut s = prefix_dir(name);
    s.append("/");
    s.append(name);
    s.append("/");
    s.append(version);
    s.append("/");
    s.append(name);
    s.append("-");
    s.append(version);
    s.append(".crate");
    Some(s)
}

} // verus!
