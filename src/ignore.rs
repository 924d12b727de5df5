use vstd::prelude::*;
use crate::text::{contains_view, list_contains, split_at_char, split_on, views};

verus! {

/// The ignore list written when a repository is created.
pub const DEFAULT_IGNORE: &'static str = "target\n.mvc\nfoo.tar\n.mvcignore";

/// Reads the text of an ignore file as its list of segments, one per line,
/// compared verbatim later on.
pub fn parse_ignore_list(content: &str) -> (r: Vec<String>)
    ensures
        views(r@) == split_on(content@, '\n'),
{
    split_at_char(content, '\n')
}

/// Whether a root-level entry name is kept in an archive: it is unless the
/// ignore list holds the name itself.
pub fn include_root_entry(name: &str, ignore_list: &Vec<String>) -> (r: bool)
    ensures
        r == !contains_view(ignore_list@, name@),
{
    !list_contains(ignore_list, name)
}

pub open spec fn is_absolute(p: Seq<char>) -> bool {
    p.len() > 0 && p[0] == '/'
}

/// An ancestor of a path stops everything below it when it is the current
/// directory or is listed.
pub open spec fn blocks(a: Seq<char>, ignore_list: Seq<String>) -> bool {
    a == seq!['.'] || contains_view(ignore_list, a)
}

/// The ancestors of a relative path are the path itself, each prefix that
/// ends right before a `/`, and the empty path.
pub open spec fn is_ancestor(a: Seq<char>, p: Seq<char>) -> bool {
    a == p || a.len() == 0 || (a.len() < p.len() && p[a.len() as int] == '/' && a == p.take(
        a.len() as int,
    ))
}

/// A path is ignored when it is absolute, or when one of its ancestors blocks.
pub open spec fn ignored(p: Seq<char>, ignore_list: Seq<String>) -> bool {
    is_absolute(p) || exists|a: Seq<char>| is_ancestor(a, p) && #[trigger] blocks(a, ignore_list)
}

fn blocks_exec(a: &str, ignore_list: &Vec<String>) -> (r: bool)
    ensures
        r == blocks(a@, ignore_list@),
{
    let dot = a.unicode_len() == 1 && a.get_char(0) == '.';
    if dot {
        assert(a@ =~= seq!['.']);
    }
    dot || list_contains(ignore_list, a)
}

/// Whether `path`, relative to the working-tree root with `/` between its
/// components, is left alone by snapshots and by the cleaner.
pub fn should_ignore(path: &str, ignore_list: &Vec<String>) -> (r: bool)
    ensures
        r == ignored(path@, ignore_list@),
{
    let n = path.unicode_len();
    if n > 0 && path.get_char(0) == '/' {
        return true;
    }
    if blocks_exec(path, ignore_list) {
        assert(is_ancestor(path@, path@));
        return true;
    }
    proof {
        reveal_strlit("");
    }
    if blocks_exec("", ignore_list) {
        assert(is_ancestor(""@, path@));
        return true;
    }
    let mut k: usize = 0;
    while k < n
        invariant
            n == path@.len(),
            k <= n,
            forall|j: int|
                0 <= j < k && path@[j] == '/' ==> !blocks(#[trigger] path@.take(j), ignore_list@),
        decreases n - k,
    {
        if path.get_char(k) == '/' {
            let prefix = path.substring_char(0, k);
            assert(prefix@ =~= path@.take(k as int));
            if blocks_exec(prefix, ignore_list) {
                assert(is_ancestor(prefix@, path@));
                return true;
            }
        }
        k = k + 1;
    }
    assert forall|a: Seq<char>| is_ancestor(a, path@) implies !#[trigger] blocks(
        a,
        ignore_list@,
    ) by {
        if a != path@ && a.len() != 0 {
            assert(path@[a.len() as int] == '/');
            assert(a == path@.take(a.len() as int));
        } else if a.len() == 0 {
            assert(a =~= ""@);
        }
    }
    false
}

/// A listed directory is left out of archives, and neither it nor anything
/// below it is ever removed by the cleaner.
pub proof fn lemma_listed_directory_kept(ignore_list: Seq<String>, dir: Seq<char>, below: Seq<char>)
    requires
        contains_view(ignore_list, dir),
    ensures
        ignored(dir, ignore_list),
        ignored(dir + seq!['/'] + below, ignore_list),
{
    assert(is_ancestor(dir, dir));
    assert(blocks(dir, ignore_list));
    let p = dir + seq!['/'] + below;
    if !is_absolute(p) {
        assert(p[dir.len() as int] == '/');
        assert(p.take(dir.len() as int) =~= dir);
        assert(is_ancestor(dir, p));
    }
}

/// Whether `q` lies strictly below the directory `p`.
pub open spec fn lies_below(q: Seq<char>, p: Seq<char>) -> bool {
    q.len() > p.len() && q.take(p.len() as int) == p && q[p.len() as int] == '/'
}

/// Whether the cleaner removes entry `i` of a walk: it is not ignored, and
/// if it is a directory, nothing ignored lies below it.
pub open spec fn removable(paths: Seq<String>, dirs: Seq<bool>, i: int, ignore_list: Seq<String>) -> bool {
    !ignored(paths[i]@, ignore_list) && (dirs[i] ==> forall|j: int|
        0 <= j < paths.len() && lies_below(#[trigger] paths[j]@, paths[i]@) ==> !ignored(
            paths[j]@,
            ignore_list,
        ))
}

fn lies_below_exec(q: &str, p: &str) -> (r: bool)
    ensures
        r == lies_below(q@, p@),
{
    let n = p.unicode_len();
    if q.unicode_len() <= n {
        return false;
    }
    let mut i: usize = 0;
    while i < n
        invariant
            n == p@.len(),
            n < q@.len(),
            i <= n,
            forall|k: int| 0 <= k < i ==> q@[k] == p@[k],
        decreases n - i,
    {
        if q.get_char(i) != p.get_char(i) {
            assert(q@.take(n as int)[i as int] != p@[i as int]);
            return false;
        }
        i = i + 1;
    }
    assert(q@.take(n as int) =~= p@);
    q.get_char(n) == '/'
}

/// For the entries met while walking the tree (with whether each is a
/// directory), which ones the cleaner removes.
pub fn removal_flags(paths: &Vec<String>, dirs: &Vec<bool>, ignore_list: &Vec<String>) -> (r: Vec<bool>)
    requires
        dirs@.len() == paths@.len(),
    ensures
        r@.len() == paths@.len(),
        forall|i: int| 0 <= i < paths@.len() ==> r@[i] == removable(paths@, dirs@, i, ignore_list@),
{
    let n = paths.len();
    let mut kept: Vec<bool> = Vec::new();
    let mut i: usize = 0;
    while i < n
        invariant
            n == paths@.len(),
            i <= n,
            kept@.len() == i,
            forall|j: int| 0 <= j < i ==> kept@[j] == ignored(#[trigger] paths@[j]@, ignore_list@),
        decreases n - i,
    {
        kept.push(should_ignore(paths[i].as_str(), ignore_list));
        i = i + 1;
    }
    let mut r: Vec<bool> = Vec::new();
    i = 0;
    while i < n
        invariant
            n == paths@.len(),
            n == dirs@.len(),
            kept@.len() == n,
            forall|j: int| 0 <= j < n ==> kept@[j] == ignored(#[trigger] paths@[j]@, ignore_list@),
            i <= n,
            r@.len() == i,
            forall|j: int| 0 <= j < i ==> r@[j] == removable(paths@, dirs@, j, ignore_list@),
        decreases n - i,
    {
        let mut remove = !kept[i];
        if remove && dirs[i] {
            let mut j: usize = 0;
            while j < n
                invariant
                    n == paths@.len(),
                    kept@.len() == n,
                    forall|k: int| 0 <= k < n ==> kept@[k] == ignored(#[trigger] paths@[k]@, ignore_list@),
                    i < n,
                    j <= n,
                    remove == (forall|k: int|
                        0 <= k < j && lies_below(#[trigger] paths@[k]@, paths@[i as int]@) ==> !ignored(
                            paths@[k]@,
                            ignore_list@,
                        )),
                decreases n - j,
            {
                if remove && kept[j] && lies_below_exec(paths[j].as_str(), paths[i].as_str()) {
                    remove = false;
                }
                j = j + 1;
            }
        }
        assert(remove == removable(paths@, dirs@, i as int, ignore_list@));
        r.push(remove);
        i = i + 1;
    }
    r
}

/// The cleaner marks neither a listed directory nor anything below it for
/// removal.
pub proof fn lemma_listed_directory_never_removed(
    paths: Seq<String>,
    dirs: Seq<bool>,
    ignore_list: Seq<String>,
    dir: Seq<char>,
)
    requires
        contains_view(ignore_list, dir),
    ensures
        forall|i: int|
            0 <= i < paths.len() && (paths[i]@ == dir || lies_below(paths[i]@, dir)) ==> !removable(
                paths,
                dirs,
                i,
                ignore_list,
            ),
{
    assert forall|i: int|
        0 <= i < paths.len() && (paths[i]@ == dir || lies_below(paths[i]@, dir)) implies !removable(
        paths,
        dirs,
        i,
        ignore_list,
    ) by {
        let q = paths[i]@;
        if q == dir {
            lemma_listed_directory_kept(ignore_list, dir, Seq::empty());
        } else {
            let below = q.skip(dir.len() + 1 as int);
            assert(q =~= dir + seq!['/'] + below);
            lemma_listed_directory_kept(ignore_list, dir, below);
        }
    }
}

} // verus!
