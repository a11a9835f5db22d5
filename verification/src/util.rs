use vstd::prelude::*;
use crate::text::seq_split;

verus! {

/// Whether `value` has any of the bits of `flag` set (`value & flag > 0`).
pub open spec fn flag_set(value: u32, flag: u32) -> bool {
    value & flag > 0
}

/// Checks if `value` contains the bits set in `flag`: a shorthand for `value & flag > 0`.
pub fn is_flag_set_u32(value: u32, flag: u32) -> (r: bool)
    ensures
        r == flag_set(value, flag),
{
    value & flag > 0
}

/// The value of a flag that is set when `b` holds.
pub open spec fn bit_if(b: bool, flag: u32) -> u32 {
    if b {
        flag
    } else {
        0
    }
}

/// Flags built from two conditions can be read back.
pub proof fn lemma_flags2(r: u32, a: bool, b: bool)
    requires
        r == bit_if(a, 1) + bit_if(b, 2),
    ensures
        flag_set(r, 1) == a,
        flag_set(r, 2) == b,
{
    let x: u32 = bit_if(a, 1);
    let y: u32 = bit_if(b, 2);
    assert(x == 0 || x == 1);
    assert(y == 0 || y == 2);
    assert(r & 1 > 0 <==> x == 1) by (bit_vector)
        requires
            r == x + y,
            x == 0 || x == 1,
            y == 0 || y == 2,
    ;
    assert(r & 2 > 0 <==> y == 2) by (bit_vector)
        requires
            r == x + y,
            x == 0 || x == 1,
            y == 0 || y == 2,
    ;
}

/// Flags built from three conditions can be read back.
pub proof fn lemma_flags3(r: u32, a: bool, b: bool, c: bool)
    requires
        r == bit_if(a, 1) + bit_if(b, 2) + bit_if(c, 4),
    ensures
        flag_set(r, 1) == a,
        flag_set(r, 2) == b,
        flag_set(r, 4) == c,
{
    let x: u32 = bit_if(a, 1);
    let y: u32 = bit_if(b, 2);
    let z: u32 = bit_if(c, 4);
    assert(r & 1 > 0 <==> x == 1) by (bit_vector)
        requires
            r == x + y + z,
            x == 0 || x == 1,
            y == 0 || y == 2,
            z == 0 || z == 4,
    ;
    assert(r & 2 > 0 <==> y == 2) by (bit_vector)
        requires
            r == x + y + z,
            x == 0 || x == 1,
            y == 0 || y == 2,
            z == 0 || z == 4,
    ;
    assert(r & 4 > 0 <==> z == 4) by (bit_vector)
        requires
            r == x + y + z,
            x == 0 || x == 1,
            y == 0 || y == 2,
            z == 0 || z == 4,
    ;
}

/// Flags built from six conditions can be read back.
pub proof fn lemma_flags6(r: u32, a: bool, b: bool, c: bool, d: bool, e: bool, f: bool)
    requires
        r == bit_if(a, 1) + bit_if(b, 2) + bit_if(c, 4) + bit_if(d, 8) + bit_if(e, 16) + bit_if(f, 32),
    ensures
        flag_set(r, 1) == a,
        flag_set(r, 2) == b,
        flag_set(r, 4) == c,
        flag_set(r, 8) == d,
        flag_set(r, 16) == e,
        flag_set(r, 32) == f,
{
    let x: u32 = bit_if(a, 1);
    let y: u32 = bit_if(b, 2);
    let z: u32 = bit_if(c, 4);
    let w: u32 = bit_if(d, 8);
    let u: u32 = bit_if(e, 16);
    let v: u32 = bit_if(f, 32);
    assert(r & 1 > 0 <==> x == 1) by (bit_vector)
        requires
            x == 0 || x == 1,
            y == 0 || y == 2,
            z == 0 || z == 4,
            w == 0 || w == 8,
            u == 0 || u == 16,
            v == 0 || v == 32,
            r == x + y + z + w + u + v,
    ;
    assert(r & 2 > 0 <==> y == 2) by (bit_vector)
        requires
            x == 0 || x == 1,
            y == 0 || y == 2,
            z == 0 || z == 4,
            w == 0 || w == 8,
            u == 0 || u == 16,
            v == 0 || v == 32,
            r == x + y + z + w + u + v,
    ;
    assert(r & 4 > 0 <==> z == 4) by (bit_vector)
        requires
            x == 0 || x == 1,
            y == 0 || y == 2,
            z == 0 || z == 4,
            w == 0 || w == 8,
            u == 0 || u == 16,
            v == 0 || v == 32,
            r == x + y + z + w + u + v,
    ;
    assert(r & 8 > 0 <==> w == 8) by (bit_vector)
        requires
            x == 0 || x == 1,
            y == 0 || y == 2,
            z == 0 || z == 4,
            w == 0 || w == 8,
            u == 0 || u == 16,
            v == 0 || v == 32,
            r == x + y + z + w + u + v,
    ;
    assert(r & 16 > 0 <==> u == 16) by (bit_vector)
        requires
            x == 0 || x == 1,
            y == 0 || y == 2,
            z == 0 || z == 4,
            w == 0 || w == 8,
            u == 0 || u == 16,
            v == 0 || v == 32,
            r == x + y + z + w + u + v,
    ;
    assert(r & 32 > 0 <==> v == 32) by (bit_vector)
        requires
            x == 0 || x == 1,
            y == 0 || y == 2,
            z == 0 || z == 4,
            w == 0 || w == 8,
            u == 0 || u == 16,
            v == 0 || v == 32,
            r == x + y + z + w + u + v,
    ;
}

/// The first of `paths` that exists, where `exists[i]` says whether `paths[i]` does; `None`
/// when none of them does.
pub fn find_first_path_exists(paths: Vec<String>, exists: Vec<bool>) -> (r: Option<String>)
    requires
        paths@.len() == exists@.len(),
    ensures
        r is None <==> forall|i: int| 0 <= i < exists@.len() ==> !exists@[i],
        r matches Some(p) ==> exists|i: int|
            0 <= i < exists@.len() && exists@[i] && paths@[i] == p && forall|j: int|
                0 <= j < i ==> !exists@[j],
{
    let mut i: usize = 0;
    while i < paths.len()
        invariant
            paths@.len() == exists@.len(),
            0 <= i <= paths@.len(),
            forall|j: int| 0 <= j < i ==> !exists@[j],
        decreases paths@.len() - i,
    {
        if exists[i] {
            let p = paths[i].clone();
            assert(p == paths@[i as int]);
            return Some(p);
        }
        i += 1;
    }
    None
}

/// Owned-path form of `find_first_path_exists`: the first of `paths` that exists.
pub fn find_first_pathbuf_exists(paths: Vec<String>, exists: Vec<bool>) -> (r: Option<String>)
    requires
        paths@.len() == exists@.len(),
    ensures
        r is None <==> forall|i: int| 0 <= i < exists@.len() ==> !exists@[i],
        r matches Some(p) ==> exists|i: int|
            0 <= i < exists@.len() && exists@[i] && paths@[i] == p && forall|j: int|
                0 <= j < i ==> !exists@[j],
{
    find_first_path_exists(paths, exists)
}

/// The last `/`-separated piece of a path: the file's name.
pub open spec fn path_file_name(path: Seq<char>) -> Seq<char> {
    seq_split(path, '/').last()
}

/// A file name that names a file of its own: not empty, and neither `.` nor `..`.
pub open spec fn plain_file_name(n: Seq<char>) -> bool {
    n.len() > 0 && n != "."@ && n != ".."@
}

/// What `which` may answer for `name`: a path found ends with the file name that `name` ends
/// with, when that is a plain file name.
pub open spec fn which_answer(name: Seq<char>, r: Result<String, String>) -> bool {
    r matches Ok(p) ==> (plain_file_name(path_file_name(name)) ==> path_file_name(p@) == path_file_name(name))
}

/// Trusted: which's `which`, which looks `name` up in the directories of `$PATH` (or takes it
/// as a path, made absolute from the current directory), and gives the executable's path as
/// text or the error's message. As its source shows, a path found is a directory joined with
/// `name` (or `name` itself), so it ends with `name`'s file name. Which directory, and whether
/// anything is found, depends on the environment and the file system and is not stated.
#[verifier::external_body]
pub(crate) fn which_path(name: &str) -> (r: Result<String, String>)
    ensures
        which_answer(name@, r),
{
    match which::which(name) {
        Ok(p) => Ok(p.display().to_string()),
        Err(e) => Err(e.to_string()),
    }
}

} // verus!
