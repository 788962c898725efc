//! Small string helpers shared by the modules of the crate.

use vstd::prelude::*;

verus! {

/// `String::push` appends one character to the end of the string.
pub assume_specification[ String::push ](s: &mut String, ch: char)
    ensures
        final(s)@ == old(s)@.push(ch),
;

/// The characters of `s`, in order.
pub fn chars_of(s: &str) -> (v: Vec<char>)
    ensures
        v@ == s@,
{
    let mut v: Vec<char> = Vec::new();
    for c in it: s.chars()
        invariant
            it.seq() == s@,
            v@ == it.seq().take(it.index() as int),
    {
        v.push(c);
    }
    v
}

/// Whether `s` ends with `suffix`, character by character.
pub fn ends_with(s: &str, suffix: &str) -> (b: bool)
    ensures
        b == suffix@.is_suffix_of(s@),
{
    let sv = chars_of(s);
    let xv = chars_of(suffix);
    if xv.len() > sv.len() {
        return false;
    }
    let offset = sv.len() - xv.len();
    let mut i: usize = 0;
    while i < xv.len()
        invariant
            sv@ == s@,
            xv@ == suffix@,
            xv.len() <= sv.len(),
            offset == sv.len() - xv.len(),
            i <= xv.len(),
            forall|j: int| 0 <= j < i ==> xv@[j] == sv@[offset + j],
        decreases xv.len() - i,
    {
        if xv[i] != sv[offset + i] {
            return false;
        }
        i = i + 1;
    }
    assert(suffix@ =~= s@.subrange(offset as int, s@.len() as int));
    true
}

/// `path` joined onto `base` the way a Unix `PathBuf::push` does it: an
/// absolute `path` (one that starts with `/`) replaces `base`; otherwise a
/// `/` is put between them unless `base` is empty or already ends with one.
pub open spec fn path_join(base: Seq<char>, path: Seq<char>) -> Seq<char> {
    if path.len() > 0 && path[0] == '/' {
        path
    } else if base.len() == 0 || base.last() == '/' {
        base + path
    } else {
        base + seq!['/'] + path
    }
}

/// Joins `path` onto `base` as [`path_join`] says.
pub fn join_path(base: &str, path: &str) -> (joined: String)
    ensures
        joined@ == path_join(base@, path@),
{
    let p = chars_of(path);
    if p.len() > 0 && p[0] == '/' {
        return String::from_str(path);
    }
    let b = chars_of(base);
    let mut joined = String::from_str(base);
    if b.len() > 0 && b[b.len() - 1] != '/' {
        joined.push('/');
    }
    joined.append(path);
    joined
}

} // verus!
