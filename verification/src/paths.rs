//! Joining path components and recognising recorded clip files, in the
//! POSIX path form of the platforms the recorder runs on (macOS, Linux).

use vstd::prelude::*;
use crate::text::{chars_of, ends_with, push_char, push_chars, string_of};

verus! {

/// `base` joined with `part` as `Path::join` does on POSIX systems: an
/// absolute `part` replaces `base`; otherwise a `/` separates the two unless
/// `base` is empty or already ends in one.
pub open spec fn path_join(base: Seq<char>, part: Seq<char>) -> Seq<char> {
    if part.len() > 0 && part[0] == '/' {
        part
    } else if base.len() == 0 || base.last() == '/' {
        base + part
    } else {
        base + seq!['/'] + part
    }
}

/// `base` joined with `part`.
pub fn join_path(base: &str, part: &str) -> (r: String)
    ensures
        r@ == path_join(base@, part@),
{
    let b = chars_of(base);
    let p = chars_of(part);
    if p.len() > 0 && p[0] == '/' {
        return string_of(&p);
    }
    let mut r = string_of(&b);
    if b.len() > 0 && b[b.len() - 1] != '/' {
        push_char(&mut r, '/');
    }
    push_chars(&mut r, &p);
    r
}

/// Whether a file name has the extension `mp4` in the sense of
/// `Path::extension`: a final `.mp4` that is not the whole name.
pub open spec fn is_mp4_name(name: Seq<char>) -> bool {
    name.len() > 4 && ends_with(name, seq!['.', 'm', 'p', '4'])
}

/// Whether `name` names a recorded clip (`*.mp4`).
pub fn has_mp4_extension(name: &str) -> (r: bool)
    ensures
        r == is_mp4_name(name@),
{
    let v = chars_of(name);
    let n = v.len();
    if n <= 4 {
        return false;
    }
    let r = v[n - 4] == '.' && v[n - 3] == 'm' && v[n - 2] == 'p' && v[n - 1] == '4';
    proof {
        let tail = v@.skip(n - 4);
        if r {
            assert(tail =~= seq!['.', 'm', 'p', '4']);
        } else {
            if tail == seq!['.', 'm', 'p', '4'] {
                assert(tail[0] == v@[n - 4]);
                assert(tail[1] == v@[n - 3]);
                assert(tail[2] == v@[n - 2]);
                assert(tail[3] == v@[n - 1]);
            }
        }
    }
    r
}

/// Joining keeps the part at the end. An absolute part is the whole
/// result; a relative part follows the base, separated by exactly one `/`
/// that is added only when the base is non-empty and does not already end
/// in `/`.
pub proof fn path_join_appends_part(base: Seq<char>, part: Seq<char>)
    ensures
        ({
            let r = path_join(base, part);
            let sep: int = if base.len() > 0 && base.last() != '/' { 1 } else { 0 };
            &&& r.len() >= part.len()
            &&& r.skip(r.len() - part.len()) == part
            &&& (part.len() > 0 && part[0] == '/' ==> r == part)
            &&& (!(part.len() > 0 && part[0] == '/') ==> {
                &&& r.len() == base.len() + sep + part.len()
                &&& r.take(base.len() as int) == base
                &&& (sep == 1 ==> r[base.len() as int] == '/')
            })
        }),
{
    let r = path_join(base, part);
    if part.len() > 0 && part[0] == '/' {
        assert(r.skip(0) =~= part);
    } else if base.len() == 0 || base.last() == '/' {
        assert(r.skip(r.len() - part.len()) =~= part);
        assert(r.take(base.len() as int) =~= base);
    } else {
        assert(r.skip(r.len() - part.len()) =~= part);
        assert(r.take(base.len() as int) =~= base);
    }
}

/// A name counts as a clip exactly when it is longer than four characters
/// and its last four are `.`, `m`, `p`, `4`.
pub proof fn mp4_names_end_in_dot_mp4(name: Seq<char>)
    ensures
        is_mp4_name(name) <==> (name.len() >= 5 && name[name.len() - 4] == '.' && name[name.len() - 3]
            == 'm' && name[name.len() - 2] == 'p' && name[name.len() - 1] == '4'),
{
    if name.len() >= 5 {
        let t = name.skip(name.len() - 4);
        assert(t[0] == name[name.len() - 4]);
        assert(t[1] == name[name.len() - 3]);
        assert(t[2] == name[name.len() - 2]);
        assert(t[3] == name[name.len() - 1]);
        if name[name.len() - 4] == '.' && name[name.len() - 3] == 'm' && name[name.len() - 2] == 'p'
            && name[name.len() - 1] == '4' {
            assert(t =~= seq!['.', 'm', 'p', '4']);
        }
    }
}

} // verus!
