//! File names and extensions of `/`-separated paths.
use vstd::prelude::*;
use vstd::string::*;
use crate::media::{ascii_lower, lower_char};
use crate::text::{chars_eq_str, chars_of, push_char, is_char, split_by, split_chars, string_of, views};

verus! {

/// The last component among `pieces` that is neither empty nor `.`, unless it is `..`.
pub open spec fn last_name(pieces: Seq<Seq<char>>) -> Option<Seq<char>>
    decreases pieces.len(),
{
    if pieces.len() == 0 {
        None
    } else {
        let l = pieces.last();
        if l.len() == 0 || l == "."@ {
            last_name(pieces.drop_last())
        } else if l == ".."@ {
            None
        } else {
            Some(l)
        }
    }
}

/// `Path::file_name`: the last normal component of `p`.
pub open spec fn file_name(p: Seq<char>) -> Option<Seq<char>> {
    last_name(split_by(p, is_char('/')))
}

/// The position of the last `.` in `s[..k]`, if any.
pub open spec fn last_dot(s: Seq<char>, k: nat) -> Option<nat>
    decreases k,
{
    if k == 0 || k > s.len() {
        None
    } else if s[k - 1] == '.' {
        Some((k - 1) as nat)
    } else {
        last_dot(s, (k - 1) as nat)
    }
}

/// The extension of a file name: what follows its last `.`, unless that dot starts the name.
pub open spec fn name_extension(n: Seq<char>) -> Option<Seq<char>> {
    match last_dot(n, n.len()) {
        Some(k) => if k == 0 {
            None
        } else {
            Some(n.skip(k + 1 as int))
        },
        None => None,
    }
}

/// `Path::extension`.
pub open spec fn path_extension(p: Seq<char>) -> Option<Seq<char>> {
    match file_name(p) {
        Some(n) => name_extension(n),
        None => None,
    }
}

/// `str::to_ascii_lowercase`.
pub open spec fn lowercase(s: Seq<char>) -> Seq<char> {
    s.map_values(|c: char| ascii_lower(c))
}

/// The last normal component of `path`.
pub fn file_name_of(path: &str) -> (r: Option<String>)
    ensures
        r matches Some(n) ==> file_name(path@) == Some(n@),
        r is None ==> file_name(path@) is None,
{
    let chars = chars_of(path);
    let pieces = split_chars(chars.as_slice(), '/');
    let ghost all = views(pieces@);
    let mut k: usize = pieces.len();
    assert(all.take(k as int) =~= all);
    while k > 0
        invariant
            all == views(pieces@),
            k <= pieces@.len(),
            file_name(path@) == last_name(all.take(k as int)),
        decreases k,
    {
        let piece = &pieces[k - 1];
        proof {
            assert(all.take(k as int).last() == piece@);
            assert(all.take(k as int).drop_last() =~= all.take(k - 1));
        }
        if piece.len() == 0 || chars_eq_str(piece.as_slice(), ".") {
            k -= 1;
        } else if chars_eq_str(piece.as_slice(), "..") {
            return None;
        } else {
            return Some(string_of(piece.as_slice()));
        }
    }
    None
}

/// The extension of the file name `n`.
pub fn extension_of_name(n: &str) -> (r: Option<String>)
    ensures
        r matches Some(e) ==> name_extension(n@) == Some(e@),
        r is None ==> name_extension(n@) is None,
{
    let chars = chars_of(n);
    let mut k: usize = chars.len();
    while k > 0
        invariant
            chars@ == n@,
            k <= chars@.len(),
            last_dot(n@, n@.len()) == last_dot(n@, k as nat),
        decreases k,
    {
        if chars[k - 1] == '.' {
            if k - 1 == 0 {
                return None;
            }
            let mut out = String::new();
            let mut i: usize = k;
            while i < chars.len()
                invariant
                    chars@ == n@,
                    k <= i <= chars@.len(),
                    out@ == n@.subrange(k as int, i as int),
                decreases chars@.len() - i,
            {
                push_char(&mut out, chars[i]);
                assert(out@ =~= n@.subrange(k as int, i + 1));
                i += 1;
            }
            assert(n@.skip(k as int) =~= n@.subrange(k as int, n@.len() as int));
            return Some(out);
        }
        k -= 1;
    }
    None
}

/// `Path::extension` of `path`.
pub fn extension_of(path: &str) -> (r: Option<String>)
    ensures
        r matches Some(e) ==> path_extension(path@) == Some(e@),
        r is None ==> path_extension(path@) is None,
{
    match file_name_of(path) {
        Some(n) => extension_of_name(n.as_str()),
        None => None,
    }
}

/// `str::to_ascii_lowercase`.
pub fn to_lowercase(s: &str) -> (r: String)
    ensures
        r@ == lowercase(s@),
{
    let chars = chars_of(s);
    let mut out = String::new();
    let mut i: usize = 0;
    while i < chars.len()
        invariant
            chars@ == s@,
            i <= chars@.len(),
            out@ == lowercase(s@).take(i as int),
        decreases chars@.len() - i,
    {
        push_char(&mut out, lower_char(chars[i]));
        assert(out@ =~= lowercase(s@).take(i + 1));
        i += 1;
    }
    assert(lowercase(s@).take(chars@.len() as int) =~= lowercase(s@));
    out
}

} // verus!
