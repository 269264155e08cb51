//! Character-level helpers for the path strings the core works on:
//! whitespace trimming (for marker-file contents), path joining, and the
//! recognized-image-extension rule that drives preview selection.

use vstd::prelude::*;

verus! {

/// The whitespace characters trimmed from marker-file contents.
pub open spec fn is_space_char(c: char) -> bool {
    c == ' ' || c == '\t' || c == '\n' || c == '\r'
}

/// `s` without its leading whitespace.
pub open spec fn trim_front(s: Seq<char>) -> Seq<char>
    decreases s.len(),
{
    if s.len() == 0 {
        s
    } else if is_space_char(s[0]) {
        trim_front(s.drop_first())
    } else {
        s
    }
}

/// `s` without its trailing whitespace.
pub open spec fn trim_back(s: Seq<char>) -> Seq<char>
    decreases s.len(),
{
    if s.len() == 0 {
        s
    } else if is_space_char(s[s.len() - 1]) {
        trim_back(s.drop_last())
    } else {
        s
    }
}

/// `s` without leading and trailing whitespace.
pub open spec fn trimmed(s: Seq<char>) -> Seq<char> {
    trim_back(trim_front(s))
}

/// A string that neither starts nor ends with whitespace trims to itself.
pub proof fn lemma_trimmed_fixed_point(s: Seq<char>)
    requires
        s.len() > 0,
        !is_space_char(s[0]),
        !is_space_char(s[s.len() - 1]),
    ensures
        trimmed(s) == s,
{
    assert(trim_front(s) == s);
    assert(trim_back(s) == s);
}

fn is_space(c: char) -> (b: bool)
    ensures
        b == is_space_char(c),
{
    c == ' ' || c == '\t' || c == '\n' || c == '\r'
}

/// `s` with leading and trailing whitespace removed.
pub fn trim(s: &str) -> (r: String)
    ensures
        r@ == trimmed(s@),
{
    let n = s.unicode_len();
    proof {
        assert(s@.subrange(0, n as int) =~= s@);
    }
    let mut lo: usize = 0;
    while lo < n && is_space(s.get_char(lo))
        invariant
            lo <= n,
            n == s@.len(),
            trim_front(s@) == trim_front(s@.subrange(lo as int, n as int)),
        decreases n - lo,
    {
        proof {
            assert(s@.subrange(lo as int, n as int).drop_first() =~= s@.subrange(
                lo as int + 1,
                n as int,
            ));
        }
        lo = lo + 1;
    }
    proof {
        if lo == n {
            assert(s@.subrange(lo as int, n as int) =~= Seq::<char>::empty());
        }
        assert(trim_front(s@) == s@.subrange(lo as int, n as int));
    }
    let mut hi: usize = n;
    while hi > lo && is_space(s.get_char(hi - 1))
        invariant
            lo <= hi <= n,
            n == s@.len(),
            trim_front(s@) == s@.subrange(lo as int, n as int),
            trim_back(s@.subrange(lo as int, n as int)) == trim_back(
                s@.subrange(lo as int, hi as int),
            ),
        decreases hi,
    {
        proof {
            assert(s@.subrange(lo as int, hi as int).drop_last() =~= s@.subrange(
                lo as int,
                hi as int - 1,
            ));
        }
        hi = hi - 1;
    }
    proof {
        if hi == lo {
            assert(s@.subrange(lo as int, hi as int) =~= Seq::<char>::empty());
        }
        assert(trimmed(s@) == s@.subrange(lo as int, hi as int));
    }
    let piece = s.substring_char(lo, hi);
    piece.to_owned()
}

/// `dir` and `name` joined with a single `/` separator: the separator is
/// inserted unless `dir` is empty or already ends with one.
pub open spec fn joined_path(dir: Seq<char>, name: Seq<char>) -> Seq<char> {
    if dir.len() == 0 {
        name
    } else if dir[dir.len() - 1] == '/' {
        dir + name
    } else {
        dir + seq!['/'] + name
    }
}

/// Joins a directory and a file name into one path string.
pub fn join_path(dir: &str, name: &str) -> (r: String)
    ensures
        r@ == joined_path(dir@, name@),
{
    let n = dir.unicode_len();
    if n == 0 {
        name.to_owned()
    } else if dir.get_char(n - 1) == '/' {
        let mut out = dir.to_owned();
        out.append(name);
        out
    } else {
        let mut out = dir.to_owned();
        out.append("/");
        out.append(name);
        proof {
            reveal_strlit("/");
            assert(out@ =~= dir@ + seq!['/'] + name@);
        }
        out
    }
}

/// `d` marks the extension of `name`: the character at `d` is the last `.`
/// of the final path component, it is not the component's first character,
/// and everything after it is the extension.
pub open spec fn is_ext_split(name: Seq<char>, d: int) -> bool {
    &&& 1 <= d < name.len()
    &&& name[d] == '.'
    &&& name[d - 1] != '/'
    &&& forall|j: int| d < j < name.len() ==> name[j] != '.' && name[j] != '/'
}

/// The recognized image extensions, compared without regard to ASCII case:
/// `png`, `jpg`, `jpeg`.
pub open spec fn is_image_ext(e: Seq<char>) -> bool {
    ||| (e.len() == 3 && (e[0] == 'p' || e[0] == 'P') && (e[1] == 'n' || e[1] == 'N') && (e[2]
        == 'g' || e[2] == 'G'))
    ||| (e.len() == 3 && (e[0] == 'j' || e[0] == 'J') && (e[1] == 'p' || e[1] == 'P') && (e[2]
        == 'g' || e[2] == 'G'))
    ||| (e.len() == 4 && (e[0] == 'j' || e[0] == 'J') && (e[1] == 'p' || e[1] == 'P') && (e[2]
        == 'e' || e[2] == 'E') && (e[3] == 'g' || e[3] == 'G'))
}

/// The path names a file with a recognized image extension.
pub open spec fn is_image_name(name: Seq<char>) -> bool {
    exists|d: int| is_ext_split(name, d) && is_image_ext(name.subrange(d + 1, name.len() as int))
}

proof fn lemma_ext_split_unique(name: Seq<char>, d1: int, d2: int)
    requires
        is_ext_split(name, d1),
        is_ext_split(name, d2),
    ensures
        d1 == d2,
{
    if d1 < d2 {
        assert(name[d2] != '.');
    }
    if d2 < d1 {
        assert(name[d1] != '.');
    }
}

/// Decides whether `name` carries a recognized image extension.
pub fn check_image_name(name: &str) -> (b: bool)
    ensures
        b == is_image_name(name@),
{
    let n = name.unicode_len();
    let mut i: usize = n;
    loop
        invariant
            i <= n,
            n == name@.len(),
            forall|j: int| i <= j < n ==> name@[j] != '.' && name@[j] != '/',
        decreases i,
    {
        if i == 0 {
            proof {
                assert forall|d: int| !is_ext_split(name@, d) by {
                    if 1 <= d < n {
                        assert(name@[d] != '.');
                    }
                }
            }
            return false;
        }
        let c = name.get_char(i - 1);
        if c == '/' {
            proof {
                assert forall|d: int| !is_ext_split(name@, d) by {
                    if is_ext_split(name@, d) {
                        if d < i - 1 {
                            assert(name@[i - 1] != '/');
                        } else if d == i - 1 {
                            assert(name@[d] == '.');
                        } else {
                            assert(name@[d] != '.');
                        }
                    }
                }
            }
            return false;
        }
        if c == '.' {
            let d = i - 1;
            if d == 0 {
                proof {
                    assert forall|dd: int| !is_ext_split(name@, dd) by {
                        if 1 <= dd < n {
                            assert(name@[dd] != '.');
                        }
                    }
                }
                return false;
            }
            let prev = name.get_char(d - 1);
            if prev == '/' {
                proof {
                    assert forall|dd: int| !is_ext_split(name@, dd) by {
                        if is_ext_split(name@, dd) {
                            if dd < d {
                                assert(name@[d as int] != '.');
                            } else if dd > d {
                                assert(name@[dd] != '.');
                            }
                        }
                    }
                }
                return false;
            }
            let ghost ext = name@.subrange(d as int + 1, n as int);
            proof {
                assert(is_ext_split(name@, d as int));
                assert(ext.len() == n - d - 1);
            }
            let elen = n - d - 1;
            let matched: bool = if elen == 3 {
                let e0 = name.get_char(d + 1);
                let e1 = name.get_char(d + 2);
                let e2 = name.get_char(d + 3);
                proof {
                    assert(ext[0] == name@[d as int + 1]);
                    assert(ext[1] == name@[d as int + 2]);
                    assert(ext[2] == name@[d as int + 3]);
                }
                ((e0 == 'p' || e0 == 'P') && (e1 == 'n' || e1 == 'N') && (e2 == 'g' || e2 == 'G'))
                    || ((e0 == 'j' || e0 == 'J') && (e1 == 'p' || e1 == 'P') && (e2 == 'g' || e2
                    == 'G'))
            } else if elen == 4 {
                let e0 = name.get_char(d + 1);
                let e1 = name.get_char(d + 2);
                let e2 = name.get_char(d + 3);
                let e3 = name.get_char(d + 4);
                proof {
                    assert(ext[0] == name@[d as int + 1]);
                    assert(ext[1] == name@[d as int + 2]);
                    assert(ext[2] == name@[d as int + 3]);
                    assert(ext[3] == name@[d as int + 4]);
                }
                (e0 == 'j' || e0 == 'J') && (e1 == 'p' || e1 == 'P') && (e2 == 'e' || e2 == 'E')
                    && (e3 == 'g' || e3 == 'G')
            } else {
                false
            };
            proof {
                assert(matched == is_image_ext(ext));
                if matched {
                    assert(is_image_name(name@));
                } else {
                    assert forall|dd: int|
                        !(is_ext_split(name@, dd) && is_image_ext(
                            name@.subrange(dd + 1, name@.len() as int),
                        )) by {
                        if is_ext_split(name@, dd) {
                            lemma_ext_split_unique(name@, dd, d as int);
                        }
                    }
                    assert(!is_image_name(name@));
                }
            }
            return matched;
        }
        proof {
            assert(name@[i - 1] != '.' && name@[i - 1] != '/');
        }
        i = i - 1;
    }
}

} // verus!
