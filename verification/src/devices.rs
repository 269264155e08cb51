//! Text rules for the best-effort device-mount helpers.
//!
//! The caller runs the platform's device-listing commands; the functions
//! here hold the rules applied to their output: which listed block
//! devices count as unmounted, whether a listing betrays a card reader,
//! and the log lines a mount attempt owes. Running the commands stays
//! outside the library.

use vstd::prelude::*;

verus! {

/// The blank characters that separate fields within a listing line.
pub open spec fn is_blank_char(c: char) -> bool {
    c == ' ' || c == '\t' || c == '\r'
}

/// Every character of `s` is blank.
pub open spec fn all_blank(s: Seq<char>) -> bool {
    forall|i: int| 0 <= i < s.len() ==> is_blank_char(s[i])
}

/// The number of leading blank characters of `s`.
pub open spec fn blank_run(s: Seq<char>) -> nat
    decreases s.len(),
{
    if s.len() == 0 || !is_blank_char(s[0]) {
        0
    } else {
        1 + blank_run(s.drop_first())
    }
}

/// The number of leading non-blank characters of `s`.
pub open spec fn field_run(s: Seq<char>) -> nat
    decreases s.len(),
{
    if s.len() == 0 || is_blank_char(s[0]) {
        0
    } else {
        1 + field_run(s.drop_first())
    }
}

proof fn lemma_blank_run_is(s: Seq<char>, k: int)
    requires
        0 <= k <= s.len(),
        forall|m: int| 0 <= m < k ==> is_blank_char(s[m]),
        k == s.len() || !is_blank_char(s[k]),
    ensures
        blank_run(s) == k,
    decreases k,
{
    if k > 0 {
        assert(forall|m: int| 0 <= m < k - 1 ==> s.drop_first()[m] == s[m + 1]);
        lemma_blank_run_is(s.drop_first(), k - 1);
    }
}

proof fn lemma_field_run_is(s: Seq<char>, k: int)
    requires
        0 <= k <= s.len(),
        forall|m: int| 0 <= m < k ==> !is_blank_char(s[m]),
        k == s.len() || is_blank_char(s[k]),
    ensures
        field_run(s) == k,
    decreases k,
{
    if k > 0 {
        assert(forall|m: int| 0 <= m < k - 1 ==> s.drop_first()[m] == s[m + 1]);
        lemma_field_run_is(s.drop_first(), k - 1);
    }
}

/// The device name a listing line contributes, if any: the line's first
/// field, provided nothing but blanks follows it — a second field is the
/// mount point of an already mounted device.
pub open spec fn device_name_of(line: Seq<char>) -> Option<Seq<char>> {
    let lead = blank_run(line) as int;
    let name_len = field_run(line.subrange(lead, line.len() as int)) as int;
    if name_len == 0 {
        None
    } else if all_blank(line.subrange(lead + name_len, line.len() as int)) {
        Some(line.subrange(lead, lead + name_len))
    } else {
        None
    }
}

fn is_blank(c: char) -> (b: bool)
    ensures
        b == is_blank_char(c),
{
    c == ' ' || c == '\t' || c == '\r'
}

/// Reads one line of a device listing and returns the unmounted device's
/// name, if the line shows one.
pub fn device_line_name(line: &str) -> (r: Option<String>)
    ensures
        r.deep_view() == device_name_of(line@),
{
    let n = line.unicode_len();
    let mut i: usize = 0;
    while i < n && is_blank(line.get_char(i))
        invariant
            i <= n,
            n == line@.len(),
            forall|m: int| 0 <= m < i ==> is_blank_char(line@[m]),
        decreases n - i,
    {
        i = i + 1;
    }
    proof {
        lemma_blank_run_is(line@, i as int);
    }
    let mut j: usize = i;
    while j < n && !is_blank(line.get_char(j))
        invariant
            i <= j <= n,
            n == line@.len(),
            forall|m: int| i <= m < j ==> !is_blank_char(line@[m]),
        decreases n - j,
    {
        j = j + 1;
    }
    proof {
        let tail = line@.subrange(i as int, n as int);
        assert(forall|m: int| 0 <= m < j - i ==> tail[m] == line@[i + m]);
        lemma_field_run_is(tail, j - i);
    }
    if j == i {
        return None;
    }
    let mut k: usize = j;
    while k < n && is_blank(line.get_char(k))
        invariant
            j <= k <= n,
            n == line@.len(),
            forall|m: int| j <= m < k ==> is_blank_char(line@[m]),
        decreases n - k,
    {
        k = k + 1;
    }
    let ghost rest = line@.subrange(j as int, n as int);
    if k < n {
        proof {
            assert(rest[k - j] == line@[k as int]);
            assert(!all_blank(rest));
        }
        None
    } else {
        proof {
            assert(forall|m: int| 0 <= m < rest.len() ==> rest[m] == line@[j + m]);
            assert(all_blank(rest));
        }
        let name = line.substring_char(i, j);
        Some(name.to_owned())
    }
}

/// The index of the first line break of `s`, or its length when there is
/// none.
pub open spec fn first_nl(s: Seq<char>) -> nat
    decreases s.len(),
{
    if s.len() == 0 || s[0] == '\n' {
        0
    } else {
        1 + first_nl(s.drop_first())
    }
}

proof fn lemma_first_nl_le(s: Seq<char>)
    ensures
        first_nl(s) <= s.len(),
    decreases s.len(),
{
    if s.len() > 0 && s[0] != '\n' {
        lemma_first_nl_le(s.drop_first());
    }
}

proof fn lemma_first_nl_is(s: Seq<char>, k: int)
    requires
        0 <= k <= s.len(),
        forall|m: int| 0 <= m < k ==> s[m] != '\n',
        k == s.len() || s[k] == '\n',
    ensures
        first_nl(s) == k,
    decreases k,
{
    if k > 0 {
        assert(forall|m: int| 0 <= m < k - 1 ==> s.drop_first()[m] == s[m + 1]);
        lemma_first_nl_is(s.drop_first(), k - 1);
    }
}

/// The unmounted device names a whole listing contributes: one entry per
/// line that names a device without a mount point, in order. Lines are
/// separated by `\n`.
pub open spec fn unmounted_names_of(text: Seq<char>) -> Seq<Seq<char>>
    decreases text.len(),
    via unmounted_names_of_decreases
{
    if text.len() == 0 {
        Seq::<Seq<char>>::empty()
    } else {
        let k = first_nl(text) as int;
        let head = match device_name_of(text.subrange(0, k)) {
            Some(name) => seq![name],
            None => Seq::<Seq<char>>::empty(),
        };
        if k == text.len() {
            head
        } else {
            head + unmounted_names_of(text.subrange(k + 1, text.len() as int))
        }
    }
}

#[via_fn]
proof fn unmounted_names_of_decreases(text: Seq<char>) {
    lemma_first_nl_le(text);
}

/// Collects the unmounted device names of a listing, line by line.
pub fn unmounted_device_names(text: &str) -> (r: Vec<String>)
    ensures
        r.deep_view() == unmounted_names_of(text@),
{
    let n = text.unicode_len();
    let mut out: Vec<String> = Vec::new();
    let mut p: usize = 0;
    let mut done = n == 0;
    proof {
        assert(out.deep_view() =~= Seq::<Seq<char>>::empty());
        assert(text@.subrange(0, n as int) =~= text@);
        if n == 0 {
            assert(out.deep_view() + Seq::<Seq<char>>::empty() =~= Seq::<Seq<char>>::empty());
        } else {
            assert(out.deep_view() + unmounted_names_of(text@) =~= unmounted_names_of(text@));
        }
    }
    while !done
        invariant
            p <= n,
            n == text@.len(),
            done ==> p == n,
            out.deep_view() + (if done {
                Seq::<Seq<char>>::empty()
            } else {
                unmounted_names_of(text@.subrange(p as int, n as int))
            }) == unmounted_names_of(text@),
        decreases n - p, (if done { 0int } else { 1int }),
    {
        let ghost remaining = text@.subrange(p as int, n as int);
        let ghost entry_p = p as int;
        let mut q: usize = p;
        while q < n && text.get_char(q) != '\n'
            invariant
                p <= q <= n,
                n == text@.len(),
                forall|m: int| p <= m < q ==> text@[m] != '\n',
            decreases n - q,
        {
            q = q + 1;
        }
        proof {
            assert(forall|m: int| 0 <= m < remaining.len() ==> remaining[m] == text@[p + m]);
            lemma_first_nl_is(remaining, q - p);
            assert(remaining.subrange(0, q - p) =~= text@.subrange(p as int, q as int));
        }
        let line = text.substring_char(p, q);
        let ghost pre = out.deep_view();
        let ghost head = (match device_name_of(text@.subrange(entry_p, q as int)) {
            Some(nm) => seq![nm],
            None => Seq::<Seq<char>>::empty(),
        });
        match device_line_name(line) {
            Some(name) => {
                out.push(name);
                proof {
                    assert(out.deep_view() =~= pre + head);
                }
            },
            None => {
                proof {
                    assert(out.deep_view() =~= pre + head);
                }
            },
        }
        if q == n {
            proof {
                assert(unmounted_names_of(remaining) == head);
                assert(out.deep_view() =~= pre + unmounted_names_of(remaining));
                assert(out.deep_view() + Seq::<Seq<char>>::empty() =~= out.deep_view());
            }
            p = q;
            done = true;
        } else {
            proof {
                assert(remaining.subrange(q - p + 1, remaining.len() as int) =~= text@.subrange(
                    q + 1,
                    n as int,
                ));
                let tail = unmounted_names_of(text@.subrange(q + 1, n as int));
                assert(unmounted_names_of(remaining) == head + tail);
                assert(pre + (head + tail) =~= (pre + head) + tail);
            }
            p = q + 1;
            if p == n {
                // a listing ending in a line break contributes an empty
                // final line, which names no device
                proof {
                    assert(text@.subrange(p as int, n as int) =~= Seq::<char>::empty());
                    assert(unmounted_names_of(text@.subrange(p as int, n as int))
                        =~= Seq::<Seq<char>>::empty());
                    assert(out.deep_view() + Seq::<Seq<char>>::empty() =~= out.deep_view()
                        + unmounted_names_of(text@.subrange(p as int, n as int)));
                }
                done = true;
            }
        }
    }
    out
}

/// `t` shows `p` when read without regard to ASCII case: they are equal,
/// or `t` is the ASCII upper-case form of `p`.
pub open spec fn matches_lower(t: char, p: char) -> bool {
    t == p || (t as u32 >= 65 && t as u32 <= 90 && t as u32 + 32 == p as u32)
}

/// The lower-case pattern `pat` occurs in `text` at offset `off`, the
/// text side read without regard to ASCII case.
pub open spec fn matches_at(text: Seq<char>, pat: Seq<char>, off: int) -> bool {
    forall|j: int| 0 <= j < pat.len() ==> matches_lower(text[off + j], pat[j])
}

/// The lower-case pattern `pat` occurs somewhere in `text`, the text side
/// read without regard to ASCII case.
pub open spec fn contains_lower(text: Seq<char>, pat: Seq<char>) -> bool {
    exists|off: int| 0 <= off && off + pat.len() <= text.len() && matches_at(text, pat, off)
}

fn char_matches_lower(t: char, p: char) -> (b: bool)
    ensures
        b == matches_lower(t, p),
{
    t == p || (t as u32 >= 65 && t as u32 <= 90 && (t as u32) + 32 == p as u32)
}

/// Looks for the lower-case pattern `pat` in `text`, reading the text
/// without regard to ASCII case.
pub fn contains_pattern(text: &str, pat: &str) -> (b: bool)
    ensures
        b == contains_lower(text@, pat@),
{
    let n = text.unicode_len();
    let m = pat.unicode_len();
    if m > n {
        return false;
    }
    let mut off: usize = 0;
    while off <= n - m
        invariant
            m <= n,
            n == text@.len(),
            m == pat@.len(),
            off <= n - m + 1,
            forall|o: int| 0 <= o < off ==> !matches_at(text@, pat@, o),
        decreases n + 1 - off,
    {
        let mut j: usize = 0;
        let mut ok = true;
        while j < m && ok
            invariant
                j <= m,
                off <= n - m,
                n == text@.len(),
                m == pat@.len(),
                ok ==> forall|jj: int| 0 <= jj < j ==> matches_lower(
                    text@[off + jj],
                    pat@[jj],
                ),
                !ok ==> !matches_at(text@, pat@, off as int),
            decreases m - j, (if ok { 1int } else { 0int }),
        {
            if char_matches_lower(text.get_char(off + j), pat.get_char(j)) {
                j = j + 1;
            } else {
                proof {
                    assert(!matches_lower(text@[off + j], pat@[j as int]));
                }
                ok = false;
            }
        }
        if ok {
            proof {
                assert(matches_at(text@, pat@, off as int));
            }
            return true;
        }
        off = off + 1;
    }
    false
}

/// The listing betrays a card reader: it shows, read without regard to
/// ASCII case, either the known reader's USB id or the word
/// `cardreader`.
pub fn indicates_card_reader(listing: &str) -> (b: bool)
    ensures
        b == (contains_lower(listing@, "05e3:0743"@) || contains_lower(listing@, "cardreader"@)),
{
    contains_pattern(listing, "05e3:0743") || contains_pattern(listing, "cardreader")
}

/// The log line for a mount attempt that ran: the device and what the
/// mount command printed.
pub fn mount_success_message(dev: &str, output: &str) -> (r: String)
    ensures
        r@ == "Mounted "@ + dev@ + ": "@ + output@,
{
    let mut out = "Mounted ".to_owned();
    out.append(dev);
    out.append(": ");
    out.append(output);
    out
}

/// The log line for a mount attempt that could not run at all.
pub fn mount_failure_message(dev: &str) -> (r: String)
    ensures
        r@ == "Failed to mount "@ + dev@,
{
    let mut out = "Failed to mount ".to_owned();
    out.append(dev);
    out
}

} // verus!
