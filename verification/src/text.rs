//! Character-level text helpers.
//!
//! The sync and conversion layers work on text as sequences of characters:
//! ASCII case folding, prefix tests, pattern replacement and joining.
//! Strings move through these helpers as `Vec<char>` values, built up by
//! verified code and turned back into `String`s at the edges.

use vstd::prelude::*;

verus! {

/// ASCII lowercasing of one character; anything outside `A`..`Z` is kept.
pub open spec fn spec_lower_char(c: char) -> char {
    if 65 <= c as u32 <= 90 {
        ((c as u32 + 32) as u8) as char
    } else {
        c
    }
}

/// ASCII uppercasing of one character; anything outside `a`..`z` is kept.
pub open spec fn spec_upper_char(c: char) -> char {
    if 97 <= c as u32 <= 122 {
        ((c as u32 - 32) as u8) as char
    } else {
        c
    }
}

/// ASCII lowercasing of a character sequence.
pub open spec fn spec_lower(s: Seq<char>) -> Seq<char> {
    s.map_values(|c: char| spec_lower_char(c))
}

/// ASCII uppercasing of a character sequence.
pub open spec fn spec_upper(s: Seq<char>) -> Seq<char> {
    s.map_values(|c: char| spec_upper_char(c))
}

/// True when `p` is a prefix of `s`.
pub open spec fn spec_starts_with(s: Seq<char>, p: Seq<char>) -> bool {
    s.len() >= p.len() && s.subrange(0, p.len() as int) == p
}

/// `s` with every occurrence of `pat` replaced by `rep`, scanning left to
/// right without revisiting replaced text.
pub open spec fn spec_replace_all(s: Seq<char>, pat: Seq<char>, rep: Seq<char>) -> Seq<char>
    recommends
        pat.len() > 0,
    decreases s.len(),
{
    if s.len() == 0 || pat.len() == 0 {
        s
    } else if spec_starts_with(s, pat) {
        rep + spec_replace_all(s.skip(pat.len() as int), pat, rep)
    } else {
        seq![s[0]] + spec_replace_all(s.drop_first(), pat, rep)
    }
}

/// The views of a list of strings.
pub open spec fn spec_string_views(s: Seq<String>) -> Seq<Seq<char>> {
    s.map_values(|x: String| x@)
}

/// The views of a list of string pairs.
pub open spec fn spec_pair_views(s: Seq<(String, String)>) -> Seq<(Seq<char>, Seq<char>)> {
    s.map_values(|e: (String, String)| (e.0@, e.1@))
}

/// The characters of a string, as a list.
pub fn str_chars(s: &str) -> (r: Vec<char>)
    ensures
        r@ == s@,
{
    let n = s.unicode_len();
    let mut r: Vec<char> = Vec::new();
    let mut i: usize = 0;
    while i < n
        invariant
            i <= n,
            n == s@.len(),
            r@ =~= s@.subrange(0, i as int),
        decreases n - i,
    {
        r.push(s.get_char(i));
        i = i + 1;
        proof {
            assert(s@.subrange(0, i as int) =~= s@.subrange(0, i - 1).push(s@[i - 1]));
        }
    }
    proof {
        assert(s@.subrange(0, n as int) =~= s@);
    }
    r
}

/// Relies on `String: FromIterator<char>`: collecting characters yields
/// the string of exactly those characters, in order.
#[verifier::external_body]
pub fn string_from_chars(v: &Vec<char>) -> (r: String)
    ensures
        r@ == v@,
{
    v.iter().collect()
}

/// Append a string's characters to a list.
pub fn push_chars_of(out: &mut Vec<char>, s: &str)
    ensures
        final(out)@ =~= old(out)@ + s@,
{
    let n = s.unicode_len();
    let mut i: usize = 0;
    while i < n
        invariant
            i <= n,
            n == s@.len(),
            out@ =~= old(out)@ + s@.subrange(0, i as int),
        decreases n - i,
    {
        out.push(s.get_char(i));
        i = i + 1;
        proof {
            assert(s@.subrange(0, i as int) =~= s@.subrange(0, i - 1).push(s@[i - 1]));
        }
    }
    proof {
        assert(s@.subrange(0, n as int) =~= s@);
    }
}

/// ASCII-lowercase a character list.
pub fn lower_chars(s: &Vec<char>) -> (r: Vec<char>)
    ensures
        r@ =~= spec_lower(s@),
{
    let n = s.len();
    let mut r: Vec<char> = Vec::new();
    let mut i: usize = 0;
    while i < n
        invariant
            i <= n,
            n == s@.len(),
            r@.len() == i,
            forall|j: int| 0 <= j < i ==> #[trigger] r@[j] == spec_lower_char(s@[j]),
        decreases n - i,
    {
        let c = s[i];
        let u = c as u32;
        if 65 <= u && u <= 90 {
            r.push(((u + 32) as u8) as char);
        } else {
            r.push(c);
        }
        i = i + 1;
    }
    r
}

/// ASCII-uppercase a character list.
pub fn upper_chars(s: &Vec<char>) -> (r: Vec<char>)
    ensures
        r@ =~= spec_upper(s@),
{
    let n = s.len();
    let mut r: Vec<char> = Vec::new();
    let mut i: usize = 0;
    while i < n
        invariant
            i <= n,
            n == s@.len(),
            r@.len() == i,
            forall|j: int| 0 <= j < i ==> #[trigger] r@[j] == spec_upper_char(s@[j]),
        decreases n - i,
    {
        let c = s[i];
        let u = c as u32;
        if 97 <= u && u <= 122 {
            r.push(((u - 32) as u8) as char);
        } else {
            r.push(c);
        }
        i = i + 1;
    }
    r
}

/// Compare a character list against a string.
pub fn chars_eq_str(v: &Vec<char>, s: &str) -> (r: bool)
    ensures
        r == (v@ == s@),
{
    let n = s.unicode_len();
    if v.len() != n {
        proof {
            assert(v@.len() != s@.len());
        }
        return false;
    }
    let mut i: usize = 0;
    while i < n
        invariant
            i <= n,
            n == s@.len(),
            v@.len() == n,
            forall|j: int| 0 <= j < i ==> v@[j] == s@[j],
        decreases n - i,
    {
        if v[i] != s.get_char(i) {
            proof {
                assert(v@[i as int] != s@[i as int]);
            }
            return false;
        }
        i = i + 1;
    }
    proof {
        assert(v@ =~= s@);
    }
    true
}

/// Check whether the characters of `p` are a prefix of `v`.
pub fn chars_start_with(v: &Vec<char>, p: &Vec<char>) -> (r: bool)
    ensures
        r == spec_starts_with(v@, p@),
{
    let m = p.len();
    if v.len() < m {
        return false;
    }
    let mut i: usize = 0;
    while i < m
        invariant
            i <= m,
            m == p@.len(),
            v@.len() >= m,
            forall|j: int| 0 <= j < i ==> v@[j] == p@[j],
        decreases m - i,
    {
        if v[i] != p[i] {
            proof {
                assert(v@.subrange(0, m as int)[i as int] != p@[i as int]);
            }
            return false;
        }
        i = i + 1;
    }
    proof {
        assert(v@.subrange(0, m as int) =~= p@);
    }
    true
}

/// Replace every occurrence of `pat` in `s` by `rep`, scanning left to
/// right.
pub fn replace_all(s: &Vec<char>, pat: &Vec<char>, rep: &Vec<char>) -> (r: Vec<char>)
    requires
        pat@.len() > 0,
    ensures
        r@ == spec_replace_all(s@, pat@, rep@),
    decreases s@.len(),
{
    let mut out: Vec<char> = Vec::new();
    let mut i: usize = 0;
    let n = s.len();
    proof {
        assert(s@.skip(0) =~= s@);
        assert(Seq::<char>::empty() + spec_replace_all(s@, pat@, rep@) =~= spec_replace_all(
            s@,
            pat@,
            rep@,
        ));
    }
    while i < n
        invariant
            i <= n,
            n == s@.len(),
            n <= usize::MAX,
            pat@.len() > 0,
            spec_replace_all(s@, pat@, rep@) =~= out@ + spec_replace_all(
                s@.skip(i as int),
                pat@,
                rep@,
            ),
        decreases n - i,
    {
        let ghost i0 = i as int;
        let ghost out0 = out@;
        let ghost tail0 = s@.skip(i0);
        let remaining = n - i;
        let matches_here = if remaining >= pat.len() {
            prefix_matches_at(s, i, pat)
        } else {
            false
        };
        proof {
            assert(tail0.len() == n - i0);
        }
        if matches_here {
            let plen = pat.len();
            proof {
                assert(spec_starts_with(tail0, pat@));
                assert(spec_replace_all(tail0, pat@, rep@) == rep@ + spec_replace_all(
                    tail0.skip(plen as int),
                    pat@,
                    rep@,
                ));
                assert(tail0.skip(plen as int) =~= s@.skip(i0 + plen));
            }
            let mut k: usize = 0;
            let ghost mid = out@;
            while k < rep.len()
                invariant
                    k <= rep@.len(),
                    out@ =~= mid + rep@.subrange(0, k as int),
                decreases rep@.len() - k,
            {
                out.push(rep[k]);
                k = k + 1;
                proof {
                    assert(rep@.subrange(0, k as int) =~= rep@.subrange(0, k - 1).push(
                        rep@[k - 1],
                    ));
                }
            }
            proof {
                assert(rep@.subrange(0, rep@.len() as int) =~= rep@);
            }
            i = i + plen;
            proof {
                assert(out@ =~= out0 + rep@);
                assert(out@ + spec_replace_all(s@.skip(i as int), pat@, rep@) =~= out0 + (rep@
                    + spec_replace_all(s@.skip(i0 + plen), pat@, rep@)));
            }
        } else {
            proof {
                if tail0.len() >= pat@.len() {
                    assert(!spec_starts_with(tail0, pat@));
                }
                assert(spec_replace_all(tail0, pat@, rep@) == seq![tail0[0]] + spec_replace_all(
                    tail0.drop_first(),
                    pat@,
                    rep@,
                ));
                assert(tail0.drop_first() =~= s@.skip(i0 + 1));
                assert(tail0[0] == s@[i0]);
            }
            out.push(s[i]);
            i = i + 1;
            proof {
                assert(out@ =~= out0 + seq![s@[i0]]);
                assert(out@ + spec_replace_all(s@.skip(i as int), pat@, rep@) =~= out0 + (seq![
                    s@[i0],
                ] + spec_replace_all(s@.skip(i0 + 1), pat@, rep@)));
            }
        }
    }
    proof {
        assert(s@.skip(n as int).len() == 0);
        assert(out@ + spec_replace_all(s@.skip(n as int), pat@, rep@) =~= out@);
    }
    out
}

/// Check whether `pat` occurs in `s` at position `i`.
fn prefix_matches_at(s: &Vec<char>, i: usize, pat: &Vec<char>) -> (r: bool)
    requires
        i + pat@.len() <= s@.len(),
    ensures
        r == spec_starts_with(s@.skip(i as int), pat@),
{
    let sn: usize = s.len();
    let m = pat.len();
    let mut k: usize = 0;
    while k < m
        invariant
            k <= m,
            m == pat@.len(),
            i + m <= sn,
            sn == s@.len(),
            forall|j: int| 0 <= j < k ==> s@[i + j] == pat@[j],
        decreases m - k,
    {
        if s[i + k] != pat[k] {
            proof {
                assert(s@.skip(i as int).subrange(0, m as int)[k as int] == s@[i + k]);
            }
            return false;
        }
        k = k + 1;
    }
    proof {
        assert(s@.skip(i as int).subrange(0, m as int) =~= pat@);
    }
    true
}

/// The lines joined with a separator between consecutive elements.
pub open spec fn spec_join(lines: Seq<Seq<char>>, sep: Seq<char>) -> Seq<char>
    decreases lines.len(),
{
    if lines.len() == 0 {
        Seq::empty()
    } else if lines.len() == 1 {
        lines[0]
    } else {
        lines[0] + sep + spec_join(lines.drop_first(), sep)
    }
}

/// Appending one line to a join appends a separator (when the join was
/// not empty of lines) and the line.
pub proof fn lemma_join_push(lines: Seq<Seq<char>>, sep: Seq<char>, x: Seq<char>)
    ensures
        spec_join(lines.push(x), sep) =~= if lines.len() == 0 {
            x
        } else {
            spec_join(lines, sep) + sep + x
        },
    decreases lines.len(),
{
    if lines.len() == 0 {
        assert(lines.push(x)[0] == x);
    } else {
        assert(lines.push(x).drop_first() =~= lines.drop_first().push(x));
        lemma_join_push(lines.drop_first(), sep, x);
        if lines.len() == 1 {
            assert(lines.push(x)[0] == lines[0]);
        }
    }
}

/// Join strings with a separator, as `[T]::join` does.
pub fn join_lines(lines: &Vec<String>, sep: &str) -> (r: String)
    ensures
        r@ == spec_join(spec_string_views(lines@), sep@),
{
    let mut out: Vec<char> = Vec::new();
    let n = lines.len();
    let mut i: usize = 0;
    while i < n
        invariant
            i <= n,
            n == lines@.len(),
            out@ =~= spec_join(
                spec_string_views(lines@).subrange(0, i as int),
                sep@,
            ),
        decreases n - i,
    {
        if i > 0 {
            push_chars_of(&mut out, sep);
        }
        push_chars_of(&mut out, lines[i].as_str());
        i = i + 1;
        proof {
            let m = spec_string_views(lines@);
            assert(m.subrange(0, i as int) =~= m.subrange(0, i - 1).push(m[i - 1]));
            lemma_join_push(m.subrange(0, i - 1), sep@, m[i - 1]);
            assert(m[i - 1] == lines@[i - 1]@);
        }
    }
    proof {
        let m = spec_string_views(lines@);
        assert(m.subrange(0, n as int) =~= m);
    }
    string_from_chars(&out)
}

} // verus!
