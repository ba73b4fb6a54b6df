use vstd::prelude::*;

use crate::chars::is_ws;
use crate::chars::is_ws_char;
use vstd::string::StrSliceExecFns;
use vstd::string::StringExecFns;

verus! {

/// Index of the first `'\n'` at or after position `i`, or the length of the
/// sequence when no newline follows.
pub open spec fn find_nl(s: Seq<char>, i: int) -> int
    decreases s.len() - i,
{
    if i < 0 || i >= s.len() {
        s.len() as int
    } else if s[i] == '\n' {
        i
    } else {
        find_nl(s, i + 1)
    }
}

/// Removes one trailing `'\r'`, as the standard line iterator does for lines
/// that were terminated by `"\r\n"`.
pub open spec fn strip_cr(l: Seq<char>) -> Seq<char> {
    if l.len() > 0 && l[l.len() - 1] == '\r' {
        l.drop_last()
    } else {
        l
    }
}

/// The lines of a text, split as `str::lines` splits them: terminators are
/// `'\n'` or `"\r\n"`, a final terminator yields no empty last line, and a
/// final line without a terminator keeps any trailing `'\r'`.
pub open spec fn split_lines(s: Seq<char>) -> Seq<Seq<char>>
    decreases s.len(),
{
    if s.len() == 0 {
        Seq::empty()
    } else {
        let j = find_nl(s, 0);
        if 0 <= j && j < s.len() {
            seq![strip_cr(s.subrange(0, j))] + split_lines(s.subrange(j + 1, s.len() as int))
        } else {
            seq![s]
        }
    }
}

/// Joins a sequence of lines with single `'\n'` separators.
pub open spec fn join_nl(ls: Seq<Seq<char>>) -> Seq<char>
    decreases ls.len(),
{
    if ls.len() == 0 {
        Seq::empty()
    } else if ls.len() == 1 {
        ls[0]
    } else {
        ls[0] + seq!['\n'] + join_nl(ls.drop_first())
    }
}

/// The text with its leading whitespace removed.
pub open spec fn trim_start(s: Seq<char>) -> Seq<char>
    decreases s.len(),
{
    if s.len() > 0 && is_ws_char(s[0]) {
        trim_start(s.drop_first())
    } else {
        s
    }
}

/// The text with its trailing whitespace removed.
pub open spec fn trim_end(s: Seq<char>) -> Seq<char>
    decreases s.len(),
{
    if s.len() > 0 && is_ws_char(s[s.len() - 1]) {
        trim_end(s.drop_last())
    } else {
        s
    }
}

/// The text with whitespace removed at both ends, as `str::trim` removes it.
pub open spec fn trim(s: Seq<char>) -> Seq<char> {
    trim_end(trim_start(s))
}

/// `find_nl` lands on a newline (or the end), and nothing before it is one.
pub proof fn lemma_find_nl_props(s: Seq<char>, i: int)
    requires
        0 <= i <= s.len(),
    ensures
        i <= find_nl(s, i) <= s.len(),
        find_nl(s, i) < s.len() ==> s[find_nl(s, i)] == '\n',
        forall|k: int| i <= k < find_nl(s, i) ==> s[k] != '\n',
    decreases s.len() - i,
{
    if i < s.len() && s[i] != '\n' {
        lemma_find_nl_props(s, i + 1);
    }
}

/// Any position with those two properties is `find_nl`'s result.
pub proof fn lemma_find_nl_unique(s: Seq<char>, i: int, j: int)
    requires
        0 <= i <= j <= s.len(),
        j < s.len() ==> s[j] == '\n',
        forall|k: int| i <= k < j ==> s[k] != '\n',
    ensures
        find_nl(s, i) == j,
    decreases s.len() - i,
{
    if i < s.len() && s[i] != '\n' {
        lemma_find_nl_unique(s, i + 1, j);
    }
}

/// Appending a line to a joined text inserts one separator, unless the text
/// was empty of lines.
pub proof fn lemma_join_push(ls: Seq<Seq<char>>, x: Seq<char>)
    ensures
        ls.len() == 0 ==> join_nl(ls.push(x)) == x,
        ls.len() > 0 ==> join_nl(ls.push(x)) == join_nl(ls) + seq!['\n'] + x,
    decreases ls.len(),
{
    if ls.len() == 0 {
        assert(join_nl(ls.push(x)) == ls.push(x)[0]);
        assert(ls.push(x)[0] == x);
    } else if ls.len() == 1 {
        assert(ls.push(x).drop_first() =~= seq![x]);
        assert(join_nl(seq![x]) == x);
        assert(join_nl(ls) == ls[0]);
    } else {
        lemma_join_push(ls.drop_first(), x);
        assert(ls.push(x).drop_first() =~= ls.drop_first().push(x));
        assert(join_nl(ls.push(x)) == ls[0] + seq!['\n'] + join_nl(ls.drop_first().push(x)));
        assert((ls[0] + seq!['\n'] + (join_nl(ls.drop_first()) + seq!['\n'] + x)) =~= ((ls[0]
            + seq!['\n'] + join_nl(ls.drop_first())) + seq!['\n'] + x));
    }
}

/// Tests two string slices for equality of their character sequences.
pub fn str_eq(a: &str, b: &str) -> (r: bool)
    ensures
        r == (a@ == b@),
{
    let n = a.unicode_len();
    let m = b.unicode_len();
    if n != m {
        return false;
    }
    let mut i: usize = 0;
    while i < n
        invariant
            0 <= i <= n,
            n == a@.len(),
            n == b@.len(),
            forall|k: int| 0 <= k < i ==> a@[k] == b@[k],
        decreases n - i,
    {
        if a.get_char(i) != b.get_char(i) {
            return false;
        }
        i += 1;
    }
    proof {
        assert(a@ =~= b@);
    }
    true
}

/// Index of the first `'\n'` in `s` at or after `start`, or the character
/// length of `s` when none follows.
pub fn find_newline_from(s: &str, start: usize, n: usize) -> (j: usize)
    requires
        n == s@.len(),
        start <= n,
    ensures
        j as int == find_nl(s@, start as int),
        start <= j <= n,
    decreases n - start,
{
    let mut i: usize = start;
    while i < n
        invariant
            start <= i <= n,
            n == s@.len(),
            forall|k: int| start <= k < i ==> s@[k] != '\n',
        decreases n - i,
    {
        if s.get_char(i) == '\n' {
            proof {
                lemma_find_nl_unique(s@, start as int, i as int);
            }
            return i;
        }
        i += 1;
    }
    proof {
        lemma_find_nl_unique(s@, start as int, n as int);
    }
    n
}

/// Splits a text into its lines, as `str::lines` does.
pub fn split_message_lines(s: &str) -> (v: Vec<String>)
    ensures
        v.deep_view() == split_lines(s@),
{
    let n = s.unicode_len();
    let mut v: Vec<String> = Vec::new();
    let mut p: usize = 0;
    proof {
        assert(s@.subrange(0, n as int) =~= s@);
        assert(v.deep_view() + split_lines(s@.subrange(p as int, n as int)) =~~= split_lines(s@));
    }
    while p < n
        invariant
            0 <= p <= n,
            n == s@.len(),
            split_lines(s@) == v.deep_view() + split_lines(s@.subrange(p as int, n as int)),
        decreases n - p,
    {
        let ghost rest = s@.subrange(p as int, n as int);
        let ghost old_dv = v.deep_view();
        let j = find_newline_from(s, p, n);
        proof {
            lemma_find_nl_props(s@, p as int);
            // find_nl on the remainder sits at the same spot, shifted
            assert(forall|k: int|
                0 <= k < j - p ==> rest[k] == s@[p + k] && s@[p + k] != '\n');
            lemma_find_nl_unique(rest, 0, j - p as int);
        }
        if j < n {
            let line = if j > p && s.get_char(j - 1) == '\r' {
                s.substring_char(p, j - 1)
            } else {
                s.substring_char(p, j)
            };
            proof {
                assert(rest.subrange(0, j - p as int) =~= s@.subrange(p as int, j as int));
                if j > p && s@[j - 1] == '\r' {
                    assert(s@.subrange(p as int, j as int).drop_last() =~= s@.subrange(
                        p as int,
                        j - 1 as int,
                    ));
                }
                assert(line@ == strip_cr(rest.subrange(0, j - p as int)));
                assert(rest.subrange(j - p + 1 as int, rest.len() as int) =~= s@.subrange(
                    j + 1 as int,
                    n as int,
                ));
                assert(split_lines(rest) == seq![strip_cr(rest.subrange(0, j - p as int))]
                    + split_lines(s@.subrange(j + 1 as int, n as int)));
            }
            v.push(line.to_owned());
            proof {
                assert(v.deep_view() =~~= old_dv.push(line@));
                assert(old_dv.push(line@) + split_lines(s@.subrange(j + 1 as int, n as int))
                    =~~= old_dv + split_lines(rest));
            }
            p = j + 1;
        } else {
            let line = s.substring_char(p, n);
            proof {
                assert(line@ =~= rest);
                assert(split_lines(rest) == seq![rest]);
            }
            v.push(line.to_owned());
            proof {
                assert(v.deep_view() =~~= old_dv.push(line@));
                assert(old_dv.push(rest) =~~= old_dv + seq![rest]);
                assert(s@.subrange(n as int, n as int) =~= Seq::<char>::empty());
                assert(old_dv + split_lines(rest) =~~= old_dv.push(rest) + split_lines(
                    s@.subrange(n as int, n as int),
                ));
            }
            p = n;
        }
    }
    proof {
        assert(s@.subrange(n as int, n as int) =~= Seq::<char>::empty());
        assert(split_lines(s@) =~~= v.deep_view());
    }
    v
}

/// Joins all lines after the first with `'\n'`, as the original message body
/// is reassembled.
pub fn join_tail(lines: &Vec<String>) -> (r: String)
    requires
        lines@.len() >= 1,
    ensures
        r@ == join_nl(lines.deep_view().drop_first()),
{
    let ghost dv = lines.deep_view();
    let mut r = String::new();
    let n = lines.len();
    let mut i: usize = 1;
    proof {
        assert(dv.subrange(1, 1) =~= Seq::<Seq<char>>::empty());
    }
    while i < n
        invariant
            1 <= i <= n,
            n == lines@.len(),
            dv == lines.deep_view(),
            r@ == join_nl(dv.subrange(1, i as int)),
        decreases n - i,
    {
        let ghost pre = dv.subrange(1, i as int);
        if i > 1 {
            r.append("\n");
            proof {
                reveal_strlit("\n");
                assert("\n"@ =~= seq!['\n']);
            }
        }
        r.append(lines[i].as_str());
        proof {
            assert(dv.subrange(1, i + 1 as int) =~= pre.push(dv[i as int]));
            lemma_join_push(pre, dv[i as int]);
            assert(dv[i as int] == lines@[i as int]@);
        }
        i += 1;
    }
    proof {
        assert(dv.subrange(1, n as int) =~= dv.drop_first());
    }
    r
}

/// Removes leading and trailing whitespace, as `str::trim` does.
pub fn trim_str(s: &str) -> (r: String)
    ensures
        r@ == trim(s@),
{
    let n = s.unicode_len();
    let mut i: usize = 0;
    proof {
        assert(s@.subrange(0, n as int) =~= s@);
    }
    while i < n && is_ws(s.get_char(i))
        invariant
            0 <= i <= n,
            n == s@.len(),
            trim_start(s@) == trim_start(s@.subrange(i as int, n as int)),
        decreases n - i,
    {
        proof {
            assert(s@.subrange(i as int, n as int).drop_first() =~= s@.subrange(
                i + 1 as int,
                n as int,
            ));
        }
        i += 1;
    }
    proof {
        if i < n {
            assert(trim_start(s@) == s@.subrange(i as int, n as int));
        } else {
            assert(s@.subrange(n as int, n as int) =~= Seq::<char>::empty());
            assert(trim_start(s@) == s@.subrange(i as int, n as int));
        }
    }
    let mut k: usize = n;
    while k > i && is_ws(s.get_char(k - 1))
        invariant
            i <= k <= n,
            n == s@.len(),
            trim_start(s@) == s@.subrange(i as int, n as int),
            trim_end(s@.subrange(i as int, n as int)) == trim_end(s@.subrange(i as int, k as int)),
        decreases k,
    {
        proof {
            assert(s@.subrange(i as int, k as int).drop_last() =~= s@.subrange(
                i as int,
                k - 1 as int,
            ));
        }
        k -= 1;
    }
    proof {
        assert(trim_end(s@.subrange(i as int, k as int)) == s@.subrange(i as int, k as int));
    }
    let out = s.substring_char(i, k);
    out.to_owned()
}

} // verus!
