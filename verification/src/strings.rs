use vstd::prelude::*;
use vstd::string::*;

verus! {

/// The views of a sequence of owned strings.
pub open spec fn views(v: Seq<String>) -> Seq<Seq<char>> {
    v.map_values(|s: String| s@)
}

/// The whitespace characters recognized when trimming tokens and when
/// skipping a line's leading indentation (the set `char::is_whitespace`
/// accepts).
pub open spec fn spec_is_space(c: char) -> bool {
    ||| c == ' '
    ||| c == '\t'
    ||| c == '\n'
    ||| c == '\u{0B}'
    ||| c == '\u{0C}'
    ||| c == '\r'
    ||| c == '\u{85}'
    ||| c == '\u{A0}'
    ||| c == '\u{1680}'
    ||| c == '\u{2000}'
    ||| c == '\u{2001}'
    ||| c == '\u{2002}'
    ||| c == '\u{2003}'
    ||| c == '\u{2004}'
    ||| c == '\u{2005}'
    ||| c == '\u{2006}'
    ||| c == '\u{2007}'
    ||| c == '\u{2008}'
    ||| c == '\u{2009}'
    ||| c == '\u{200A}'
    ||| c == '\u{2028}'
    ||| c == '\u{2029}'
    ||| c == '\u{202F}'
    ||| c == '\u{205F}'
    ||| c == '\u{3000}'
}

pub fn is_space_char(c: char) -> (r: bool)
    ensures
        r == spec_is_space(c),
{
    match c {
        ' ' | '\t' | '\n' | '\u{0B}' | '\u{0C}' | '\r' | '\u{85}' | '\u{A0}' | '\u{1680}'
            | '\u{2000}' | '\u{2001}' | '\u{2002}' | '\u{2003}' | '\u{2004}' | '\u{2005}'
            | '\u{2006}' | '\u{2007}' | '\u{2008}' | '\u{2009}' | '\u{200A}' | '\u{2028}'
            | '\u{2029}' | '\u{202F}' | '\u{205F}' | '\u{3000}' => true,
        _ => false,
    }
}

/// Character-by-character equality of two string slices.
pub fn str_eq(a: &str, b: &str) -> (r: bool)
    ensures
        r == (a@ == b@),
{
    let alen = a.unicode_len();
    let blen = b.unicode_len();
    if alen != blen {
        return false;
    }
    let mut i: usize = 0;
    while i < alen
        invariant
            i <= alen,
            alen == a@.len(),
            blen == b@.len(),
            alen == blen,
            forall|j: int| 0 <= j < i ==> a@[j] == b@[j],
        decreases alen - i,
    {
        if a.get_char(i) != b.get_char(i) {
            return false;
        }
        i += 1;
    }
    proof {
        assert(a@ =~= b@);
    }
    true
}

/// Whether `s` begins with the characters of `p`.
pub fn str_starts_with(s: &str, p: &str) -> (r: bool)
    ensures
        r == (s@.len() >= p@.len() && s@.take(p@.len() as int) == p@),
{
    let slen = s.unicode_len();
    let plen = p.unicode_len();
    if slen < plen {
        return false;
    }
    let mut i: usize = 0;
    while i < plen
        invariant
            i <= plen,
            slen == s@.len(),
            plen == p@.len(),
            slen >= plen,
            forall|j: int| 0 <= j < i ==> s@[j] == p@[j],
        decreases plen - i,
    {
        if s.get_char(i) != p.get_char(i) {
            return false;
        }
        i += 1;
    }
    proof {
        assert(s@.take(p@.len() as int) =~= p@);
    }
    true
}

/// Whether `s` ends with the characters of `p`.
pub fn str_ends_with(s: &str, p: &str) -> (r: bool)
    ensures
        r == (s@.len() >= p@.len() && s@.skip(s@.len() - p@.len()) == p@),
{
    let slen = s.unicode_len();
    let plen = p.unicode_len();
    if slen < plen {
        return false;
    }
    let off = slen - plen;
    let mut i: usize = 0;
    while i < plen
        invariant
            i <= plen,
            slen == s@.len(),
            plen == p@.len(),
            slen >= plen,
            off == slen - plen,
            forall|j: int| 0 <= j < i ==> s@[off + j] == p@[j],
        decreases plen - i,
    {
        if s.get_char(off + i) != p.get_char(i) {
            return false;
        }
        i += 1;
    }
    proof {
        assert(s@.skip(s@.len() - p@.len()) =~= p@);
    }
    true
}

/// Splitting a character sequence on a separator, accumulator form: `cur`
/// holds the piece read so far.
pub open spec fn spec_split_rec(s: Seq<char>, sep: char, cur: Seq<char>) -> Seq<Seq<char>>
    decreases s.len(),
{
    if s.len() == 0 {
        seq![cur]
    } else if s[0] == sep {
        seq![cur] + spec_split_rec(s.skip(1), sep, Seq::empty())
    } else {
        spec_split_rec(s.skip(1), sep, cur.push(s[0]))
    }
}

/// The pieces of `s` between occurrences of `sep`, in order. An empty input
/// yields one empty piece; adjacent separators yield empty pieces.
pub open spec fn spec_split(s: Seq<char>, sep: char) -> Seq<Seq<char>> {
    spec_split_rec(s, sep, Seq::empty())
}

pub proof fn lemma_split_rec_len(s: Seq<char>, sep: char, cur: Seq<char>)
    ensures
        spec_split_rec(s, sep, cur).len() >= 1,
    decreases s.len(),
{
    if s.len() == 0 {
    } else if s[0] == sep {
    } else {
        lemma_split_rec_len(s.skip(1), sep, cur.push(s[0]));
    }
}

/// Splits `s` on every occurrence of `sep`.
pub fn split_char(s: &str, sep: char) -> (r: Vec<String>)
    ensures
        views(r@) == spec_split(s@, sep),
        r@.len() >= 1,
{
    let n = s.unicode_len();
    let mut out: Vec<String> = Vec::new();
    let mut cur: String = String::new();
    let mut i: usize = 0;
    proof {
        assert(s@.skip(0) =~= s@);
        assert(views(out@) =~= Seq::<Seq<char>>::empty());
        assert(views(out@) + spec_split_rec(s@, sep, cur@) =~= spec_split_rec(s@, sep, cur@));
    }
    while i < n
        invariant
            i <= n,
            n == s@.len(),
            spec_split(s@, sep) == views(out@) + spec_split_rec(s@.skip(i as int), sep, cur@),
        decreases n - i,
    {
        let c = s.get_char(i);
        proof {
            assert(s@.skip(i as int)[0] == s@[i as int]);
            assert(s@.skip(i as int).skip(1) =~= s@.skip(i + 1));
        }
        if c == sep {
            let ghost old_out = out@;
            let ghost cur_view = cur@;
            out.push(cur);
            cur = String::new();
            proof {
                assert(views(out@) =~= views(old_out).push(cur_view));
                assert(views(out@) + spec_split_rec(s@.skip(i + 1), sep, Seq::empty()) =~= views(
                    old_out,
                ) + spec_split_rec(s@.skip(i as int), sep, cur_view));
            }
        } else {
            let piece = s.substring_char(i, i + 1);
            proof {
                assert(cur@ + piece@ =~= cur@.push(s@[i as int]));
            }
            cur.append(piece);
        }
        i += 1;
    }
    proof {
        assert(s@.skip(n as int) =~= Seq::<char>::empty());
        assert(spec_split(s@, sep) == views(out@) + seq![cur@]);
    }
    let ghost old_out = out@;
    let ghost cur_view = cur@;
    out.push(cur);
    proof {
        assert(views(out@) =~= views(old_out).push(cur_view));
        assert(views(out@) =~= views(old_out) + seq![cur_view]);
        lemma_split_rec_len(s@, sep, Seq::empty());
    }
    out
}

/// Joining pieces with a separator between adjacent pieces.
pub open spec fn spec_join(parts: Seq<Seq<char>>, sep: Seq<char>) -> Seq<char>
    decreases parts.len(),
{
    if parts.len() == 0 {
        Seq::empty()
    } else if parts.len() == 1 {
        parts[0]
    } else {
        parts[0] + sep + spec_join(parts.skip(1), sep)
    }
}

pub proof fn lemma_join_push(parts: Seq<Seq<char>>, sep: Seq<char>, x: Seq<char>)
    ensures
        spec_join(parts.push(x), sep) == if parts.len() == 0 {
            x
        } else {
            spec_join(parts, sep) + sep + x
        },
    decreases parts.len(),
{
    if parts.len() == 0 {
        assert(parts.push(x)[0] == x);
    } else if parts.len() == 1 {
        assert(parts.push(x).skip(1) =~= seq![x]);
        assert(parts.push(x)[0] == parts[0]);
        assert(seq![x].len() == 1 && seq![x][0] == x);
        assert(spec_join(seq![x], sep) == x);
        assert(spec_join(parts.push(x), sep) == parts[0] + sep + x);
        assert(spec_join(parts, sep) == parts[0]);
    } else {
        assert(parts.push(x).skip(1) =~= parts.skip(1).push(x));
        lemma_join_push(parts.skip(1), sep, x);
        assert((parts[0] + sep + (spec_join(parts.skip(1), sep) + sep + x)) =~= ((parts[0] + sep
            + spec_join(parts.skip(1), sep)) + sep + x));
    }
}

/// Joins the strings in `parts` with `sep` between adjacent entries.
pub fn join_strings(parts: &Vec<String>, sep: &str) -> (r: String)
    ensures
        r@ == spec_join(views(parts@), sep@),
{
    let mut acc = String::new();
    let mut i: usize = 0;
    let n = parts.len();
    while i < n
        invariant
            i <= n,
            n == parts@.len(),
            acc@ == spec_join(views(parts@).take(i as int), sep@),
        decreases n - i,
    {
        if i > 0 {
            acc.append(sep);
        }
        acc.append(parts[i].as_str());
        proof {
            let jv = views(parts@);
            assert(jv.take(i + 1) =~= jv.take(i as int).push(jv[i as int]));
            lemma_join_push(jv.take(i as int), sep@, jv[i as int]);
        }
        i += 1;
    }
    proof {
        assert(views(parts@).take(n as int) =~= views(parts@));
    }
    acc
}

/// What remains of `s` after dropping leading whitespace.
pub open spec fn spec_trim_front(s: Seq<char>) -> Seq<char>
    decreases s.len(),
{
    if s.len() > 0 && spec_is_space(s[0]) {
        spec_trim_front(s.skip(1))
    } else {
        s
    }
}

/// What remains of `s` after dropping trailing whitespace.
pub open spec fn spec_trim_back(s: Seq<char>) -> Seq<char>
    decreases s.len(),
{
    if s.len() > 0 && spec_is_space(s.last()) {
        spec_trim_back(s.drop_last())
    } else {
        s
    }
}

/// `s` without leading and trailing whitespace.
pub open spec fn spec_trim(s: Seq<char>) -> Seq<char> {
    spec_trim_back(spec_trim_front(s))
}

/// Trims leading and trailing whitespace from `s`.
pub fn trim_str(s: &str) -> (r: String)
    ensures
        r@ == spec_trim(s@),
{
    let n = s.unicode_len();
    let mut lo: usize = 0;
    proof {
        assert(s@.skip(0) =~= s@);
    }
    while lo < n && is_space_char(s.get_char(lo))
        invariant
            lo <= n,
            n == s@.len(),
            spec_trim_front(s@) == spec_trim_front(s@.skip(lo as int)),
        decreases n - lo,
    {
        proof {
            assert(s@.skip(lo as int)[0] == s@[lo as int]);
            assert(s@.skip(lo as int).skip(1) =~= s@.skip(lo + 1));
        }
        lo += 1;
    }
    proof {
        if lo == n {
            assert(s@.skip(lo as int) =~= Seq::<char>::empty());
        }
        assert(spec_trim_front(s@) == s@.skip(lo as int));
    }
    let ghost t = s@.skip(lo as int);
    let mut hi: usize = n;
    proof {
        assert(t.take(n - lo) =~= t);
    }
    while hi > lo && is_space_char(s.get_char(hi - 1))
        invariant
            lo <= hi <= n,
            n == s@.len(),
            t == s@.skip(lo as int),
            spec_trim_back(t) == spec_trim_back(t.take(hi - lo)),
        decreases hi,
    {
        proof {
            let k = hi - lo;
            assert(t.take(k).last() == s@[hi - 1]);
            assert(t.take(k).drop_last() =~= t.take(k - 1));
        }
        hi -= 1;
    }
    proof {
        if hi == lo {
            assert(t.take(0) =~= Seq::<char>::empty());
        } else {
            assert(t.take(hi - lo).last() == s@[hi - 1]);
        }
        assert(spec_trim_back(t) == t.take(hi - lo));
        assert(s@.subrange(lo as int, hi as int) =~= t.take(hi - lo));
    }
    let piece = s.substring_char(lo, hi);
    String::from_str(piece)
}

/// Whether some string in `v` has exactly the characters of `t`.
pub fn vec_contains_str(v: &Vec<String>, t: &str) -> (r: bool)
    ensures
        r == views(v@).contains(t@),
{
    let mut i: usize = 0;
    let n = v.len();
    while i < n
        invariant
            i <= n,
            n == v@.len(),
            forall|j: int| 0 <= j < i ==> views(v@)[j] != t@,
        decreases n - i,
    {
        if str_eq(v[i].as_str(), t) {
            proof {
                assert(views(v@)[i as int] == t@);
            }
            return true;
        }
        i += 1;
    }
    proof {
        assert(forall|j: int| 0 <= j < views(v@).len() ==> views(v@)[j] != t@);
    }
    false
}

/// `s` with every character that the whitespace set accepts removed.
pub open spec fn spec_without_spaces(s: Seq<char>) -> Seq<char> {
    s.filter(|c: char| !spec_is_space(c))
}

/// Removes every whitespace character from `s`.
pub fn without_spaces(s: &str) -> (r: String)
    ensures
        r@ == spec_without_spaces(s@),
{
    let n = s.unicode_len();
    let mut acc = String::new();
    let mut i: usize = 0;
    while i < n
        invariant
            i <= n,
            n == s@.len(),
            acc@ == spec_without_spaces(s@.take(i as int)),
        decreases n - i,
    {
        let c = s.get_char(i);
        if !is_space_char(c) {
            let piece = s.substring_char(i, i + 1);
            proof {
                assert(acc@ + piece@ =~= acc@.push(s@[i as int]));
            }
            acc.append(piece);
        }
        proof {
            reveal(Seq::filter);
            assert(s@.take(i + 1).drop_last() =~= s@.take(i as int));
            assert(s@.take(i + 1).last() == s@[i as int]);
        }
        i += 1;
    }
    proof {
        assert(s@.take(n as int) =~= s@);
    }
    acc
}

/// The strings of `v` in the opposite order.
pub fn reverse_strings(v: &Vec<String>) -> (r: Vec<String>)
    ensures
        r@.len() == v@.len(),
        forall|j: int| 0 <= j < r@.len() ==> (#[trigger] r@[j])@ == v@[v@.len() - 1 - j]@,
{
    let n = v.len();
    let mut out: Vec<String> = Vec::new();
    let mut i: usize = 0;
    while i < n
        invariant
            i <= n,
            n == v@.len(),
            out@.len() == i,
            forall|j: int| 0 <= j < i ==> (#[trigger] out@[j])@ == v@[n - 1 - j]@,
        decreases n - i,
    {
        out.push(v[n - 1 - i].clone());
        i += 1;
    }
    out
}

/// The last piece of `s` when split on `.`: the part after the final dot,
/// or all of `s` when it holds no dot.
pub open spec fn spec_last_segment(s: Seq<char>) -> Seq<char> {
    spec_split(s, '.').last()
}

/// Returns the part of `s` after its final `.`.
pub fn last_dot_segment(s: &str) -> (r: String)
    ensures
        r@ == spec_last_segment(s@),
{
    let parts = split_char(s, '.');
    let piece = parts[parts.len() - 1].clone();
    proof {
        assert(views(parts@).last() == spec_split(s@, '.').last());
    }
    piece
}

} // verus!
