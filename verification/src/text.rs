//! Small verified text utilities: substring search, string equality and
//! decimal rendering of integers.

use vstd::prelude::*;

verus! {

/// `pat` occurs in `s` as a contiguous run starting at index `i`.
pub open spec fn is_match_at(s: Seq<char>, pat: Seq<char>, i: int) -> bool {
    &&& 0 <= i
    &&& i + pat.len() <= s.len()
    &&& forall|j: int| 0 <= j < pat.len() ==> s[i + j] == pat[j]
}

/// `pat` occurs somewhere in `s` as a contiguous run.
pub open spec fn has_substring(s: Seq<char>, pat: Seq<char>) -> bool {
    exists|i: int| is_match_at(s, pat, i)
}

/// Substring test by scanning every candidate start position.
pub fn contains_sub(s: &str, pat: &str) -> (r: bool)
    ensures
        r == has_substring(s@, pat@),
{
    let n: usize = s.unicode_len();
    let m: usize = pat.unicode_len();
    if m > n {
        return false;
    }
    let mut i: usize = 0;
    while i <= n - m
        invariant
            m <= n <= usize::MAX,
            n == s@.len(),
            m == pat@.len(),
            i <= n - m + 1,
            forall|k: int| 0 <= k < i ==> !is_match_at(s@, pat@, k),
        decreases n - m - i + 1,
    {
        let mut j: usize = 0;
        let mut mismatch = false;
        while j < m && !mismatch
            invariant
                m <= n <= usize::MAX,
                n == s@.len(),
                m == pat@.len(),
                i + m <= n,
                j <= m,
                !mismatch ==> forall|l: int| 0 <= l < j ==> s@[i + l] == pat@[l],
                mismatch ==> !is_match_at(s@, pat@, i as int),
            decreases m - j + (if mismatch { 0int } else { 1int }),
        {
            if s.get_char(i + j) != pat.get_char(j) {
                mismatch = true;
            } else {
                j += 1;
            }
        }
        if !mismatch {
            assert(is_match_at(s@, pat@, i as int));
            return true;
        }
        i += 1;
    }
    assert(forall|k: int| is_match_at(s@, pat@, k) ==> 0 <= k <= n - m);
    false
}

/// Character-wise string equality, stated over the views.
pub fn str_eq(a: &str, b: &str) -> (r: bool)
    ensures
        r == (a@ == b@),
{
    let n: usize = a.unicode_len();
    if n != b.unicode_len() {
        return false;
    }
    let mut i: usize = 0;
    while i < n
        invariant
            n == a@.len(),
            n == b@.len(),
            i <= n,
            forall|k: int| 0 <= k < i ==> a@[k] == b@[k],
        decreases n - i,
    {
        if a.get_char(i) != b.get_char(i) {
            return false;
        }
        i += 1;
    }
    assert(a@ =~= b@);
    true
}

/// The Unicode `White_Space` characters, by code point: the set that
/// `str::trim` removes. Text holding only these records no event.
pub open spec fn is_whitespace_char(c: char) -> bool {
    let u = c as u32;
    ||| u == 0x09 || u == 0x0A || u == 0x0B || u == 0x0C || u == 0x0D || u == 0x20
    ||| u == 0x85 || u == 0xA0 || u == 0x1680
    ||| 0x2000 <= u && u <= 0x200A
    ||| u == 0x2028 || u == 0x2029 || u == 0x202F || u == 0x205F || u == 0x3000
}

/// Whitespace test over the code point.
pub fn is_whitespace_exec(c: char) -> (r: bool)
    ensures
        r == is_whitespace_char(c),
{
    let u = c as u32;
    u == 0x09 || u == 0x0A || u == 0x0B || u == 0x0C || u == 0x0D || u == 0x20 || u == 0x85
        || u == 0xA0 || u == 0x1680 || (0x2000 <= u && u <= 0x200A) || u == 0x2028 || u == 0x2029
        || u == 0x202F || u == 0x205F || u == 0x3000
}

/// A piece of text is blank when every character of it is whitespace:
/// exactly when trimming would leave nothing.
pub open spec fn is_blank(l: Seq<char>) -> bool {
    forall|i: int| 0 <= i < l.len() ==> is_whitespace_char(#[trigger] l[i])
}

/// The view of an optional borrowed string.
pub open spec fn opt_view(o: Option<&str>) -> Option<Seq<char>> {
    match o {
        Some(s) => Some(s@),
        None => None,
    }
}

/// Index of the first occurrence of `c` in `s`, or `s.len()` when there is
/// none.
pub open spec fn char_index(s: Seq<char>, c: char) -> int
    decreases s.len(),
{
    if s.len() == 0 {
        0
    } else if s[0] == c {
        0
    } else {
        1 + char_index(s.drop_first(), c)
    }
}

pub proof fn lemma_char_index_bound(s: Seq<char>, c: char)
    ensures
        0 <= char_index(s, c) <= s.len(),
        char_index(s, c) < s.len() ==> s[char_index(s, c)] == c,
        forall|j: int| 0 <= j < char_index(s, c) ==> s[j] != c,
    decreases s.len(),
{
    if s.len() != 0 && s[0] != c {
        lemma_char_index_bound(s.drop_first(), c);
        assert forall|j: int| 0 <= j < char_index(s, c) implies s[j] != c by {
            if j > 0 {
                assert(s.drop_first()[j - 1] == s[j]);
            }
        }
    }
}

/// A scan that found no `c` before `k`, and a `c` (or the end) at `k`,
/// found exactly `char_index`.
pub proof fn lemma_char_index_unique(s: Seq<char>, c: char, k: int)
    requires
        0 <= k <= s.len(),
        forall|j: int| 0 <= j < k ==> s[j] != c,
        k < s.len() ==> s[k] == c,
    ensures
        char_index(s, c) == k,
    decreases s.len(),
{
    if s.len() != 0 && s[0] != c {
        lemma_char_index_unique(s.drop_first(), c, k - 1);
    }
}

/// A trailing carriage return removed: a line ending may be `\n` or
/// `\r\n`, and either way the ending is no part of the line.
pub open spec fn strip_cr(l: Seq<char>) -> Seq<char> {
    if l.len() > 0 && l.last() == '\r' {
        l.drop_last()
    } else {
        l
    }
}

/// `s` cut at every newline, as `str::lines` cuts it: a piece before a
/// newline loses a trailing carriage return, the ending itself is not
/// part of any piece, and a final piece after the last newline appears
/// only when it is non-empty (and keeps a lone trailing carriage return,
/// which ends no line).
pub open spec fn split_lines(s: Seq<char>) -> Seq<Seq<char>>
    decreases s.len(),
{
    if s.len() == 0 {
        Seq::empty()
    } else {
        let i = char_index_at(s, '\n');
        if i == s.len() {
            seq![s]
        } else {
            seq![strip_cr(s.subrange(0, i))] + split_lines(s.subrange(i + 1, s.len() as int))
        }
    }
}

/// `char_index` packaged with its bounds, so that recursion over the piece
/// after the separator is well-founded by construction.
pub open spec fn char_index_at(s: Seq<char>, c: char) -> int {
    let i = char_index(s, c);
    if 0 <= i <= s.len() {
        i
    } else {
        s.len() as int
    }
}

/// The blank pieces removed, keeping the order of the rest.
pub open spec fn drop_blank(ls: Seq<Seq<char>>) -> Seq<Seq<char>>
    decreases ls.len(),
{
    if ls.len() == 0 {
        Seq::empty()
    } else if is_blank(ls.first()) {
        drop_blank(ls.drop_first())
    } else {
        seq![ls.first()] + drop_blank(ls.drop_first())
    }
}

/// The non-blank lines of `s`, in order: the event records the summary is
/// computed from.
pub open spec fn nonblank_lines(s: Seq<char>) -> Seq<Seq<char>> {
    drop_blank(split_lines(s))
}

/// The views of a sequence of strings.
pub open spec fn views(v: Seq<String>) -> Seq<Seq<char>> {
    v.map_values(|l: String| l@)
}

/// Blank test.
pub fn is_blank_exec(s: &str) -> (r: bool)
    ensures
        r == is_blank(s@),
{
    let n: usize = s.unicode_len();
    let mut i: usize = 0;
    while i < n
        invariant
            n == s@.len(),
            i <= n,
            forall|k: int| 0 <= k < i ==> is_whitespace_char(#[trigger] s@[k]),
        decreases n - i,
    {
        if !is_whitespace_exec(s.get_char(i)) {
            return false;
        }
        i += 1;
    }
    true
}

/// Index of the first occurrence of `c`, or the length when there is none.
pub fn find_char(s: &str, c: char) -> (r: usize)
    ensures
        r == char_index(s@, c),
        r <= s@.len(),
{
    let n: usize = s.unicode_len();
    let mut i: usize = 0;
    while i < n
        invariant
            n == s@.len(),
            i <= n,
            forall|k: int| 0 <= k < i ==> s@[k] != c,
        decreases n - i,
    {
        if s.get_char(i) == c {
            proof {
                lemma_char_index_unique(s@, c, i as int);
            }
            return i;
        }
        i += 1;
    }
    proof {
        lemma_char_index_unique(s@, c, n as int);
    }
    n
}

/// The non-blank lines of `s`, each as an owned string.
pub fn split_nonblank_lines(s: &str) -> (out: Vec<String>)
    ensures
        views(out@) == nonblank_lines(s@),
    decreases s@.len(),
{
    let n: usize = s.unicode_len();
    let mut out: Vec<String> = Vec::new();
    if n == 0 {
        assert(views(out@) =~= nonblank_lines(s@));
        return out;
    }
    let i = find_char(s, '\n');
    proof {
        lemma_char_index_bound(s@, '\n');
    }
    if i == n {
        if !is_blank_exec(s) {
            out.push(String::from_str(s));
        }
        proof {
            reveal_with_fuel(drop_blank, 3);
            assert(split_lines(s@) =~= seq![s@]);
            assert(seq![s@].drop_first() =~= Seq::<Seq<char>>::empty());
            if is_blank(s@) {
                assert(drop_blank(seq![s@]) =~= Seq::<Seq<char>>::empty());
            } else {
                assert(drop_blank(seq![s@]) =~= seq![s@]);
            }
            assert(views(out@) =~= nonblank_lines(s@));
        }
        out
    } else {
        let head = if i > 0 && s.get_char(i - 1) == '\r' {
            s.substring_char(0, i - 1)
        } else {
            s.substring_char(0, i)
        };
        let rest = s.substring_char(i + 1, n);
        proof {
            let piece = s@.subrange(0, i as int);
            if i > 0 && s@[i - 1] == '\r' {
                assert(piece.last() == '\r');
                assert(piece.drop_last() =~= s@.subrange(0, i - 1));
            }
            assert(head@ == strip_cr(piece));
        }
        if !is_blank_exec(head) {
            out.push(String::from_str(head));
        }
        let mut tail = split_nonblank_lines(rest);
        out.append(&mut tail);
        proof {
            let ls = split_lines(s@);
            assert(ls.first() == strip_cr(s@.subrange(0, i as int)));
            assert(ls.drop_first() =~= split_lines(s@.subrange(i + 1, n as int)));
            assert(views(out@) =~= nonblank_lines(s@));
        }
        out
    }
}

/// The character for a single decimal digit.
pub open spec fn digit_char(d: nat) -> char {
    if d == 0 {
        '0'
    } else if d == 1 {
        '1'
    } else if d == 2 {
        '2'
    } else if d == 3 {
        '3'
    } else if d == 4 {
        '4'
    } else if d == 5 {
        '5'
    } else if d == 6 {
        '6'
    } else if d == 7 {
        '7'
    } else if d == 8 {
        '8'
    } else {
        '9'
    }
}

/// The usual decimal rendering of a natural number, without leading zeros
/// (except for the number zero itself).
pub open spec fn dec_str(n: nat) -> Seq<char>
    decreases n,
{
    if n < 10 {
        seq![digit_char(n)]
    } else {
        dec_str(n / 10) + seq![digit_char(n % 10)]
    }
}

/// One decimal digit as a string slice.
pub(crate) fn digit_str(d: usize) -> (r: &'static str)
    requires
        d < 10,
    ensures
        r@ == seq![digit_char(d as nat)],
{
    proof {
        reveal_strlit("0");
        reveal_strlit("1");
        reveal_strlit("2");
        reveal_strlit("3");
        reveal_strlit("4");
        reveal_strlit("5");
        reveal_strlit("6");
        reveal_strlit("7");
        reveal_strlit("8");
        reveal_strlit("9");
    }
    let r: &'static str = if d == 0 {
        "0"
    } else if d == 1 {
        "1"
    } else if d == 2 {
        "2"
    } else if d == 3 {
        "3"
    } else if d == 4 {
        "4"
    } else if d == 5 {
        "5"
    } else if d == 6 {
        "6"
    } else if d == 7 {
        "7"
    } else if d == 8 {
        "8"
    } else {
        "9"
    };
    proof {
        assert(r@ =~= seq![digit_char(d as nat)]);
    }
    r
}

/// Decimal rendering of a `usize`.
pub fn usize_to_string(n: usize) -> (s: String)
    ensures
        s@ == dec_str(n as nat),
    decreases n,
{
    if n < 10 {
        String::from_str(digit_str(n))
    } else {
        let mut s = usize_to_string(n / 10);
        s.append(digit_str(n % 10));
        s
    }
}

} // verus!
