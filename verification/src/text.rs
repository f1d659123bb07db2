//! Text as a vector of characters, and the few operations on it that the
//! command line and the address-space map need.
use vstd::prelude::*;
use vstd::string::*;

verus! {

/// The index of the first `c` in `s`, or the length of `s` where there is none.
pub open spec fn first_index_of(s: Seq<char>, c: char) -> int
    decreases s.len(),
{
    if s.len() == 0 {
        0
    } else if s[0] == c {
        0
    } else {
        1 + first_index_of(s.drop_first(), c)
    }
}

/// Whether `pattern` stands somewhere in `s`.
pub open spec fn has_substring(s: Seq<char>, pattern: Seq<char>) -> bool {
    exists|i: int|
        0 <= i <= s.len() - pattern.len() && #[trigger] s.subrange(i, i + pattern.len())
            == pattern
}

/// White space as `char::is_whitespace` has it.
pub open spec fn is_space(c: char) -> bool {
    let n = c as u32;
    ||| 0x09 <= n <= 0x0d
    ||| n == 0x20
    ||| n == 0x85
    ||| n == 0xa0
    ||| n == 0x1680
    ||| 0x2000 <= n <= 0x200a
    ||| n == 0x2028
    ||| n == 0x2029
    ||| n == 0x202f
    ||| n == 0x205f
    ||| n == 0x3000
}

/// `s` without the white space at its start.
pub open spec fn trim_start(s: Seq<char>) -> Seq<char>
    decreases s.len(),
{
    if s.len() > 0 && is_space(s[0]) {
        trim_start(s.drop_first())
    } else {
        s
    }
}

/// `s` without the white space at its end.
pub open spec fn trim_end(s: Seq<char>) -> Seq<char>
    decreases s.len(),
{
    if s.len() > 0 && is_space(s.last()) {
        trim_end(s.drop_last())
    } else {
        s
    }
}

/// `s` without the white space at either end.
pub open spec fn trim(s: Seq<char>) -> Seq<char> {
    trim_end(trim_start(s))
}

/// The arguments of a command line: the pieces between blanks, the empty
/// pieces dropped, each of the others trimmed.
pub open spec fn split_args(line: Seq<char>) -> Seq<Seq<char>>
    decreases line.len(),
{
    let cut = first_index_of(line, ' ');
    let rest = if 0 <= cut < line.len() {
        split_args(line.skip(cut + 1))
    } else {
        Seq::empty()
    };
    if cut <= 0 || cut > line.len() {
        rest
    } else {
        seq![trim(line.take(cut))] + rest
    }
}

/// The views of the texts in a vector.
pub open spec fn texts(v: Seq<Vec<char>>) -> Seq<Seq<char>> {
    v.map_values(|t: Vec<char>| t@)
}

/// The first `c` in `s` stands where no earlier character is `c`.
pub proof fn lemma_first_index_of(s: Seq<char>, c: char, n: int)
    requires
        0 <= n <= s.len(),
        forall|k: int| 0 <= k < n ==> s[k] != c,
        n < s.len() ==> s[n] == c,
    ensures
        first_index_of(s, c) == n,
    decreases s.len(),
{
    if s.len() > 0 && n > 0 {
        let rest = s.drop_first();
        assert forall|k: int| 0 <= k < n - 1 implies rest[k] != c by {
            assert(rest[k] == s[k + 1]);
        }
        lemma_first_index_of(rest, c, n - 1);
    }
}

/// Trimming the start skips exactly the white space that leads.
pub proof fn lemma_trim_start(s: Seq<char>, n: int)
    requires
        0 <= n <= s.len(),
        forall|k: int| 0 <= k < n ==> is_space(s[k]),
        n < s.len() ==> !is_space(s[n]),
    ensures
        trim_start(s) == s.skip(n),
    decreases s.len(),
{
    if n == 0 {
        assert(s.skip(0) == s);
    } else {
        let rest = s.drop_first();
        assert forall|k: int| 0 <= k < n - 1 implies is_space(rest[k]) by {
            assert(rest[k] == s[k + 1]);
        }
        lemma_trim_start(rest, n - 1);
        assert(rest.skip(n - 1) == s.skip(n));
    }
}

/// Trimming the end keeps exactly what stands before the white space that trails.
pub proof fn lemma_trim_end(s: Seq<char>, n: int)
    requires
        0 <= n <= s.len(),
        forall|k: int| n <= k < s.len() ==> is_space(s[k]),
        n > 0 ==> !is_space(s[n - 1]),
    ensures
        trim_end(s) == s.take(n),
    decreases s.len(),
{
    if n == s.len() {
        assert(s.take(n) == s);
    } else {
        let front = s.drop_last();
        lemma_trim_end(front, n);
        assert(front.take(n) == s.take(n));
    }
}

/// The characters of a string.
pub fn to_chars(s: &str) -> (v: Vec<char>)
    ensures
        v@ == s@,
{
    let mut v: Vec<char> = Vec::new();
    for c in it: s.chars()
        invariant
            v@ == it.seq().take(it.index() as int),
            it.seq() == s@,
    {
        v.push(c);
    }
    v
}

/// Whether a text holds exactly the characters of a string.
pub fn text_is(text: &Vec<char>, word: &str) -> (r: bool)
    ensures
        r == (text@ == word@),
{
    let other = to_chars(word);
    same_text(text, &other)
}

/// Whether two texts hold the same characters.
pub fn same_text(a: &Vec<char>, b: &Vec<char>) -> (r: bool)
    ensures
        r == (a@ == b@),
{
    if a.len() != b.len() {
        return false;
    }
    let mut i: usize = 0;
    while i < a.len()
        invariant
            i <= a.len(),
            a.len() == b.len(),
            forall|j: int| 0 <= j < i ==> a@[j] == b@[j],
        decreases a.len() - i,
    {
        if a[i] != b[i] {
            return false;
        }
        i = i + 1;
    }
    assert(a@ =~= b@);
    true
}

/// A copy of the characters of `text` from `begin` up to `end`.
pub fn copy_range(text: &Vec<char>, begin: usize, end: usize) -> (r: Vec<char>)
    requires
        begin <= end <= text.len(),
    ensures
        r@ == text@.subrange(begin as int, end as int),
{
    let mut r: Vec<char> = Vec::new();
    let mut i: usize = begin;
    while i < end
        invariant
            begin <= i <= end <= text.len(),
            r@ == text@.subrange(begin as int, i as int),
        decreases end - i,
    {
        r.push(text[i]);
        proof {
            assert(r@ =~= text@.subrange(begin as int, i + 1));
        }
        i = i + 1;
    }
    r
}

/// The index of the first `c` in `text` at or after `begin` and before
/// `end`, or `end` where there is none.
pub fn find_char(text: &Vec<char>, begin: usize, end: usize, c: char) -> (r: usize)
    requires
        begin <= end <= text.len(),
    ensures
        begin <= r <= end,
        r - begin == first_index_of(text@.subrange(begin as int, end as int), c),
        forall|k: int| begin <= k < r ==> text@[k] != c,
        r < end ==> text@[r as int] == c,
{
    let mut i: usize = begin;
    while i < end && text[i] != c
        invariant
            begin <= i <= end <= text.len(),
            forall|k: int| begin <= k < i ==> text@[k] != c,
        decreases end - i,
    {
        i = i + 1;
    }
    proof {
        lemma_first_index_of(text@.subrange(begin as int, end as int), c, i - begin);
    }
    i
}

/// Whether `pattern` stands somewhere in `text` between `begin` and `end`.
pub fn contains_text(text: &Vec<char>, begin: usize, end: usize, pattern: &Vec<char>) -> (r: bool)
    requires
        begin <= end <= text.len(),
    ensures
        r == has_substring(text@.subrange(begin as int, end as int), pattern@),
{
    let ghost s = text@.subrange(begin as int, end as int);
    let n: usize = pattern.len();
    if end - begin < n {
        return false;
    }
    let last: usize = end - n;
    let mut i: usize = begin;
    while i <= last
        invariant
            begin <= i <= last + 1,
            last + n == end,
            end <= text.len(),
            n == pattern.len(),
            s == text@.subrange(begin as int, end as int),
            forall|k: int| 0 <= k < i - begin ==> #[trigger] s.subrange(k, k + n) != pattern@,
        decreases last + 1 - i,
    {
        let mut j: usize = 0;
        while j < n && text[i + j] == pattern[j]
            invariant
                j <= n,
                n == pattern.len(),
                i + n <= text.len(),
                forall|k: int| 0 <= k < j ==> text@[i + k] == pattern@[k],
            decreases n - j,
        {
            j = j + 1;
        }
        if j == n {
            proof {
                assert(s.subrange(i - begin, i - begin + n) =~= pattern@);
            }
            return true;
        }
        proof {
            let window = s.subrange(i - begin, i - begin + n);
            assert(window[j as int] == text@[i + j]);
        }
        i = i + 1;
    }
    false
}

/// Whether a character is white space.
pub fn space_char(c: char) -> (r: bool)
    ensures
        r == is_space(c),
{
    let n: u32 = c as u32;
    (0x09 <= n && n <= 0x0d) || n == 0x20 || n == 0x85 || n == 0xa0 || n == 0x1680 || (0x2000 <= n
        && n <= 0x200a) || n == 0x2028 || n == 0x2029 || n == 0x202f || n == 0x205f || n == 0x3000
}

/// A copy of the characters of `text` from `begin` up to `end`, without the
/// white space at either end.
pub fn trimmed_range(text: &Vec<char>, begin: usize, end: usize) -> (r: Vec<char>)
    requires
        begin <= end <= text.len(),
    ensures
        r@ == trim(text@.subrange(begin as int, end as int)),
{
    let ghost s = text@.subrange(begin as int, end as int);
    let mut a: usize = begin;
    while a < end && space_char(text[a])
        invariant
            begin <= a <= end <= text.len(),
            forall|k: int| begin <= k < a ==> is_space(text@[k]),
        decreases end - a,
    {
        a = a + 1;
    }
    let mut b: usize = end;
    while b > a && space_char(text[b - 1])
        invariant
            a <= b <= end <= text.len(),
            forall|k: int| b <= k < end ==> is_space(text@[k]),
        decreases b,
    {
        b = b - 1;
    }
    proof {
        lemma_trim_start(s, a - begin);
        let t = s.skip(a - begin);
        assert(t =~= text@.subrange(a as int, end as int));
        if b > a {
            assert(t[b - a - 1] == text@[b - 1]);
        }
        lemma_trim_end(t, b - a);
        assert(t.take(b - a) =~= text@.subrange(a as int, b as int));
    }
    copy_range(text, a, b)
}

/// Splits a command line into its arguments.
pub fn split_line(line: &Vec<char>) -> (args: Vec<Vec<char>>)
    ensures
        texts(args@) == split_args(line@),
{
    let mut args: Vec<Vec<char>> = Vec::new();
    let mut pos: usize = 0;
    let mut done: bool = false;
    proof {
        assert(line@.skip(0) == line@);
        assert(texts(args@) + split_args(line@) =~= split_args(line@));
    }
    while !done
        invariant
            pos <= line.len(),
            texts(args@) + (if done {
                Seq::<Seq<char>>::empty()
            } else {
                split_args(line@.skip(pos as int))
            }) == split_args(line@),
        decreases line.len() - pos + (if done { 0int } else { 1int }),
    {
        let ghost rest = line@.skip(pos as int);
        let ghost before = texts(args@);
        let cut: usize = find_char(line, pos, line.len(), ' ');
        proof {
            assert(line@.subrange(pos as int, line.len() as int) == rest);
            assert(rest.take(cut - pos) =~= line@.subrange(pos as int, cut as int));
            if cut < line.len() {
                assert(rest.skip(cut - pos + 1) =~= line@.skip(cut + 1));
            }
        }
        if cut > pos {
            let piece = trimmed_range(line, pos, cut);
            args.push(piece);
            proof {
                assert(texts(args@) =~= before + seq![trim(rest.take(cut - pos))]);
            }
        }
        if cut < line.len() {
            pos = cut + 1;
        } else {
            done = true;
        }
        proof {
            let tail = if done {
                Seq::<Seq<char>>::empty()
            } else {
                split_args(line@.skip(pos as int))
            };
            assert(texts(args@) + tail =~= before + split_args(rest));
        }
    }
    proof {
        assert(texts(args@) + Seq::<Seq<char>>::empty() =~= texts(args@));
    }
    args
}

} // verus!
