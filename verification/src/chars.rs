//! Text as a sequence of characters: the operations on which line
//! classification and tokenization rest, each with its mathematical meaning.

use vstd::prelude::*;

verus! {

/// The characters that count as white space: the code points that carry
/// Unicode's `White_Space` property.
pub open spec fn is_space(c: char) -> bool {
    let u = c as u32;
    ||| 0x09 <= u <= 0x0D
    ||| u == 0x20
    ||| u == 0x85
    ||| u == 0xA0
    ||| u == 0x1680
    ||| 0x2000 <= u <= 0x200A
    ||| u == 0x2028
    ||| u == 0x2029
    ||| u == 0x202F
    ||| u == 0x205F
    ||| u == 0x3000
}

/// `s` without its leading white space.
pub open spec fn trimmed_start(s: Seq<char>) -> Seq<char>
    decreases s.len(),
{
    if s.len() > 0 && is_space(s[0]) {
        trimmed_start(s.drop_first())
    } else {
        s
    }
}

/// `s` without its trailing white space.
pub open spec fn trimmed_end(s: Seq<char>) -> Seq<char>
    decreases s.len(),
{
    if s.len() > 0 && is_space(s.last()) {
        trimmed_end(s.drop_last())
    } else {
        s
    }
}

/// `s` without the white space at either end.
pub open spec fn trimmed(s: Seq<char>) -> Seq<char> {
    trimmed_end(trimmed_start(s))
}

/// `p` stands in `s` at position `i`.
pub open spec fn occurs_at(s: Seq<char>, p: Seq<char>, i: int) -> bool {
    0 <= i && i + p.len() <= s.len() && s.subrange(i, i + p.len()) == p
}

/// `s` begins with `p`.
pub open spec fn has_prefix(s: Seq<char>, p: Seq<char>) -> bool {
    occurs_at(s, p, 0)
}

/// `p` stands somewhere in `s`.
pub open spec fn occurs(s: Seq<char>, p: Seq<char>) -> bool {
    exists|i: int| occurs_at(s, p, i)
}

/// `s` with every occurrence of `p` taken out, found from left to right
/// without overlap. An empty `p` takes nothing out.
pub open spec fn without(s: Seq<char>, p: Seq<char>) -> Seq<char>
    decreases s.len(),
{
    if p.len() == 0 || s.len() < p.len() {
        s
    } else if has_prefix(s, p) {
        without(s.skip(p.len() as int), p)
    } else {
        seq![s[0]] + without(s.drop_first(), p)
    }
}

/// `s` with every leading repetition of `p` taken off. An empty `p` takes
/// nothing off.
pub open spec fn without_leading(s: Seq<char>, p: Seq<char>) -> Seq<char>
    decreases s.len(),
{
    if p.len() > 0 && has_prefix(s, p) {
        without_leading(s.skip(p.len() as int), p)
    } else {
        s
    }
}

/// The position of the first `c` in `s`, or the length of `s` if it holds none.
pub open spec fn first_index(s: Seq<char>, c: char) -> int
    decreases s.len(),
{
    if s.len() == 0 {
        0
    } else if s[0] == c {
        0
    } else {
        1 + first_index(s.drop_first(), c)
    }
}

/// The pieces of `s` that lie between the occurrences of `c`. There is always
/// at least one piece, and a piece may be empty.
pub open spec fn pieces(s: Seq<char>, c: char) -> Seq<Seq<char>>
    decreases s.len(),
{
    let i = first_index(s, c);
    if 0 <= i < s.len() {
        seq![s.take(i)] + pieces(s.skip(i + 1), c)
    } else {
        seq![s]
    }
}

/// `l` without one trailing carriage return.
pub open spec fn without_cr(l: Seq<char>) -> Seq<char> {
    if l.len() > 0 && l.last() == '\r' {
        l.drop_last()
    } else {
        l
    }
}

/// The lines of `s`. A line ends at a line feed, and a carriage return just
/// before that line feed belongs to the line ending. The last line needs no
/// line ending, and an empty text has no line.
pub open spec fn lines_of(s: Seq<char>) -> Seq<Seq<char>>
    decreases s.len(),
{
    let i = first_index(s, '\n');
    if s.len() == 0 {
        Seq::empty()
    } else if 0 <= i < s.len() {
        seq![without_cr(s.take(i))] + lines_of(s.skip(i + 1))
    } else {
        seq![s]
    }
}

/// The texts that a sequence of character vectors holds.
pub open spec fn texts(v: Seq<Vec<char>>) -> Seq<Seq<char>> {
    v.map_values(|x: Vec<char>| x@)
}

/// The decimal value of `c`, for the ten ASCII digits.
pub open spec fn digit_value(c: char) -> Option<u32> {
    if '0' <= c <= '9' {
        Some((c as u32 - '0' as u32) as u32)
    } else {
        None
    }
}

/// The first index lies within the text or at its end. No `c` stands before
/// it, and `c` stands at it unless it is the end.
pub proof fn lemma_first_index_bounds(s: Seq<char>, c: char)
    ensures
        0 <= first_index(s, c) <= s.len(),
        first_index(s, c) < s.len() ==> s[first_index(s, c)] == c,
        forall|k: int| 0 <= k < first_index(s, c) ==> s[k] != c,
    decreases s.len(),
{
    if s.len() > 0 && s[0] != c {
        let t = s.drop_first();
        lemma_first_index_bounds(t, c);
        assert forall|k: int| 0 <= k < first_index(s, c) implies s[k] != c by {
            if k > 0 {
                assert(s[k] == t[k - 1]);
            }
        }
    }
}

/// The first index is the one position before which no `c` stands and at
/// which `c` stands or the text ends.
pub proof fn lemma_first_index_is(s: Seq<char>, c: char, j: int)
    requires
        0 <= j <= s.len(),
        forall|k: int| 0 <= k < j ==> s[k] != c,
        j < s.len() ==> s[j] == c,
    ensures
        first_index(s, c) == j,
{
    lemma_first_index_bounds(s, c);
    let i = first_index(s, c);
    if i < j {
        assert(s[i] != c);
    }
}

/// White space at the start of a text does not count for what is left of it
/// after trimming its start.
pub proof fn lemma_trimmed_start_skip(s: Seq<char>, i: int)
    requires
        0 <= i <= s.len(),
        forall|k: int| 0 <= k < i ==> is_space(s[k]),
    ensures
        trimmed_start(s) == trimmed_start(s.skip(i)),
    decreases i,
{
    if i > 0 {
        let t = s.drop_first();
        assert forall|k: int| 0 <= k < i - 1 implies is_space(t[k]) by {
            assert(t[k] == s[k + 1]);
        }
        lemma_trimmed_start_skip(t, i - 1);
        assert(t.skip(i - 1) =~= s.skip(i));
    } else {
        assert(s.skip(0) =~= s);
    }
}

/// White space at the end of a text does not count for what is left of it
/// after trimming its end.
pub proof fn lemma_trimmed_end_take(s: Seq<char>, j: int)
    requires
        0 <= j <= s.len(),
        forall|k: int| j <= k < s.len() ==> is_space(s[k]),
    ensures
        trimmed_end(s) == trimmed_end(s.take(j)),
    decreases s.len() - j,
{
    if j < s.len() {
        let t = s.drop_last();
        lemma_trimmed_end_take(t, j);
        assert(t.take(j) =~= s.take(j));
    } else {
        assert(s.take(j) =~= s);
    }
}

/// Whether `c` is white space.
pub fn is_space_char(c: char) -> (r: bool)
    ensures
        r == is_space(c),
{
    let u: u32 = c as u32;
    (0x09 <= u && u <= 0x0D) || u == 0x20 || u == 0x85 || u == 0xA0 || u == 0x1680 || (0x2000 <= u
        && u <= 0x200A) || u == 0x2028 || u == 0x2029 || u == 0x202F || u == 0x205F || u == 0x3000
}

/// The decimal value of an ASCII digit.
pub fn to_digit(c: char) -> (r: Option<u32>)
    ensures
        r == digit_value(c),
{
    if '0' <= c && c <= '9' {
        Some(c as u32 - '0' as u32)
    } else {
        None
    }
}

/// Copies the characters of `s` from position `from` up to `to`.
pub fn copy_range(s: &[char], from: usize, to: usize) -> (out: Vec<char>)
    requires
        from <= to <= s@.len(),
    ensures
        out@ == s@.subrange(from as int, to as int),
{
    let mut out: Vec<char> = Vec::new();
    let mut i: usize = from;
    while i < to
        invariant
            from <= i <= to <= s@.len(),
            out@ == s@.subrange(from as int, i as int),
        decreases to - i,
    {
        out.push(s[i]);
        i += 1;
    }
    out
}

/// Takes the white space off both ends of `s`.
pub fn trim(s: &[char]) -> (out: Vec<char>)
    ensures
        out@ == trimmed(s@),
{
    let n: usize = s.len();
    let mut i: usize = 0;
    while i < n && is_space_char(s[i])
        invariant
            i <= n == s@.len(),
            forall|k: int| 0 <= k < i ==> is_space(s@[k]),
        decreases n - i,
    {
        i += 1;
    }
    let mut j: usize = n;
    while j > i && is_space_char(s[j - 1])
        invariant
            i <= j <= n == s@.len(),
            forall|k: int| j <= k < n ==> is_space(s@[k]),
        decreases j,
    {
        j -= 1;
    }
    proof {
        let rest = s@.skip(i as int);
        lemma_trimmed_start_skip(s@, i as int);
        assert(trimmed_start(rest) == rest);
        assert forall|k: int| j - i <= k < rest.len() implies is_space(rest[k]) by {
            assert(rest[k] == s@[k + i]);
        }
        lemma_trimmed_end_take(rest, j - i);
        assert(rest.take(j - i) =~= s@.subrange(i as int, j as int));
        let kept = s@.subrange(i as int, j as int);
        if kept.len() > 0 {
            assert(kept.last() == s@[j - 1]);
        }
        assert(trimmed_end(kept) == kept);
    }
    copy_range(s, i, j)
}

/// Whether `p` stands in `s` at position `i`.
pub fn occurs_here(s: &[char], p: &[char], i: usize) -> (r: bool)
    ensures
        r == occurs_at(s@, p@, i as int),
{
    let n: usize = s.len();
    let m: usize = p.len();
    if i > n || m > n - i {
        return false;
    }
    let mut k: usize = 0;
    while k < m
        invariant
            i + m <= n == s@.len(),
            m == p@.len(),
            k <= m,
            forall|j: int| 0 <= j < k ==> s@[i + j] == p@[j],
        decreases m - k,
    {
        if s[i + k] != p[k] {
            proof {
                assert(s@.subrange(i as int, i + m)[k as int] == s@[i + k]);
            }
            return false;
        }
        k += 1;
    }
    proof {
        assert(s@.subrange(i as int, i + m) =~= p@);
    }
    true
}

/// Whether `s` begins with `p`.
pub fn starts_with(s: &[char], p: &[char]) -> (r: bool)
    ensures
        r == has_prefix(s@, p@),
{
    occurs_here(s, p, 0)
}

/// The leftmost position at which `p` stands in `s`.
pub fn find(s: &[char], p: &[char]) -> (r: Option<usize>)
    ensures
        match r {
            Some(i) => occurs_at(s@, p@, i as int) && forall|j: int|
                0 <= j < i ==> !occurs_at(s@, p@, j),
            None => !occurs(s@, p@),
        },
{
    let n: usize = s.len();
    let m: usize = p.len();
    if m > n {
        return None;
    }
    let last: usize = n - m;
    let mut i: usize = 0;
    while i < last
        invariant
            m <= n == s@.len(),
            m == p@.len(),
            last == n - m,
            i <= last,
            forall|j: int| 0 <= j < i ==> !occurs_at(s@, p@, j),
        decreases last - i,
    {
        if occurs_here(s, p, i) {
            return Some(i);
        }
        i += 1;
    }
    if occurs_here(s, p, last) {
        Some(last)
    } else {
        None
    }
}

/// Whether `p` stands somewhere in `s`.
pub fn contains(s: &[char], p: &[char]) -> (r: bool)
    ensures
        r == occurs(s@, p@),
{
    find(s, p).is_some()
}

/// Takes every occurrence of `p` out of `s`.
pub fn remove_all(s: &[char], p: &[char]) -> (out: Vec<char>)
    ensures
        out@ == without(s@, p@),
{
    let n: usize = s.len();
    let m: usize = p.len();
    if m == 0 {
        let whole = copy_range(s, 0, n);
        proof {
            assert(s@.subrange(0, n as int) =~= s@);
        }
        return whole;
    }
    let mut out: Vec<char> = Vec::new();
    let mut i: usize = 0;
    proof {
        assert(s@.skip(0) =~= s@);
        assert(out@ + without(s@, p@) =~= without(s@, p@));
    }
    while i < n
        invariant
            i <= n == s@.len(),
            0 < m == p@.len(),
            without(s@, p@) == out@ + without(s@.skip(i as int), p@),
        decreases n - i,
    {
        let rest = Ghost(s@.skip(i as int));
        if occurs_here(s, p, i) {
            proof {
                assert(rest@.subrange(0, m as int) =~= s@.subrange(i as int, i + m));
                assert(rest@.skip(m as int) =~= s@.skip(i + m));
            }
            i += m;
        } else {
            proof {
                if rest@.len() >= m {
                    assert(rest@.subrange(0, m as int) =~= s@.subrange(i as int, i + m));
                    assert(rest@.drop_first() =~= s@.skip(i + 1));
                    assert(out@ + (seq![rest@[0]] + without(rest@.drop_first(), p@)) =~= out@.push(
                        s@[i as int],
                    ) + without(s@.skip(i + 1), p@));
                } else {
                    lemma_without_short(rest@, p@);
                    lemma_without_short(s@.skip(i + 1), p@);
                    assert(out@ + rest@ =~= out@.push(s@[i as int]) + s@.skip(i + 1));
                }
            }
            out.push(s[i]);
            i += 1;
        }
    }
    proof {
        assert(s@.skip(n as int) =~= Seq::<char>::empty());
        assert(out@ + Seq::<char>::empty() =~= out@);
    }
    out
}

/// A text shorter than `p` holds no occurrence of it.
pub proof fn lemma_without_short(s: Seq<char>, p: Seq<char>)
    requires
        s.len() < p.len(),
    ensures
        without(s, p) == s,
{
}

/// Takes every leading repetition of `p` off `s`.
pub fn strip_leading(s: &[char], p: &[char]) -> (out: Vec<char>)
    ensures
        out@ == without_leading(s@, p@),
{
    let n: usize = s.len();
    let m: usize = p.len();
    let mut i: usize = 0;
    if m > 0 {
        proof {
            assert(s@.skip(0) =~= s@);
        }
        while occurs_here(s, p, i)
            invariant
                i <= n == s@.len(),
                0 < m == p@.len(),
                without_leading(s@, p@) == without_leading(s@.skip(i as int), p@),
            decreases n - i,
        {
            proof {
                let rest = s@.skip(i as int);
                assert(rest.subrange(0, m as int) =~= s@.subrange(i as int, i + m));
                assert(rest.skip(m as int) =~= s@.skip(i + m));
            }
            i += m;
        }
        proof {
            let rest = s@.skip(i as int);
            if rest.len() >= m {
                assert(rest.subrange(0, m as int) =~= s@.subrange(i as int, i + m));
            }
        }
    }
    copy_range(s, i, n)
}

/// Splits `s` at every `c`.
pub fn split_on(s: &[char], c: char) -> (out: Vec<Vec<char>>)
    ensures
        texts(out@) == pieces(s@, c),
{
    let n: usize = s.len();
    let mut out: Vec<Vec<char>> = Vec::new();
    let ghost mut done: Seq<Seq<char>> = Seq::empty();
    let mut start: usize = 0;
    let mut i: usize = 0;
    proof {
        assert(texts(out@) =~= done);
        assert(s@.skip(0) =~= s@);
        assert(done + pieces(s@, c) =~= pieces(s@, c));
    }
    while i < n
        invariant
            start <= i <= n == s@.len(),
            forall|k: int| start <= k < i ==> s@[k] != c,
            pieces(s@, c) == done + pieces(s@.skip(start as int), c),
            texts(out@) == done,
        decreases n - i,
    {
        if s[i] == c {
            let piece = copy_range(s, start, i);
            proof {
                let rest = s@.skip(start as int);
                assert forall|k: int| 0 <= k < i - start implies rest[k] != c by {
                    assert(rest[k] == s@[k + start]);
                }
                lemma_first_index_is(rest, c, i - start);
                assert(rest.take(i - start) =~= s@.subrange(start as int, i as int));
                assert(rest.skip(i - start + 1) =~= s@.skip(i + 1));
                assert(done + (seq![piece@] + pieces(s@.skip(i + 1), c)) =~= done.push(piece@)
                    + pieces(s@.skip(i + 1), c));
                done = done.push(piece@);
            }
            let ghost before = out@;
            out.push(piece);
            proof {
                assert(texts(out@) =~= texts(before).push(piece@));
            }
            start = i + 1;
        }
        i += 1;
    }
    let piece = copy_range(s, start, n);
    proof {
        let rest = s@.skip(start as int);
        assert forall|k: int| 0 <= k < rest.len() implies rest[k] != c by {
            assert(rest[k] == s@[k + start]);
        }
        lemma_first_index_is(rest, c, rest.len() as int);
        assert(rest =~= s@.subrange(start as int, n as int));
        assert(done + seq![piece@] =~= done.push(piece@));
        done = done.push(piece@);
    }
    let ghost before = out@;
    out.push(piece);
    proof {
        assert(texts(out@) =~= texts(before).push(piece@));
    }
    out
}

/// Splits `s` into its lines.
pub fn lines(s: &[char]) -> (out: Vec<Vec<char>>)
    ensures
        texts(out@) == lines_of(s@),
{
    let n: usize = s.len();
    let mut out: Vec<Vec<char>> = Vec::new();
    let ghost mut done: Seq<Seq<char>> = Seq::empty();
    let mut start: usize = 0;
    let mut i: usize = 0;
    proof {
        assert(texts(out@) =~= done);
        assert(s@.skip(0) =~= s@);
        assert(done + lines_of(s@) =~= lines_of(s@));
    }
    while i < n
        invariant
            start <= i <= n == s@.len(),
            forall|k: int| start <= k < i ==> s@[k] != '\n',
            lines_of(s@) == done + lines_of(s@.skip(start as int)),
            texts(out@) == done,
        decreases n - i,
    {
        if s[i] == '\n' {
            let end: usize = if i > start && s[i - 1] == '\r' {
                i - 1
            } else {
                i
            };
            let piece = copy_range(s, start, end);
            proof {
                let rest = s@.skip(start as int);
                assert forall|k: int| 0 <= k < i - start implies rest[k] != '\n' by {
                    assert(rest[k] == s@[k + start]);
                }
                lemma_first_index_is(rest, '\n', i - start);
                let line = rest.take(i - start);
                assert(line =~= s@.subrange(start as int, i as int));
                if line.len() > 0 {
                    assert(line.last() == s@[i - 1]);
                }
                assert(without_cr(line) =~= piece@);
                assert(rest.skip(i - start + 1) =~= s@.skip(i + 1));
                assert(done + (seq![piece@] + lines_of(s@.skip(i + 1))) =~= done.push(piece@)
                    + lines_of(s@.skip(i + 1)));
                done = done.push(piece@);
            }
            let ghost before = out@;
            out.push(piece);
            proof {
                assert(texts(out@) =~= texts(before).push(piece@));
            }
            start = i + 1;
        }
        i += 1;
    }
    if start < n {
        let piece = copy_range(s, start, n);
        proof {
            let rest = s@.skip(start as int);
            assert forall|k: int| 0 <= k < rest.len() implies rest[k] != '\n' by {
                assert(rest[k] == s@[k + start]);
            }
            lemma_first_index_is(rest, '\n', rest.len() as int);
            assert(rest =~= s@.subrange(start as int, n as int));
            assert(done + seq![piece@] =~= done.push(piece@));
            done = done.push(piece@);
        }
        let ghost before = out@;
        out.push(piece);
        proof {
            assert(texts(out@) =~= texts(before).push(piece@));
        }
    } else {
        proof {
            assert(s@.skip(start as int).len() == 0);
            assert(done + Seq::<Seq<char>>::empty() =~= done);
        }
    }
    out
}

/// The characters of `s`, one by one.
pub fn to_chars(s: &str) -> (v: Vec<char>)
    ensures
        v@ == s@,
{
    let mut v: Vec<char> = Vec::new();
    for c in it: s.chars()
        invariant
            v@ == it.seq().take(it.index() as int),
    {
        v.push(c);
    }
    v
}

/// `String::from_iter` over the characters of a slice: the string that holds
/// exactly these characters, in this order.
#[verifier::external_body]
pub(crate) fn collect_string(chars: &[char]) -> (out: String)
    ensures
        out@ == chars@,
{
    String::from_iter(chars)
}

/// Appends the characters of `src` to `dst`.
pub fn append(dst: &mut Vec<char>, src: &[char])
    ensures
        final(dst)@ == old(dst)@ + src@,
{
    let mut i: usize = 0;
    proof {
        assert(dst@ =~= old(dst)@ + src@.take(0));
    }
    while i < src.len()
        invariant
            i <= src@.len(),
            dst@ == old(dst)@ + src@.take(i as int),
        decreases src@.len() - i,
    {
        let ghost before = dst@;
        dst.push(src[i]);
        proof {
            assert(dst@ =~= old(dst)@ + src@.take(i + 1));
        }
        i += 1;
    }
    proof {
        assert(src@.take(src@.len() as int) =~= src@);
    }
}

} // verus!
