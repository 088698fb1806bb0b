//! Text as sequences of characters: the conversions and the few operations on
//! lines and words that the registry's rules are stated in.

use vstd::prelude::*;
use vstd::std_specs::iter::IteratorSpec;

verus! {

/// Whether `c` is white space: one of the twenty-five characters with the
/// Unicode property White_Space.
pub open spec fn white_space(c: char) -> bool {
    let n = c as u32;
    ||| 0x09 <= n <= 0x0d
    ||| n == 0x20
    ||| n == 0x85
    ||| n == 0xa0
    ||| n == 0x1680
    ||| 0x2000 <= n <= 0x200a
    ||| n == 0x2028
    ||| n == 0x2029
    ||| n == 0x202f
    ||| n == 0x205f
    ||| n == 0x3000
}

/// `char::is_whitespace` tells whether the character has the Unicode property
/// White_Space.
pub assume_specification[ char::is_whitespace ](c: char) -> (r: bool)
    ensures
        r == white_space(c),
;

/// `String::push` appends the given character to the end of the string.
pub assume_specification[ String::push ](s: &mut String, c: char)
    ensures
        final(s)@ == old(s)@.push(c),
;

/// A line is blank when it holds nothing but white space.
pub open spec fn is_blank(line: Seq<char>) -> bool {
    forall|i: int| 0 <= i < line.len() ==> white_space(#[trigger] line[i])
}

/// Whether `needle` occurs in `hay` as a run of consecutive characters.
pub open spec fn occurs_in(needle: Seq<char>, hay: Seq<char>) -> bool {
    exists|i: int| occurs_at(needle, hay, i)
}

/// Whether `needle` stands in `hay` at position `i`.
pub open spec fn occurs_at(needle: Seq<char>, hay: Seq<char>, i: int) -> bool {
    0 <= i && i + needle.len() <= hay.len() && hay.subrange(i, i + needle.len()) == needle
}

/// The length of the first line of `s`: the position of its first line feed,
/// or the length of `s` where it has none.
pub open spec fn first_line_len(s: Seq<char>) -> int
    decreases s.len(),
{
    if s.len() == 0 || s[0] == '\n' {
        0
    } else {
        1 + first_line_len(s.drop_first())
    }
}

/// A line without the carriage return that stood before its line feed.
pub open spec fn without_cr(line: Seq<char>) -> Seq<char> {
    if line.len() > 0 && line.last() == '\r' {
        line.drop_last()
    } else {
        line
    }
}

/// The lines of `s`. A line ends at a line feed, or at a carriage return
/// directly followed by one; the terminator is not part of the line. What
/// follows the last line feed is a line of its own unless it is empty, and a
/// carriage return at its end then stays.
pub open spec fn lines(s: Seq<char>) -> Seq<Seq<char>>
    decreases s.len(),
{
    if s.len() == 0 {
        Seq::empty()
    } else {
        let n = first_line_len(s);
        if 0 <= n < s.len() {
            seq![without_cr(s.subrange(0, n))] + lines(s.subrange(n + 1, s.len() as int))
        } else {
            seq![s]
        }
    }
}

/// The texts of `parts` one after the other, with `sep` between each two
/// neighbours.
pub open spec fn join(parts: Seq<Seq<char>>, sep: Seq<char>) -> Seq<char>
    decreases parts.len(),
{
    if parts.len() == 0 {
        Seq::empty()
    } else if parts.len() == 1 {
        parts[0]
    } else {
        join(parts.drop_last(), sep) + sep + parts.last()
    }
}

/// `s` without the run of `c` at its end.
pub open spec fn trim_end(s: Seq<char>, c: char) -> Seq<char>
    decreases s.len(),
{
    if s.len() > 0 && s.last() == c {
        trim_end(s.drop_last(), c)
    } else {
        s
    }
}

/// `first_line_len` is the first position that holds a line feed.
pub proof fn lemma_first_line_len(s: Seq<char>, n: int)
    requires
        0 <= n <= s.len(),
        forall|j: int| 0 <= j < n ==> s[j] != '\n',
        n == s.len() || s[n] == '\n',
    ensures
        first_line_len(s) == n,
    decreases n,
{
    if n > 0 {
        let t = s.drop_first();
        assert forall|j: int| 0 <= j < n - 1 implies t[j] != '\n' by {
            assert(t[j] == s[j + 1]);
        }
        lemma_first_line_len(t, n - 1);
    }
}

/// `trim_end` keeps a prefix that does not end in `c` and drops only `c`.
pub proof fn lemma_trim_end(s: Seq<char>, c: char, n: int)
    requires
        0 <= n <= s.len(),
        n == 0 || s[n - 1] != c,
        forall|j: int| n <= j < s.len() ==> s[j] == c,
    ensures
        trim_end(s, c) == s.subrange(0, n),
    decreases s.len(),
{
    if n < s.len() {
        let t = s.drop_last();
        lemma_trim_end(t, c, n);
        assert(t.subrange(0, n) == s.subrange(0, n));
    } else {
        assert(s.subrange(0, n) == s);
    }
}

/// The first line ends at or before every line feed.
pub proof fn lemma_first_line_len_bound(s: Seq<char>, k: int)
    requires
        0 <= k < s.len(),
        s[k] == '\n',
    ensures
        0 <= first_line_len(s) <= k,
        s[first_line_len(s)] == '\n',
    decreases s.len(),
{
    if s[0] != '\n' {
        let t = s.drop_first();
        assert(t[k - 1] == s[k]);
        lemma_first_line_len_bound(t, k - 1);
        assert(t[first_line_len(t)] == s[first_line_len(t) + 1]);
    }
}

/// A text that ends with a line feed ends a line there: what is appended to
/// it begins a new line.
pub proof fn lemma_lines_of_appended(a: Seq<char>, b: Seq<char>)
    requires
        a.len() == 0 || a.last() == '\n',
    ensures
        lines(a + b) == lines(a) + lines(b),
    decreases a.len(),
{
    if a.len() == 0 {
        assert(a + b =~= b);
        assert(lines(a) + lines(b) =~= lines(b));
    } else {
        let n = first_line_len(a);
        lemma_first_line_len_bound(a, a.len() - 1);
        let ab = a + b;
        assert(ab[n] == '\n');
        assert forall|j: int| 0 <= j < n implies ab[j] != '\n' by {
            if ab[j] == '\n' {
                lemma_first_line_len_bound(a, j);
            }
        }
        lemma_first_line_len(ab, n);
        let rest = a.subrange(n + 1, a.len() as int);
        assert(ab.subrange(0, n) =~= a.subrange(0, n));
        assert(ab.subrange(n + 1, ab.len() as int) =~= rest + b);
        if rest.len() > 0 {
            assert(rest.last() == a.last());
        }
        lemma_lines_of_appended(rest, b);
        assert(lines(ab) =~= lines(a) + lines(b));
    }
}

/// A text without a line feed, followed by one, is one line.
pub proof fn lemma_one_line(line: Seq<char>)
    requires
        forall|i: int| 0 <= i < line.len() ==> line[i] != '\n',
    ensures
        lines(line + seq!['\n']) == seq![without_cr(line)],
{
    let s = line + seq!['\n'];
    lemma_first_line_len(s, line.len() as int);
    assert(s.subrange(0, line.len() as int) =~= line);
    assert(s.subrange(line.len() as int + 1, s.len() as int) =~= Seq::<char>::empty());
    assert(lines(Seq::<char>::empty()) =~= Seq::<Seq<char>>::empty());
    assert(lines(s) =~= seq![without_cr(line)]);
}

/// The characters of `s`, in order.
pub fn chars_of(s: &str) -> (v: Vec<char>)
    ensures
        v@ == s@,
{
    let mut v: Vec<char> = Vec::new();
    for c in it: s.chars()
        invariant
            v@ == it.seq().take(it.index() as int),
            it.seq() == s@,
    {
        v.push(c);
    }
    v
}

/// The string made of the characters `v[from..to]`.
pub(crate) fn text_of(v: &Vec<char>, from: usize, to: usize) -> (s: String)
    requires
        from <= to <= v@.len(),
    ensures
        s@ == v@.subrange(from as int, to as int),
{
    let mut s = String::new();
    let mut i: usize = from;
    while i < to
        invariant
            from <= i <= to <= v@.len(),
            s@ == v@.subrange(from as int, i as int),
        decreases to - i,
    {
        s.push(v[i]);
        i += 1;
    }
    s
}

/// `a` followed by `b`.
pub fn append_text(a: &str, b: &str) -> (s: String)
    ensures
        s@ == a@ + b@,
{
    let mut s = String::new();
    for c in it: a.chars()
        invariant
            s@ == it.seq().take(it.index() as int),
            it.seq() == a@,
    {
        s.push(c);
    }
    for c in it: b.chars()
        invariant
            s@ == a@ + it.seq().take(it.index() as int),
            it.seq() == b@,
    {
        s.push(c);
    }
    s
}

/// Whether two texts hold the same characters.
pub fn same_text(a: &str, b: &str) -> (r: bool)
    ensures
        r == (a@ == b@),
{
    let x = chars_of(a);
    let y = chars_of(b);
    if x.len() != y.len() {
        return false;
    }
    let mut i: usize = 0;
    while i < x.len()
        invariant
            x@ == a@,
            y@ == b@,
            i <= x@.len(),
            x@.len() == y@.len(),
            forall|j: int| 0 <= j < i ==> x@[j] == y@[j],
        decreases x@.len() - i,
    {
        if x[i] != y[i] {
            return false;
        }
        i += 1;
    }
    assert(x@ =~= y@);
    true
}

/// Whether `line` holds nothing but white space.
pub fn blank(line: &str) -> (r: bool)
    ensures
        r == is_blank(line@),
{
    for c in it: line.chars()
        invariant
            it.seq() == line@,
            forall|j: int| 0 <= j < it.index() ==> white_space(#[trigger] line@[j]),
    {
        if !c.is_whitespace() {
            return false;
        }
    }
    true
}

/// Whether `needle` occurs in `hay`.
pub fn contains(hay: &str, needle: &str) -> (r: bool)
    ensures
        r == occurs_in(needle@, hay@),
{
    let h = chars_of(hay);
    let n = chars_of(needle);
    if n.len() > h.len() {
        assert forall|i: int| !occurs_at(needle@, hay@, i) by {}
        return false;
    }
    let last: usize = h.len() - n.len();
    let mut i: usize = 0;
    loop
        invariant
            h@ == hay@,
            n@ == needle@,
            n@.len() <= h@.len() <= usize::MAX,
            last == h@.len() - n@.len(),
            i <= last,
            forall|k: int| 0 <= k < i ==> !occurs_at(needle@, hay@, k),
        decreases last - i,
    {
        let mut j: usize = 0;
        while j < n.len() && h[i + j] == n[j]
            invariant
                i <= last,
                n@.len() <= h@.len() <= usize::MAX,
                last == h@.len() - n@.len(),
                j <= n@.len(),
                forall|k: int| 0 <= k < j ==> h@[i + k] == n@[k],
            decreases n@.len() - j,
        {
            j += 1;
        }
        if j == n.len() {
            assert(h@.subrange(i as int, i + n@.len()) =~= n@);
            assert(occurs_at(needle@, hay@, i as int));
            return true;
        }
        assert(!occurs_at(needle@, hay@, i as int)) by {
            if occurs_at(needle@, hay@, i as int) {
                assert(h@.subrange(i as int, i + n@.len())[j as int] == n@[j as int]);
            }
        }
        if i == last {
            assert forall|k: int| !occurs_at(needle@, hay@, k) by {}
            return false;
        }
        i += 1;
    }
}

/// The lines of `text`.
pub fn split_lines(text: &str) -> (out: Vec<String>)
    ensures
        out.deep_view() == lines(text@),
{
    let v = chars_of(text);
    let mut out: Vec<String> = Vec::new();
    let mut pos: usize = 0;
    assert(v@.subrange(0, v@.len() as int) =~= v@);
    assert(out.deep_view() + lines(v@) =~= lines(v@));
    while pos < v.len()
        invariant
            v@ == text@,
            pos <= v@.len(),
            lines(text@) == out.deep_view() + lines(v@.subrange(pos as int, v@.len() as int)),
        decreases v@.len() - pos,
    {
        let ghost rest = v@.subrange(pos as int, v@.len() as int);
        let ghost before = out.deep_view();
        let mut end: usize = pos;
        while end < v.len() && v[end] != '\n'
            invariant
                pos <= end <= v@.len(),
                forall|j: int| pos <= j < end ==> v@[j] != '\n',
            decreases v@.len() - end,
        {
            end += 1;
        }
        proof {
            lemma_first_line_len(rest, end - pos);
        }
        if end < v.len() {
            let stop: usize = if end > pos && v[end - 1] == '\r' {
                (end - 1) as usize
            } else {
                end
            };
            let line = text_of(&v, pos, stop);
            proof {
                assert(rest.subrange(0, end - pos) =~= v@.subrange(pos as int, end as int));
                assert(line@ =~= without_cr(rest.subrange(0, end - pos)));
                assert(rest.subrange(end - pos + 1, rest.len() as int) =~= v@.subrange(
                    end + 1,
                    v@.len() as int,
                ));
            }
            out.push(line);
            assert(out.deep_view() =~= before + seq![line@]);
            pos = end + 1;
        } else {
            let line = text_of(&v, pos, end);
            proof {
                assert(line@ =~= rest);
                assert(lines(v@.subrange(end as int, v@.len() as int)) =~= Seq::empty());
            }
            out.push(line);
            assert(out.deep_view() =~= before + seq![line@]);
            pos = end;
        }
    }
    assert(lines(v@.subrange(pos as int, v@.len() as int)) =~= Seq::empty());
    assert(v@.subrange(0, v@.len() as int) =~= v@);
    out
}

/// The texts of `parts`, with `sep` between each two neighbours.
pub fn join_with(parts: &Vec<String>, sep: &str) -> (s: String)
    ensures
        s@ == join(parts.deep_view(), sep@),
{
    let mut s = String::new();
    let mut i: usize = 0;
    while i < parts.len()
        invariant
            i <= parts@.len(),
            s@ == join(parts.deep_view().take(i as int), sep@),
        decreases parts@.len() - i,
    {
        let ghost done = parts.deep_view().take(i as int);
        let ghost next = parts.deep_view().take(i + 1);
        proof {
            assert(next.drop_last() =~= done);
            assert(next.last() == parts@[i as int]@);
        }
        if i > 0 {
            s = append_text(s.as_str(), sep);
        }
        s = append_text(s.as_str(), parts[i].as_str());
        assert(s@ =~= join(next, sep@));
        i += 1;
    }
    assert(parts.deep_view().take(parts@.len() as int) =~= parts.deep_view());
    s
}

/// `s` without the run of `c` at its end.
pub fn trimmed_end(s: &str, c: char) -> (r: String)
    ensures
        r@ == trim_end(s@, c),
{
    let v = chars_of(s);
    let mut n: usize = v.len();
    while n > 0 && v[n - 1] == c
        invariant
            n <= v@.len(),
            forall|j: int| n <= j < v@.len() ==> v@[j] == c,
        decreases n,
    {
        n -= 1;
    }
    proof {
        lemma_trim_end(v@, c, n as int);
    }
    text_of(&v, 0, n)
}

/// A copy of a list of texts.
pub fn clone_texts(v: &Vec<String>) -> (r: Vec<String>)
    ensures
        r.deep_view() == v.deep_view(),
{
    let mut r: Vec<String> = Vec::new();
    let mut i: usize = 0;
    while i < v.len()
        invariant
            i <= v@.len(),
            r@.len() == i,
            forall|j: int| 0 <= j < i ==> r@[j]@ == v@[j]@,
        decreases v@.len() - i,
    {
        r.push(v[i].clone());
        i += 1;
    }
    assert(r.deep_view() =~= v.deep_view());
    r
}

/// A copy of a text that may be absent.
pub fn clone_optional(o: &Option<String>) -> (r: Option<String>)
    ensures
        r.deep_view() == o.deep_view(),
{
    match o {
        Some(s) => Some(s.clone()),
        None => None,
    }
}

} // verus!
