//! Text primitives shared by the other modules, over sequences of characters.

use vstd::prelude::*;
use vstd::string::*;

verus! {

/// The characters of a text, where there is one.
pub open spec fn text_of(text: Option<String>) -> Option<Seq<char>> {
    match text {
        Some(text) => Some(text@),
        None => None,
    }
}

/// The position of the first `c` in `s`, or the length of `s` where there is none.
pub open spec fn cut(s: Seq<char>, c: char) -> int
    decreases s.len(),
{
    if s.len() == 0 || s[0] == c {
        0
    } else {
        1 + cut(s.skip(1), c)
    }
}

/// The pieces of `s` between the occurrences of `c`: one more than there are occurrences.
pub open spec fn split(s: Seq<char>, c: char) -> Seq<Seq<char>>
    decreases s.len(),
    via split_decreases
{
    let i = cut(s, c);
    if i >= s.len() {
        seq![s]
    } else {
        seq![s.take(i)] + split(s.skip(i + 1), c)
    }
}

#[via_fn]
proof fn split_decreases(s: Seq<char>, c: char) {
    lemma_cut(s, c);
}

/// `s` without the copies of `prefix` at its front, however many there are.
pub open spec fn without_prefixes(s: Seq<char>, prefix: Seq<char>) -> Seq<char>
    decreases s.len(),
{
    if prefix.len() > 0 && prefix.is_prefix_of(s) {
        without_prefixes(s.skip(prefix.len() as int), prefix)
    } else {
        s
    }
}

/// `s` from the first character on that `drop` does not hold of.
pub open spec fn trim_front(s: Seq<char>, drop: spec_fn(char) -> bool) -> Seq<char>
    decreases s.len(),
{
    if s.len() > 0 && drop(s[0]) {
        trim_front(s.skip(1), drop)
    } else {
        s
    }
}

/// `s` up to the last character that `drop` does not hold of.
pub open spec fn trim_back(s: Seq<char>, drop: spec_fn(char) -> bool) -> Seq<char>
    decreases s.len(),
{
    if s.len() > 0 && drop(s.last()) {
        trim_back(s.drop_last(), drop)
    } else {
        s
    }
}

/// `s` without the characters at either end that `drop` holds of.
pub open spec fn trim(s: Seq<char>, drop: spec_fn(char) -> bool) -> Seq<char> {
    trim_back(trim_front(s, drop), drop)
}

/// The Unicode property White_Space.
pub open spec fn white_space(c: char) -> bool {
    ||| '\u{9}' <= c <= '\u{d}'
    ||| c == '\u{20}'
    ||| c == '\u{85}'
    ||| c == '\u{a0}'
    ||| c == '\u{1680}'
    ||| '\u{2000}' <= c <= '\u{200a}'
    ||| c == '\u{2028}'
    ||| c == '\u{2029}'
    ||| c == '\u{202f}'
    ||| c == '\u{205f}'
    ||| c == '\u{3000}'
}

/// `n` in decimal digits, without leading zeros.
pub open spec fn decimal(n: nat) -> Seq<char>
    decreases n,
{
    if n < 10 {
        seq![digit(n)]
    } else {
        decimal(n / 10).push(digit(n % 10))
    }
}

/// The decimal digit for `d`, which is below ten.
pub open spec fn digit(d: nat) -> char {
    if d == 0 {
        '0'
    } else if d == 1 {
        '1'
    } else if d == 2 {
        '2'
    } else if d == 3 {
        '3'
    } else if d == 4 {
        '4'
    } else if d == 5 {
        '5'
    } else if d == 6 {
        '6'
    } else if d == 7 {
        '7'
    } else if d == 8 {
        '8'
    } else {
        '9'
    }
}

/// What `cut` finds: no `c` stands before it, and it is a `c` or the end.
pub proof fn lemma_cut(s: Seq<char>, c: char)
    ensures
        0 <= cut(s, c) <= s.len(),
        cut(s, c) < s.len() ==> s[cut(s, c)] == c,
        forall|i: int| 0 <= i < cut(s, c) ==> s[i] != c,
    decreases s.len(),
{
    if s.len() > 0 && s[0] != c {
        lemma_cut(s.skip(1), c);
        assert forall|i: int| 0 <= i < cut(s, c) implies s[i] != c by {
            if i > 0 {
                assert(s.skip(1)[i - 1] == s[i]);
            }
        }
    }
}

/// The position that `lemma_cut` describes is the only one of its kind.
pub proof fn lemma_cut_at(s: Seq<char>, c: char, at: int)
    requires
        0 <= at <= s.len(),
        at < s.len() ==> s[at] == c,
        forall|i: int| 0 <= i < at ==> s[i] != c,
    ensures
        cut(s, c) == at,
{
    lemma_cut(s, c);
}

/// The characters of `s`, in order.
pub fn chars_of(s: &str) -> (r: Vec<char>)
    ensures
        r@ == s@,
{
    let mut out: Vec<char> = Vec::new();
    for c in it: s.chars()
        invariant
            it.seq() == s@,
            out@ == s@.take(it.index() as int),
    {
        out.push(c);
        assert(out@ =~= s@.take(it.index() + 1));
    }
    assert(s@.take(s@.len() as int) =~= s@);
    out
}

/// Whether two strings hold the same characters.
pub fn same_text(a: &str, b: &str) -> (r: bool)
    ensures
        r == (a@ == b@),
{
    a.to_owned() == b.to_owned()
}

/// Whether two vectors hold the same characters.
pub fn same_chars(a: &Vec<char>, b: &Vec<char>) -> (r: bool)
    ensures
        r == (a@ == b@),
{
    if a.len() != b.len() {
        return false;
    }
    let mut i: usize = 0;
    while i < a.len()
        invariant
            i <= a@.len(),
            a@.len() == b@.len(),
            forall|j: int| 0 <= j < i ==> a@[j] == b@[j],
        decreases a@.len() - i,
    {
        if a[i] != b[i] {
            return false;
        }
        i = i + 1;
    }
    assert(a@ =~= b@);
    true
}

/// The position of the first `c` in `s` at or after `from`, or the end of `s`.
pub fn cut_from(s: &Vec<char>, from: usize, c: char) -> (r: usize)
    requires
        from <= s@.len(),
    ensures
        r == from + cut(s@.skip(from as int), c),
        from <= r <= s@.len(),
{
    let mut i: usize = from;
    while i < s.len() && s[i] != c
        invariant
            from <= i <= s@.len(),
            forall|j: int| from <= j < i ==> s@[j] != c,
        decreases s@.len() - i,
    {
        i = i + 1;
    }
    proof {
        let t = s@.skip(from as int);
        assert forall|j: int| 0 <= j < i - from implies t[j] != c by {
            assert(t[j] == s@[from + j]);
        }
        lemma_cut_at(t, c, i - from);
    }
    i
}

/// The characters `from..to` of `s`.
pub fn slice_of(s: &Vec<char>, from: usize, to: usize) -> (r: Vec<char>)
    requires
        from <= to <= s@.len(),
    ensures
        r@ == s@.subrange(from as int, to as int),
{
    let mut out: Vec<char> = Vec::new();
    let mut i: usize = from;
    while i < to
        invariant
            from <= i <= to <= s@.len(),
            out@ == s@.subrange(from as int, i as int),
        decreases to - i,
    {
        out.push(s[i]);
        i = i + 1;
        assert(out@ =~= s@.subrange(from as int, i as int));
    }
    out
}

/// The pieces of `s` between the occurrences of `c`.
pub fn split_at(s: &Vec<char>, c: char) -> (r: Vec<Vec<char>>)
    ensures
        r@.len() == split(s@, c).len(),
        forall|i: int| 0 <= i < r@.len() ==> #[trigger] r@[i]@ == split(s@, c)[i],
{
    let mut out: Vec<Vec<char>> = Vec::new();
    let mut from: usize = 0;
    assert(s@.skip(0) =~= s@);
    loop
        invariant
            from <= s@.len(),
            out@.len() + split(s@.skip(from as int), c).len() == split(s@, c).len(),
            forall|i: int| 0 <= i < out@.len() ==> #[trigger] out@[i]@ == split(s@, c)[i],
            forall|i: int|
                0 <= i < split(s@.skip(from as int), c).len()
                    ==> #[trigger] split(s@.skip(from as int), c)[i] == split(s@, c)[out@.len() + i],
        decreases s@.len() - from,
    {
        let to: usize = cut_from(s, from, c);
        let ghost rest = s@.skip(from as int);
        let ghost done = out@.len() as int;
        proof {
            lemma_cut(rest, c);
            assert(s@.subrange(from as int, to as int) =~= rest.take(to - from));
            assert(split(rest, c)[0] == split(s@, c)[done]);
        }
        out.push(slice_of(s, from, to));
        if to == s.len() {
            assert(rest.take(to - from) =~= rest);
            return out;
        }
        proof {
            let tail = rest.skip(to - from + 1);
            assert(tail =~= s@.skip(to + 1));
            assert forall|i: int| 0 <= i < split(tail, c).len() implies #[trigger] split(tail, c)[i]
                == split(s@, c)[done + 1 + i] by {
                assert(split(rest, c)[i + 1] == split(tail, c)[i]);
                assert(split(rest, c)[i + 1] == split(s@, c)[done + (i + 1)]);
            }
        }
        from = to + 1;
    }
}

/// Whether `prefix` stands in `s` at `at`.
pub fn stands_at(s: &Vec<char>, at: usize, prefix: &Vec<char>) -> (r: bool)
    requires
        at <= s@.len(),
    ensures
        r == prefix@.is_prefix_of(s@.skip(at as int)),
{
    let len: usize = s.len();
    if prefix.len() > len - at {
        return false;
    }
    let mut i: usize = 0;
    while i < prefix.len()
        invariant
            i <= prefix@.len(),
            at + prefix@.len() <= len,
            len == s@.len(),
            forall|j: int| 0 <= j < i ==> prefix@[j] == s@[at + j],
        decreases prefix@.len() - i,
    {
        if prefix[i] != s[at + i] {
            assert(s@.skip(at as int).subrange(0, prefix@.len() as int)[i as int] != prefix@[i as int]);
            return false;
        }
        i = i + 1;
    }
    assert(s@.skip(at as int).subrange(0, prefix@.len() as int) =~= prefix@);
    true
}

/// Whether `s` ends with `suffix`.
pub fn ends_with(s: &Vec<char>, suffix: &str) -> (r: bool)
    ensures
        r == suffix@.is_suffix_of(s@),
{
    let tail = chars_of(suffix);
    if tail.len() > s.len() {
        return false;
    }
    let at: usize = s.len() - tail.len();
    proof {
        let end = s@.skip(at as int);
        assert(end.subrange(0, tail@.len() as int) =~= end);
        assert(s@.subrange(at as int, s@.len() as int) =~= end);
    }
    stands_at(s, at, &tail)
}

/// `s` without the copies of `prefix` at its front.
pub fn trim_start_matches<'a>(s: &'a str, prefix: &str) -> (r: &'a str)
    requires
        prefix@.len() > 0,
    ensures
        r@ == without_prefixes(s@, prefix@),
{
    let all = chars_of(s);
    let head = chars_of(prefix);
    let len: usize = all.len();
    let mut from: usize = 0;
    assert(all@.skip(0) =~= all@);
    while stands_at(&all, from, &head)
        invariant
            all@ == s@,
            len == all@.len(),
            head@ == prefix@,
            prefix@.len() > 0,
            from <= all@.len(),
            without_prefixes(s@.skip(from as int), prefix@) == without_prefixes(s@, prefix@),
        decreases all@.len() - from,
    {
        assert(s@.skip(from as int).skip(prefix@.len() as int) =~= s@.skip(from + prefix@.len()));
        from = from + head.len();
    }
    assert(s@.subrange(from as int, s@.len() as int) =~= s@.skip(from as int));
    s.substring_char(from, len)
}

/// Whether `c` is white space.
pub fn is_white_space(c: char) -> (r: bool)
    ensures
        r == white_space(c),
{
    ('\u{9}' <= c && c <= '\u{d}') || c == '\u{20}' || c == '\u{85}' || c == '\u{a0}' || c
        == '\u{1680}' || ('\u{2000}' <= c && c <= '\u{200a}') || c == '\u{2028}' || c == '\u{2029}'
        || c == '\u{202f}' || c == '\u{205f}' || c == '\u{3000}'
}

/// The characters that a line is stripped of at its ends.
pub enum Ends {
    WhiteSpace,
    Quotes,
}

impl Ends {
    pub open spec fn drops(self, c: char) -> bool {
        match self {
            Ends::WhiteSpace => white_space(c),
            Ends::Quotes => c == '"',
        }
    }

    fn drop(&self, c: char) -> (r: bool)
        ensures
            r == self.drops(c),
    {
        match self {
            Ends::WhiteSpace => is_white_space(c),
            Ends::Quotes => c == '"',
        }
    }
}

/// `s` without the characters of `ends` at either end.
pub fn trim_ends(s: &Vec<char>, ends: Ends) -> (r: Vec<char>)
    ensures
        r@ == trim(s@, |c: char| ends.drops(c)),
{
    let ghost drop = |c: char| ends.drops(c);
    let mut from: usize = 0;
    assert(s@.skip(0) =~= s@);
    while from < s.len() && ends.drop(s[from])
        invariant
            from <= s@.len(),
            drop == (|c: char| ends.drops(c)),
            trim_front(s@.skip(from as int), drop) == trim_front(s@, drop),
        decreases s@.len() - from,
    {
        assert(s@.skip(from as int).skip(1) =~= s@.skip(from + 1));
        from = from + 1;
    }
    let ghost front = s@.skip(from as int);
    let mut to: usize = s.len();
    assert(s@.subrange(from as int, to as int) =~= front);
    while from < to && ends.drop(s[to - 1])
        invariant
            from <= to <= s@.len(),
            drop == (|c: char| ends.drops(c)),
            trim_back(s@.subrange(from as int, to as int), drop) == trim_back(front, drop),
        decreases to,
    {
        assert(s@.subrange(from as int, to as int).drop_last() =~= s@.subrange(
            from as int,
            to - 1,
        ));
        to = to - 1;
    }
    slice_of(s, from, to)
}

/// Appends `n` in decimal digits to `out`.
pub fn push_decimal(out: &mut String, n: u64)
    ensures
        final(out)@ == old(out)@ + decimal(n as nat),
    decreases n,
{
    if n >= 10 {
        push_decimal(out, n / 10);
    }
    let d: u64 = n % 10;
    let ghost before = out@;
    if d == 0 {
        out.append("0");
    } else if d == 1 {
        out.append("1");
    } else if d == 2 {
        out.append("2");
    } else if d == 3 {
        out.append("3");
    } else if d == 4 {
        out.append("4");
    } else if d == 5 {
        out.append("5");
    } else if d == 6 {
        out.append("6");
    } else if d == 7 {
        out.append("7");
    } else if d == 8 {
        out.append("8");
    } else {
        out.append("9");
    }
    proof {
        reveal_strlit("0");
        reveal_strlit("1");
        reveal_strlit("2");
        reveal_strlit("3");
        reveal_strlit("4");
        reveal_strlit("5");
        reveal_strlit("6");
        reveal_strlit("7");
        reveal_strlit("8");
        reveal_strlit("9");
        assert(out@ =~= before.push(digit(d as nat)));
        assert(out@ =~= old(out)@ + decimal(n as nat));
    }
}

} // verus!
