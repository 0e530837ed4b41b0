//! What the primitives on text, on tables and on paths amount to.

use crate::names::{last_where, lemma_last_where, table_by, texts};
use crate::paths::{components, is_absolute, same_way};
use crate::text::{
    cut, decimal, digit, lemma_cut, lemma_cut_at, split, text_of, trim, trim_back, trim_front,
    white_space, without_prefixes, Ends,
};
use vstd::prelude::*;
use vstd::string::*;

verus! {

/// A text that may be missing is missing or has its characters.
pub proof fn law_text_or_none(text: Option<String>)
    ensures
        text is None <==> text_of(text) is None,
        text is Some ==> text_of(text) == Some(text->0@),
{
}

/// A text without the separator is one piece.
pub proof fn law_one_piece(s: Seq<char>, c: char)
    requires
        forall|i: int| 0 <= i < s.len() ==> s[i] != c,
    ensures
        split(s, c) == seq![s],
{
    lemma_cut_at(s, c, s.len() as int);
}

/// The pieces on both sides of a separator are the pieces of the whole.
pub proof fn law_pieces_on_both_sides(before: Seq<char>, c: char, behind: Seq<char>)
    ensures
        split(before + seq![c] + behind, c) == split(before, c) + split(behind, c),
    decreases before.len(),
{
    let whole = before + seq![c] + behind;
    let at = cut(before, c);
    lemma_cut(before, c);
    assert forall|i: int| 0 <= i < at implies whole[i] != c by {
        assert(whole[i] == before[i]);
    }
    if at < before.len() {
        assert(whole[at] == before[at]);
        lemma_cut_at(whole, c, at);
        let rest = before.skip(at + 1);
        assert(whole.skip(at + 1) =~= rest + seq![c] + behind);
        assert(whole.take(at) =~= before.take(at));
        law_pieces_on_both_sides(rest, c, behind);
        assert(split(whole, c) =~= split(before, c) + split(behind, c));
    } else {
        assert(whole[at] == c);
        lemma_cut_at(whole, c, at);
        assert(whole.take(at) =~= before);
        assert(whole.skip(at + 1) =~= behind);
    }
}

/// Of a prefix that stands repeatedly every copy goes, and of what does not start with it nothing.
pub proof fn law_all_prefixes_go(s: Seq<char>, prefix: Seq<char>)
    requires
        prefix.len() > 0,
    ensures
        without_prefixes(prefix + s, prefix) == without_prefixes(s, prefix),
        s.len() < prefix.len() ==> without_prefixes(s, prefix) == s,
        (exists|i: int| 0 <= i < prefix.len() && i < s.len() && s[i] != prefix[i])
            ==> without_prefixes(s, prefix) == s,
{
    let whole = prefix + s;
    assert(whole.subrange(0, prefix.len() as int) =~= prefix);
    assert(whole.skip(prefix.len() as int) =~= s);
    if exists|i: int| 0 <= i < prefix.len() && i < s.len() && s[i] != prefix[i] {
        let i = choose|i: int| 0 <= i < prefix.len() && i < s.len() && s[i] != prefix[i];
        if prefix.is_prefix_of(s) {
            assert(s.subrange(0, prefix.len() as int)[i] == s[i]);
        }
    }
}

proof fn lemma_front(s: Seq<char>, drop: spec_fn(char) -> bool) -> (from: int)
    ensures
        0 <= from <= s.len(),
        trim_front(s, drop) == s.skip(from),
        forall|k: int| 0 <= k < from ==> drop(#[trigger] s[k]),
        from < s.len() ==> !drop(s[from]),
    decreases s.len(),
{
    if s.len() > 0 && drop(s[0]) {
        let rest = s.skip(1);
        let from = 1 + lemma_front(rest, drop);
        assert(rest.skip(from - 1) =~= s.skip(from));
        assert forall|k: int| 0 <= k < from implies drop(#[trigger] s[k]) by {
            if k > 0 {
                assert(rest[k - 1] == s[k]);
            }
        }
        if from < s.len() {
            assert(rest[from - 1] == s[from]);
        }
        from
    } else {
        assert(s.skip(0) =~= s);
        0
    }
}

proof fn lemma_back(s: Seq<char>, drop: spec_fn(char) -> bool) -> (to: int)
    ensures
        0 <= to <= s.len(),
        trim_back(s, drop) == s.take(to),
        forall|k: int| to <= k < s.len() ==> drop(#[trigger] s[k]),
        to > 0 ==> !drop(s[to - 1]),
    decreases s.len(),
{
    if s.len() > 0 && drop(s.last()) {
        let rest = s.drop_last();
        let to = lemma_back(rest, drop);
        assert(rest.take(to) =~= s.take(to));
        assert forall|k: int| to <= k < s.len() implies drop(#[trigger] s[k]) by {
            if k < rest.len() {
                assert(rest[k] == s[k]);
            }
        }
        if to > 0 {
            assert(rest[to - 1] == s[to - 1]);
        }
        to
    } else {
        assert(s.take(s.len() as int) =~= s);
        s.len() as int
    }
}

/// Trimming keeps one stretch of the text, up to characters at both ends that are not to go, and
/// all outside of it is to go.
pub proof fn law_trimming_keeps_the_middle(s: Seq<char>, drop: spec_fn(char) -> bool)
    ensures
        exists|from: int, to: int|
            0 <= from <= to <= s.len() && trim(s, drop) == #[trigger] s.subrange(from, to) && (
            forall|k: int| 0 <= k < from || to <= k < s.len() ==> drop(#[trigger] s[k])) && (from
                < to ==> !drop(s[from]) && !drop(s[to - 1])),
{
    let from = lemma_front(s, drop);
    let front = s.skip(from);
    let kept = lemma_back(front, drop);
    let to = from + kept;
    assert(front.take(kept) =~= s.subrange(from, to));
    assert forall|k: int| 0 <= k < from || to <= k < s.len() implies drop(#[trigger] s[k]) by {
        if k >= to {
            assert(front[k - from] == s[k]);
        }
    }
    if kept > 0 {
        assert(front[kept - 1] == s[to - 1]);
        assert(front[0] == s[from]);
    }
    assert(trim(s, drop) == s.subrange(from, to));
}

/// White space is what Unicode lists under that name, by code.
pub proof fn law_white_space_by_code(c: char)
    ensures
        white_space(c) <==> {
            let code = c as u32;
            ||| 9 <= code <= 13
            ||| code == 32
            ||| code == 133
            ||| code == 160
            ||| code == 5760
            ||| 8192 <= code <= 8202
            ||| code == 8232
            ||| code == 8233
            ||| code == 8239
            ||| code == 8287
            ||| code == 12288
        },
        Ends::WhiteSpace.drops(c) == white_space(c),
        Ends::Quotes.drops(c) <==> c as u32 == 34,
{
}

/// The number that a text of decimal digits stands for.
pub open spec fn reading(digits: Seq<char>) -> int
    decreases digits.len(),
{
    if digits.len() == 0 {
        0
    } else {
        10 * reading(digits.drop_last()) + (digits.last() as int - 48)
    }
}

/// A number is written in decimal digits, without leading zeros, and reads back as itself.
pub proof fn law_decimal_reads_back(n: nat)
    ensures
        reading(decimal(n)) == n,
        decimal(n).len() > 0,
        forall|i: int| 0 <= i < decimal(n).len() ==> '0' <= #[trigger] decimal(n)[i] <= '9',
        decimal(n).len() > 1 ==> decimal(n)[0] != '0',
    decreases n,
{
    reveal_with_fuel(reading, 2);
    if n < 10 {
        assert(decimal(n).drop_last().len() == 0);
    } else {
        let front = decimal(n / 10);
        law_decimal_reads_back(n / 10);
        assert(decimal(n).drop_last() =~= front);
        assert forall|i: int| 0 <= i < decimal(n).len() implies '0' <= #[trigger] decimal(n)[i]
            <= '9' by {
            if i < front.len() {
                assert(decimal(n)[i] == front[i]);
            } else {
                assert(decimal(n)[i] == digit(n % 10));
            }
        }
        assert(decimal(n)[0] == front[0]);
        if front.len() == 1 {
            assert(front.drop_last().len() == 0);
            assert(reading(front) == front[0] as int - 48);
        }
    }
}

/// Two numbers are written alike only where they are one number.
pub proof fn law_decimals_are_apart(a: nat, b: nat)
    requires
        decimal(a) == decimal(b),
    ensures
        a == b,
{
    law_decimal_reads_back(a);
    law_decimal_reads_back(b);
}

/// The texts of names are their characters, name by name.
pub proof fn law_texts_name_by_name(names: Seq<String>)
    ensures
        texts(names).len() == names.len(),
        forall|i: int| 0 <= i < names.len() ==> #[trigger] texts(names)[i] == names[i]@,
        forall|text: Seq<char>| #[trigger]
            texts(names).contains(text) <==> exists|i: int|
                0 <= i < names.len() && #[trigger] names[i]@ == text,
{
    assert forall|text: Seq<char>| #[trigger]
        texts(names).contains(text) <==> exists|i: int|
            0 <= i < names.len() && #[trigger] names[i]@ == text by {
        if texts(names).contains(text) {
            let i = choose|i: int| 0 <= i < texts(names).len() && texts(names)[i] == text;
            assert(names[i]@ == text);
        }
        if exists|i: int| 0 <= i < names.len() && #[trigger] names[i]@ == text {
            let i = choose|i: int| 0 <= i < names.len() && #[trigger] names[i]@ == text;
            assert(texts(names)[i] == text);
        }
    }
}

/// Under a name stands the value of the last item with that name, and nothing where no item has it.
pub proof fn law_last_item_has_the_name<T, V>(
    items: Seq<T>,
    named: spec_fn(T, Seq<char>) -> bool,
    value: spec_fn(T) -> V,
    name: Seq<char>,
)
    ensures
        table_by(items, named, value).contains_key(name) <==> exists|i: int|
            0 <= i < items.len() && named(#[trigger] items[i], name),
        forall|i: int|
            0 <= i < items.len() && named(#[trigger] items[i], name) && (forall|j: int|
                i < j < items.len() ==> !named(#[trigger] items[j], name)) ==> table_by(
                items,
                named,
                value,
            )[name] == value(items[i]),
{
    let holds = |item: T| named(item, name);
    lemma_last_where(items, holds);
    let last = last_where(items, holds);
    if last >= 0 {
        assert(holds(items[last]));
    }
    assert forall|i: int|
        0 <= i < items.len() && named(#[trigger] items[i], name) && (forall|j: int|
            i < j < items.len() ==> !named(#[trigger] items[j], name)) implies table_by(
        items,
        named,
        value,
    )[name] == value(items[i]) by {
        assert(holds(items[i]));
        assert(last >= i);
        if last > i {
            assert(!named(items[last], name));
        }
    }
    if exists|i: int| 0 <= i < items.len() && named(#[trigger] items[i], name) {
        let i = choose|i: int| 0 <= i < items.len() && named(#[trigger] items[i], name);
        assert(holds(items[i]));
    }
}

/// The pieces of a path that say where it leads: of the first any text, of the others what is not a
/// single dot.
pub open spec fn way(pieces: Seq<Seq<char>>) -> Seq<Seq<char>> {
    pieces.take(1).filter(|p: Seq<char>| p.len() > 0) + pieces.skip(1).filter(
        |p: Seq<char>| p.len() > 0 && p != seq!['.'],
    )
}

proof fn lemma_way(pieces: Seq<Seq<char>>)
    requires
        pieces.len() > 0,
    ensures
        components(pieces) == way(pieces),
    decreases pieces.len(),
{
    reveal(Seq::filter);
    let last = pieces.last();
    let front = pieces.drop_last();
    if pieces.len() == 1 {
        assert(pieces.take(1) =~= pieces);
        assert(pieces.skip(1) =~= Seq::<Seq<char>>::empty());
        assert(front =~= Seq::<Seq<char>>::empty());
        assert(components(front) =~= Seq::<Seq<char>>::empty());
        let kept = |p: Seq<char>| p.len() > 0;
        assert(front.filter(kept) =~= Seq::<Seq<char>>::empty());
        assert(pieces.filter(kept) =~= components(pieces));
        assert(components(pieces) =~= way(pieces));
    } else {
        lemma_way(front);
        assert(front.take(1) =~= pieces.take(1));
        assert(front.skip(1) =~= pieces.skip(1).drop_last());
        assert(pieces.skip(1).last() == last);
        assert(components(pieces) =~= way(pieces));
    }
}

proof fn lemma_some_piece(s: Seq<char>, c: char)
    ensures
        split(s, c).len() > 0,
{
    lemma_cut(s, c);
}

/// Two paths lead the same way where both start at the root or neither does, and where they have the
/// same pieces between separators, but for empty ones and for single dots behind the first.
pub proof fn law_same_way_by_pieces(a: Seq<char>, b: Seq<char>)
    ensures
        same_way(a, b) <==> {
            &&& (a.len() > 0 && a[0] == '/') == (b.len() > 0 && b[0] == '/')
            &&& way(split(a, '/')) == way(split(b, '/'))
        },
{
    lemma_some_piece(a, '/');
    lemma_some_piece(b, '/');
    lemma_way(split(a, '/'));
    lemma_way(split(b, '/'));
}

/// Paths of one piece lead the same way only where they are one text.
pub proof fn law_single_names_by_text(a: Seq<char>, b: Seq<char>)
    requires
        forall|i: int| 0 <= i < a.len() ==> a[i] != '/',
        forall|i: int| 0 <= i < b.len() ==> b[i] != '/',
    ensures
        same_way(a, b) <==> a == b,
{
    law_one_piece(a, '/');
    law_one_piece(b, '/');
    reveal_with_fuel(components, 2);
    assert(seq![a].drop_last() =~= Seq::<Seq<char>>::empty());
    assert(seq![b].drop_last() =~= Seq::<Seq<char>>::empty());
    let first = components(seq![a]);
    let second = components(seq![b]);
    assert(a.len() > 0 ==> first =~= seq![a]);
    assert(b.len() > 0 ==> second =~= seq![b]);
    assert(a.len() == 0 ==> first =~= Seq::<Seq<char>>::empty());
    assert(b.len() == 0 ==> second =~= Seq::<Seq<char>>::empty());
    if a.len() == 0 && b.len() == 0 {
        assert(a =~= b);
    }
    if first == second && a.len() > 0 {
        assert(first[0] == second[0]);
    }
}

/// `name` in the directory `dir`.
pub open spec fn within(dir: Seq<char>, name: Seq<char>) -> Seq<char> {
    dir + seq!['/'] + name
}

proof fn lemma_within(dir: Seq<char>, name: Seq<char>)
    requires
        forall|i: int| 0 <= i < name.len() ==> name[i] != '/',
    ensures
        components(split(within(dir, name), '/')) == (if name.len() == 0 || name == seq!['.'] {
            components(split(dir, '/'))
        } else {
            components(split(dir, '/')).push(name)
        }),
        is_absolute(within(dir, name)) == (dir.len() == 0 || dir[0] == '/'),
{
    law_pieces_on_both_sides(dir, '/', name);
    law_one_piece(name, '/');
    lemma_some_piece(dir, '/');
    let pieces = split(within(dir, name), '/');
    assert(pieces =~= split(dir, '/').push(name));
    assert(pieces.drop_last() =~= split(dir, '/'));
    assert(pieces.last() == name);
}

/// Two names in two directories lead the same way exactly where the names are the same and so are
/// the ways to the directories. A single dot, and a separator at the end, lead nowhere else.
pub proof fn law_same_way_name_by_name(
    dir: Seq<char>,
    other: Seq<char>,
    name: Seq<char>,
    second: Seq<char>,
)
    requires
        dir.len() > 0,
        other.len() > 0,
        forall|i: int| 0 <= i < name.len() ==> name[i] != '/',
        forall|i: int| 0 <= i < second.len() ==> second[i] != '/',
        name.len() > 0 && name != seq!['.'],
        second.len() > 0 && second != seq!['.'],
    ensures
        same_way(within(dir, name), within(other, second)) <==> name == second && same_way(
            dir,
            other,
        ),
        same_way(within(dir, Seq::empty()), dir),
        same_way(within(dir, seq!['.']), dir),
{
    lemma_within(dir, name);
    lemma_within(other, second);
    lemma_within(dir, Seq::empty());
    lemma_within(dir, seq!['.']);
    let left = components(split(dir, '/'));
    let right = components(split(other, '/'));
    if left.push(name) == right.push(second) {
        assert(left.push(name).last() == name);
        assert(right.push(second).last() == second);
        assert(left.push(name).drop_last() =~= left);
        assert(right.push(second).drop_last() =~= right);
    }
}

} // verus!
