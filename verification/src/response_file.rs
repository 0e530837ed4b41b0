//! Command files: an argument `@path` stands for the arguments in the file at `path`.

use crate::text::{chars_of, ends_with, same_chars, split, split_at, trim, trim_ends, Ends};
use vstd::prelude::*;
use vstd::string::*;
use vstd::utf8::{char_u32_cast, decode_utf8, valid_utf8};

verus! {

/// Whether an argument is one that only a link step is given: an object file or a linker flavor.
pub open spec fn names_link_step(argument: Seq<char>) -> bool {
    ||| ".o"@.is_suffix_of(argument)
    ||| argument == "-flavor"@
}

/// The argument on a line of a command file. White space goes first, then the quotes within it.
pub open spec fn listed(line: Seq<char>) -> Seq<char> {
    trim(
        trim(line, |c: char| Ends::WhiteSpace.drops(c)),
        |c: char| Ends::Quotes.drops(c),
    )
}

/// Whether some line of `content` names a link step. A line ends at a line feed; the carriage
/// return that may stand before it is white space, which goes with `listed`.
pub open spec fn content_links(content: Seq<char>) -> bool {
    let lines = split(content, '\n');
    exists|i: int| 0 <= i < lines.len() && names_link_step(listed(#[trigger] lines[i]))
}

/// The text of a command file: UTF-8, or else UTF-16 with the low byte first.
pub open spec fn decoded(bytes: Seq<u8>) -> Seq<char> {
    if valid_utf8(bytes) {
        decode_utf8(bytes)
    } else {
        utf16_lossy(units(bytes))
    }
}

/// The bytes taken in pairs, the low byte first. An odd byte at the end is dropped.
pub open spec fn units(bytes: Seq<u8>) -> Seq<u16> {
    Seq::new(bytes.len() / 2, |i: int| (bytes[2 * i] + 256 * bytes[2 * i + 1]) as u16)
}

/// A code unit that opens a pair.
pub open spec fn leads(unit: u16) -> bool {
    0xd800 <= unit <= 0xdbff
}

/// A code unit that closes a pair.
pub open spec fn trails(unit: u16) -> bool {
    0xdc00 <= unit <= 0xdfff
}

/// The text in UTF-16, with U+FFFD for each unit of a pair that lacks the other.
pub open spec fn utf16_lossy(text: Seq<u16>) -> Seq<char>
    decreases text.len(),
{
    if text.len() == 0 {
        seq![]
    } else if leads(text[0]) && text.len() > 1 && trails(text[1]) {
        seq![(0x10000 + 0x400 * (text[0] - 0xd800) + (text[1] - 0xdc00)) as char] + utf16_lossy(
            text.skip(2),
        )
    } else if leads(text[0]) || trails(text[0]) {
        seq!['\u{fffd}'] + utf16_lossy(text.skip(1))
    } else {
        seq![text[0] as char] + utf16_lossy(text.skip(1))
    }
}

/// `String::from_utf8`: gives the text that the bytes encode, if and only if they are UTF-8.
#[verifier::external_body]
fn utf8_text(bytes: &Vec<u8>) -> (r: Option<String>)
    ensures
        match r {
            Some(text) => valid_utf8(bytes@) && text@ == decode_utf8(bytes@),
            None => !valid_utf8(bytes@),
        },
{
    String::from_utf8(bytes.clone()).ok()
}

/// `char::from_u32`: gives the character with this code, which is there for every code up to
/// U+10FFFF but the surrogates.
#[verifier::external_body]
fn char_with_code(code: u32) -> (r: Option<char>)
    ensures
        match r {
            Some(c) => c as u32 == code,
            None => 0xd800 <= code <= 0xdfff || code > 0x10ffff,
        },
{
    char::from_u32(code)
}

/// The code units of `bytes`.
fn units_of(bytes: &Vec<u8>) -> (r: Vec<u16>)
    ensures
        r@ == units(bytes@),
{
    let mut out: Vec<u16> = Vec::new();
    let len: usize = bytes.len();
    let count: usize = len / 2;
    let mut i: usize = 0;
    while i < count
        invariant
            i <= count,
            len == bytes@.len(),
            count == len / 2,
            out@ == units(bytes@).take(i as int),
        decreases count - i,
    {
        let unit: u16 = bytes[2 * i] as u16 + 256 * (bytes[2 * i + 1] as u16);
        out.push(unit);
        i = i + 1;
        assert(out@ =~= units(bytes@).take(i as int));
    }
    assert(units(bytes@).take(count as int) =~= units(bytes@));
    out
}

/// The characters of a text in UTF-16.
pub fn utf16_text(text: &Vec<u16>) -> (r: Vec<char>)
    ensures
        r@ == utf16_lossy(text@),
{
    let mut out: Vec<char> = Vec::new();
    let mut i: usize = 0;
    assert(text@.skip(0) =~= text@);
    while i < text.len()
        invariant
            i <= text@.len(),
            out@ + utf16_lossy(text@.skip(i as int)) == utf16_lossy(text@),
        decreases text@.len() - i,
    {
        let ghost before = out@;
        let ghost rest = text@.skip(i as int);
        let first: u16 = text[i];
        assert(rest.skip(1) =~= text@.skip(i + 1));
        let lead: bool = 0xd800 <= first && first <= 0xdbff;
        if lead && text.len() - i > 1 && 0xdc00 <= text[i + 1] && text[i + 1] <= 0xdfff {
            let code: u32 = 0x10000 + 0x400 * (first as u32 - 0xd800) + (text[i + 1] as u32
                - 0xdc00);
            assert(rest.skip(2) =~= text@.skip(i + 2));
            let c: char = match char_with_code(code) {
                Some(c) => c,
                None => '\u{fffd}',
            };
            proof {
                char_u32_cast(c, code);
            }
            out.push(c);
            assert(out@ + utf16_lossy(rest.skip(2)) =~= before + utf16_lossy(rest));
            i = i + 2;
        } else if lead || (0xdc00 <= first && first <= 0xdfff) {
            out.push('\u{fffd}');
            assert(out@ + utf16_lossy(rest.skip(1)) =~= before + utf16_lossy(rest));
            i = i + 1;
        } else {
            let c: char = match char_with_code(first as u32) {
                Some(c) => c,
                None => '\u{fffd}',
            };
            proof {
                char_u32_cast(c, first as u32);
            }
            out.push(c);
            assert(out@ + utf16_lossy(rest.skip(1)) =~= before + utf16_lossy(rest));
            i = i + 1;
        }
    }
    assert(text@.skip(i as int) =~= Seq::<u16>::empty());
    assert(out@ =~= utf16_lossy(text@));
    out
}

/// The characters of a command file.
pub fn decode(bytes: &Vec<u8>) -> (r: Vec<char>)
    ensures
        r@ == decoded(bytes@),
{
    match utf8_text(bytes) {
        Some(text) => chars_of(text.as_str()),
        None => utf16_text(&units_of(bytes)),
    }
}

/// Whether an argument is one that only a link step is given.
pub fn is_link_argument(argument: &Vec<char>) -> (r: bool)
    ensures
        r == names_link_step(argument@),
{
    ends_with(argument, ".o") || same_chars(argument, &chars_of("-flavor"))
}

/// Whether a command file holds an argument that only a link step is given.
pub fn file_links(bytes: &Vec<u8>) -> (r: bool)
    ensures
        r == content_links(decoded(bytes@)),
{
    let content = decode(bytes);
    let lines = split_at(&content, '\n');
    let mut i: usize = 0;
    while i < lines.len()
        invariant
            i <= lines@.len(),
            content@ == decoded(bytes@),
            lines@.len() == split(content@, '\n').len(),
            forall|j: int| 0 <= j < lines@.len() ==> #[trigger] lines@[j]@ == split(
                content@,
                '\n',
            )[j],
            forall|j: int|
                0 <= j < i ==> !names_link_step(listed(#[trigger] split(content@, '\n')[j])),
        decreases lines@.len() - i,
    {
        let bare = trim_ends(&lines[i], Ends::WhiteSpace);
        let argument = trim_ends(&bare, Ends::Quotes);
        assert(lines@[i as int]@ == split(content@, '\n')[i as int]);
        assert(argument@ == listed(split(content@, '\n')[i as int]));
        if is_link_argument(&argument) {
            return true;
        }
        i = i + 1;
    }
    false
}

} // verus!
