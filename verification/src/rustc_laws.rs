//! What capturing, telling link steps apart and running again amount to.

use crate::names::texts;
use crate::response_file::{
    content_links, decoded, listed, names_link_step, units, utf16_lossy,
};
use crate::rustcwrapper::{
    argument_after, command_of, exit_status, file_named_by, is_link_step, names_file, position,
    record_for, Argument, Invocation, Next, Replay, RustcArgs, WorkspaceRustcArgs,
    DX_RUSTC_WRAPPER_ENV_VAR,
};
use crate::text::{split, text_of, trim, white_space, Ends};
use crate::text_laws::{
    law_one_piece, law_pieces_on_both_sides, law_trimming_keeps_the_middle,
    law_white_space_by_code,
};
use vstd::prelude::*;
use vstd::string::*;
use vstd::utf8::{
    char_is_scalar, char_u32_cast, encode_utf8, encode_utf8_decode_utf8,
    encode_utf8_valid_utf8, valid_utf8,
};

verus! {

/// The wrapper is called for by the variable `DX_RUSTC`.
pub proof fn law_variable_is_dx_rustc()
    ensures
        DX_RUSTC_WRAPPER_ENV_VAR@ == "DX_RUSTC"@,
{
}

/// An argument marks a link step exactly where its last two characters are a dot and an `o`,
/// whatever stands before them, or where it is the flavor flag.
pub proof fn law_object_files_mark_a_link_step(argument: Seq<char>)
    ensures
        names_link_step(argument) <==> {
            ||| argument.len() >= 2 && argument[argument.len() - 2] == '.' && argument[
            argument.len() - 1] == 'o'
            ||| argument == "-flavor"@
        },
        names_link_step(argument + ".o"@),
{
    reveal_strlit(".o");
    let len = argument.len() as int;
    if len >= 2 {
        let end = argument.subrange(len - 2, len);
        assert(end[0] == argument[len - 2] && end[1] == argument[len - 1]);
        if argument[len - 2] == '.' && argument[len - 1] == 'o' {
            assert(".o"@ =~= end);
        }
    }
    let longer = argument + ".o"@;
    assert(longer.subrange(len, len + 2) =~= ".o"@);
}

/// The argument on a line is one stretch of it. Outside of it there are quotes, and outside of those
/// white space; it neither starts nor ends with a quote, nor do the quotes with white space.
pub proof fn law_line_without_its_wrapping(line: Seq<char>) -> (bounds: (int, int, int, int))
    ensures
        ({
            let (outer, from, to, end) = bounds;
            &&& 0 <= outer <= from <= to <= end <= line.len()
            &&& listed(line) == line.subrange(from, to)
            &&& forall|k: int|
                0 <= k < outer || end <= k < line.len() ==> white_space(#[trigger] line[k])
            &&& forall|k: int| outer <= k < from || to <= k < end ==> #[trigger] line[k] == '"'
            &&& outer < end ==> !white_space(line[outer]) && !white_space(line[end - 1])
            &&& from < to ==> line[from] != '"' && line[to - 1] != '"'
        }),
{
    let white = |c: char| Ends::WhiteSpace.drops(c);
    let quotes = |c: char| Ends::Quotes.drops(c);
    assert forall|c: char| #[trigger] white(c) == white_space(c) by {
        law_white_space_by_code(c);
    }
    assert forall|c: char| #[trigger] quotes(c) == (c == '"') by {
        law_white_space_by_code(c);
    }
    law_trimming_keeps_the_middle(line, white);
    let (outer, end) = choose|from: int, to: int|
        0 <= from <= to <= line.len() && trim(line, white) == #[trigger] line.subrange(from, to) && (
        forall|k: int| 0 <= k < from || to <= k < line.len() ==> white(#[trigger] line[k])) && (from
            < to ==> !white(line[from]) && !white(line[to - 1]));
    let bare = line.subrange(outer, end);
    law_trimming_keeps_the_middle(bare, quotes);
    let (a, b) = choose|from: int, to: int|
        0 <= from <= to <= bare.len() && trim(bare, quotes) == #[trigger] bare.subrange(from, to)
            && (forall|k: int| 0 <= k < from || to <= k < bare.len() ==> quotes(#[trigger] bare[k]))
            && (from < to ==> !quotes(bare[from]) && !quotes(bare[to - 1]));
    let from = outer + a;
    let to = outer + b;
    assert(bare.subrange(a, b) =~= line.subrange(from, to));
    assert forall|k: int| outer <= k < from || to <= k < end implies #[trigger] line[k] == '"' by {
        assert(bare[k - outer] == line[k]);
        assert(quotes(bare[k - outer]));
    }
    assert forall|k: int| 0 <= k < outer || end <= k < line.len() implies white_space(
        #[trigger] line[k],
    ) by {
        assert(white(line[k]));
    }
    if from < to {
        assert(bare[a] == line[from] && bare[b - 1] == line[to - 1]);
    }
    (outer, from, to, end)
}

/// Command files are read line by line: a text marks a link step where what stands before a line
/// feed does or what stands behind it does, and a single line where its argument does.
pub proof fn law_command_files_line_by_line(before: Seq<char>, behind: Seq<char>)
    ensures
        content_links(before + seq!['\n'] + behind) <==> content_links(before) || content_links(
            behind,
        ),
        (forall|i: int| 0 <= i < before.len() ==> before[i] != '\n') ==> (content_links(before)
            <==> names_link_step(listed(before))),
{
    let whole = before + seq!['\n'] + behind;
    law_pieces_on_both_sides(before, '\n', behind);
    let first = split(before, '\n');
    let second = split(behind, '\n');
    let all = split(whole, '\n');
    if content_links(whole) {
        let i = choose|i: int| 0 <= i < all.len() && names_link_step(listed(#[trigger] all[i]));
        if i < first.len() {
            assert(names_link_step(listed(first[i])));
        } else {
            assert(names_link_step(listed(second[i - first.len()])));
        }
    }
    if content_links(before) {
        let i = choose|i: int| 0 <= i < first.len() && names_link_step(listed(#[trigger] first[i]));
        assert(names_link_step(listed(all[i])));
    }
    if content_links(behind) {
        let i = choose|i: int|
            0 <= i < second.len() && names_link_step(listed(#[trigger] second[i]));
        assert(names_link_step(listed(all[first.len() + i])));
    }
    if forall|i: int| 0 <= i < before.len() ==> before[i] != '\n' {
        law_one_piece(before, '\n');
        if names_link_step(listed(before)) {
            assert(names_link_step(listed(first[0])));
        }
    }
}

/// An object file anywhere in a command file marks a link step, whatever its name is before the last
/// two characters, with quotes and white space round it or without.
pub proof fn law_listed_object_files_mark_a_link_step(
    before: Seq<char>,
    name: Seq<char>,
    quotes: Seq<char>,
    space: Seq<char>,
    behind: Seq<char>,
)
    requires
        forall|i: int| 0 <= i < name.len() ==> name[i] != '\n',
        forall|i: int| 0 <= i < quotes.len() ==> quotes[i] == '"',
        forall|i: int| 0 <= i < space.len() ==> white_space(#[trigger] space[i]) && space[i] != '\n',
    ensures
        ({
            let line = name + ".o"@ + quotes + space;
            &&& content_links(line)
            &&& content_links(before + seq!['\n'] + line)
            &&& content_links(line + seq!['\n'] + behind)
            &&& content_links(before + seq!['\n'] + (line + seq!['\n'] + behind))
        }),
{
    reveal_strlit(".o");
    let line = name + ".o"@ + quotes + space;
    let at = name.len() as int + 1;
    assert(line[at] == 'o' && line[at - 1] == '.');
    assert forall|i: int| 0 <= i < line.len() implies line[i] != '\n' by {
        if i > at + quotes.len() {
            assert(line[i] == space[i - at - 1 - quotes.len()]);
        } else if i > at {
            assert(line[i] == quotes[i - at - 1]);
        }
    }
    let (outer, from, to, end) = law_line_without_its_wrapping(line);
    assert(!white_space('o') && !white_space('.') && !white_space('"')) by {
        law_white_space_by_code('o');
        law_white_space_by_code('.');
        law_white_space_by_code('"');
    }
    assert(outer <= at - 1 && at < end) by {
        if !(outer <= at - 1 && at - 1 < end) {
            assert(white_space(line[at - 1]));
        }
        if !(outer <= at && at < end) {
            assert(white_space(line[at]));
        }
    }
    assert(from <= at - 1 && at < to) by {
        if !(from <= at - 1 && at - 1 < to) {
            assert(line[at - 1] == '"');
        }
        if !(from <= at && at < to) {
            assert(line[at] == '"');
        }
    }
    assert(end - 1 <= at + quotes.len()) by {
        if end - 1 > at + quotes.len() {
            assert(line[end - 1] == space[end - 1 - at - 1 - quotes.len()]);
        }
    }
    assert(to == at + 1) by {
        if to - 1 > at {
            assert(line[to - 1] == quotes[to - 1 - at - 1]);
        }
    }
    let argument = listed(line);
    assert(argument[argument.len() - 1] == line[at]);
    assert(argument[argument.len() - 2] == line[at - 1]);
    law_object_files_mark_a_link_step(argument);
    law_command_files_line_by_line(line, behind);
    law_command_files_line_by_line(before, line);
    law_command_files_line_by_line(before, line + seq!['\n'] + behind);
}

/// A command file in UTF-8 holds the text that was encoded.
pub proof fn law_utf8_files_read_back(text: Seq<char>)
    ensures
        decoded(encode_utf8(text)) == text,
{
    encode_utf8_valid_utf8(text);
    encode_utf8_decode_utf8(text);
}

/// A text in UTF-16.
pub open spec fn utf16_of(text: Seq<char>) -> Seq<u16>
    decreases text.len(),
{
    if text.len() == 0 {
        seq![]
    } else {
        let code = text[0] as u32;
        let rest = utf16_of(text.skip(1));
        if code < 0x10000 {
            seq![code as u16] + rest
        } else {
            seq![
                (0xd800 + (code - 0x10000) / 0x400) as u16,
                (0xdc00 + (code - 0x10000) % 0x400) as u16,
            ] + rest
        }
    }
}

/// Text in UTF-16 reads back.
pub proof fn law_utf16_reads_back(text: Seq<char>)
    ensures
        utf16_lossy(utf16_of(text)) == text,
    decreases text.len(),
{
    let all = utf16_of(text);
    if text.len() > 0 {
        let code = text[0] as u32;
        let rest = utf16_of(text.skip(1));
        char_is_scalar(text[0]);
        law_utf16_reads_back(text.skip(1));
        if code < 0x10000 {
            assert(all[0] == code as u16);
            assert(all.skip(1) =~= rest);
            char_u32_cast(text[0], code);
            assert(all[0] as char == text[0]);
            assert(utf16_lossy(all) =~= text);
        } else {
            let high = (code - 0x10000) / 0x400;
            let low = (code - 0x10000) % 0x400;
            assert(all.skip(2) =~= rest);
            assert(all[0] == 0xd800 + high);
            assert(all[1] == 0xdc00 + low);
            assert(0x400 * high + low == code - 0x10000);
            char_u32_cast(text[0], code);
            assert(utf16_lossy(all) =~= text);
        }
    } else {
        assert(utf16_lossy(all) =~= text);
    }
}

/// A unit of a pair that lacks the other reads as U+FFFD, and what follows reads as if it stood
/// alone.
pub proof fn law_lone_units_read_as_replacements(unit: u16, rest: Seq<u16>)
    requires
        0xd800 <= unit <= 0xdfff,
        unit < 0xdc00 ==> rest.len() == 0 || rest[0] < 0xdc00 || rest[0] > 0xdfff,
    ensures
        utf16_lossy(seq![unit] + rest) == seq!['\u{fffd}'] + utf16_lossy(rest),
{
    let all = seq![unit] + rest;
    assert(all.skip(1) =~= rest);
    if rest.len() > 0 {
        assert(all[1] == rest[0]);
    }
}

/// The bytes of code units, the low byte first.
pub open spec fn low_byte_first(text: Seq<u16>) -> Seq<u8> {
    Seq::new(
        2 * text.len(),
        |i: int|
            if i % 2 == 0 {
                (text[i / 2] % 256) as u8
            } else {
                (text[i / 2] / 256) as u8
            },
    )
}

/// A command file in UTF-16 holds the text that was encoded, and an odd byte at its end adds nothing,
/// wherever the bytes are not UTF-8 as well.
pub proof fn law_utf16_files_read_back(text: Seq<char>, odd: u8)
    ensures
        !valid_utf8(low_byte_first(utf16_of(text))) ==> decoded(low_byte_first(utf16_of(text)))
            == text,
        !valid_utf8(low_byte_first(utf16_of(text)).push(odd)) ==> decoded(
            low_byte_first(utf16_of(text)).push(odd),
        ) == text,
{
    let wide = utf16_of(text);
    let bytes = low_byte_first(wide);
    law_utf16_reads_back(text);
    assert(units(bytes) =~= wide);
    assert(units(bytes.push(odd)) =~= wide);
}

/// An argument marks a link step by itself, or through the file that it names behind an at sign.
pub proof fn law_arguments_link_by_text_or_file(argument: Argument)
    ensures
        names_link_step(argument.text@) ==> argument.links(),
        argument.text@.len() > 0 && argument.text@[0] == '@' && argument.file is Some ==> (
        argument.links() <==> names_link_step(argument.text@) || content_links(
            decoded(argument.file->0@),
        )),
        argument.text@.len() == 0 || argument.text@[0] != '@' || argument.file is None ==> (
        argument.links() <==> names_link_step(argument.text@)),
        names_file(argument.text@) <==> argument.text@.len() > 0 && argument.text@[0] == '@',
{
}

/// One argument is enough for a link step, wherever it stands, and without any there is none.
pub proof fn law_any_argument_makes_a_link_step(args: Seq<Argument>, i: int)
    requires
        0 <= i < args.len(),
    ensures
        args[i].links() ==> is_link_step(args),
        is_link_step(args) <==> args[i].links() || is_link_step(args.remove(i)),
        !is_link_step(Seq::empty()),
{
    let others = args.remove(i);
    if is_link_step(args) && !args[i].links() {
        let k = choose|k: int| 0 <= k < args.len() && (#[trigger] args[k]).links();
        if k < i {
            assert(others[k].links());
        } else {
            assert(others[k - 1].links());
        }
    }
    if is_link_step(others) {
        let k = choose|k: int| 0 <= k < others.len() && (#[trigger] others[k]).links();
        if k < i {
            assert(args[k].links());
        } else {
            assert(args[k + 1].links());
        }
    }
}

/// An object file among the arguments makes a link step, whatever its path is before the last two
/// characters.
pub proof fn law_object_file_makes_a_link_step(
    args: Seq<Argument>,
    i: int,
    path: Seq<char>,
)
    requires
        0 <= i < args.len(),
        args[i].text@ == path + ".o"@,
    ensures
        is_link_step(args),
{
    law_object_files_mark_a_link_step(path);
    assert(args[i].links());
}

/// The captured command is what stands behind the wrapper's own name, argument by argument.
pub proof fn law_captures_all_but_the_wrapper(wrapper: Argument, args: Seq<Argument>)
    ensures
        command_of(seq![wrapper] + args).len() == args.len(),
        forall|i: int|
            0 <= i < args.len() ==> #[trigger] command_of(seq![wrapper] + args)[i] == args[i].text@,
        command_of(Seq::empty()).len() == 0,
{
    assert((seq![wrapper] + args).skip(1) =~= args);
}

/// Running a captured command again is the same command: its program, every argument and every pair
/// of the environment at its place, and its directory where one was captured.
pub proof fn law_replays_the_captured_command(replay: Replay, captured: RustcArgs)
    requires
        replay.replays(captured),
    ensures
        replay.envs@.len() == captured.envs@.len(),
        forall|i: int|
            0 <= i < captured.envs@.len() ==> #[trigger] replay.envs@[i] == captured.envs@[i],
        captured.args@.len() > 0 ==> replay.program@ == captured.args@[0]@,
        captured.args@.len() > 0 ==> replay.args@.len() == captured.args@.len() - 1,
        forall|i: int|
            0 <= i < captured.args@.len() - 1 ==> #[trigger] replay.args@[i] == captured.args@[i
                + 1],
        captured.args@.len() == 0 ==> replay.program@ == "rustc"@ && replay.args@.len() == 0,
        captured.cwd@.len() == 0 <==> replay.current_dir is None,
        captured.cwd@.len() > 0 ==> replay.current_dir is Some && replay.current_dir->0@
            == captured.cwd@,
{
}

proof fn lemma_position_found(items: Seq<Seq<char>>, item: Seq<char>)
    ensures
        0 <= position(items, item) <= items.len(),
        position(items, item) < items.len() ==> items[position(items, item)] == item,
        forall|i: int| 0 <= i < position(items, item) ==> items[i] != item,
    decreases items.len(),
{
    if items.len() > 0 && items[0] != item {
        let rest = items.skip(1);
        lemma_position_found(rest, item);
        assert forall|i: int| 0 <= i < position(items, item) implies items[i] != item by {
            if i > 0 {
                assert(rest[i - 1] == items[i]);
            }
        }
    }
}

/// The value of a flag is the argument right behind the first place where the flag stands. There is
/// none where the flag stands nowhere, or nowhere but at the end.
pub proof fn law_value_behind_the_first_flag(args: Seq<Seq<char>>, flag: Seq<char>)
    ensures
        forall|i: int|
            0 <= i < args.len() && #[trigger] args[i] == flag && (forall|j: int|
                0 <= j < i ==> args[j] != flag) ==> argument_after(args, flag) == (if i + 1
                < args.len() {
                Some(args[i + 1])
            } else {
                None
            }),
        (forall|i: int| 0 <= i < args.len() ==> args[i] != flag) ==> argument_after(args, flag)
            is None,
{
    lemma_position_found(args, flag);
    let at = position(args, flag);
    assert forall|i: int|
        0 <= i < args.len() && #[trigger] args[i] == flag && (forall|j: int|
            0 <= j < i ==> args[j] != flag) implies argument_after(args, flag) == (if i + 1
        < args.len() {
        Some(args[i + 1])
    } else {
        None
    }) by {
        assert(at == i);
    }
}

/// A command that names a crate is recorded under that name, whatever else its arguments say, unless
/// the name is the one that Cargo probes rustc under. No other command is recorded.
pub proof fn law_recorded_under_the_crates_name(
    before: Seq<Seq<char>>,
    name: Seq<char>,
    behind: Seq<Seq<char>>,
)
    requires
        forall|i: int| 0 <= i < before.len() ==> before[i] != "--crate-name"@,
    ensures
        record_for(before + seq!["--crate-name"@, name] + behind) == (if name == "___"@ {
            None
        } else {
            Some(name + ".json"@)
        }),
        record_for(before) is None,
        record_for(before + seq!["--crate-name"@]) is None,
{
    let flag = "--crate-name"@;
    let args = before + seq![flag, name] + behind;
    law_value_behind_the_first_flag(args, flag);
    assert(args[before.len() as int] == flag);
    assert(args[before.len() as int + 1] == name);
    law_value_behind_the_first_flag(before, flag);
    let open = before + seq![flag];
    law_value_behind_the_first_flag(open, flag);
    assert(open[before.len() as int] == flag);
}

/// A process that ended by itself hands its code on; one that a signal ended counts as failed.
pub proof fn law_exit_codes_are_handed_on(code: i32)
    ensures
        exit_status(Some(code)) == code,
        exit_status(None) == 1,
{
}

/// Bytes that are not UTF-8 are read as UTF-16, unit by unit with the low byte first, whatever units
/// they are; an odd byte at the end is none.
pub proof fn law_bytes_pair_up(wide: Seq<u16>, odd: u8, bytes: Seq<u8>)
    ensures
        units(low_byte_first(wide)) == wide,
        units(low_byte_first(wide).push(odd)) == wide,
        !valid_utf8(bytes) ==> decoded(bytes) == utf16_lossy(units(bytes)),
{
    assert(units(low_byte_first(wide)) =~= wide);
    assert(units(low_byte_first(wide).push(odd)) =~= wide);
}

/// The file that an argument names is what stands behind its at sign; without one it names none.
pub proof fn law_files_are_named_behind_an_at_sign(path: Seq<char>)
    ensures
        file_named_by(seq!['@'] + path) == Some(path),
        path.len() == 0 || path[0] != '@' ==> file_named_by(path) is None,
{
    assert((seq!['@'] + path).skip(1) =~= path);
}

/// A workspace's capture starts with every link argument that it is given, and with no command.
pub proof fn law_captures_start_with_the_link_arguments(
    capture: WorkspaceRustcArgs,
    link_args: Seq<String>,
)
    requires
        capture.starts_with(link_args),
    ensures
        capture.link_args@.len() == link_args.len(),
        forall|i: int|
            0 <= i < link_args.len() ==> #[trigger] capture.link_args@[i] == link_args[i],
        forall|name: String| !(#[trigger] capture.rustc_args@.contains_key(name)),
{
}

/// The wrapper records every argument behind its own name with the whole environment and the
/// directory, for link steps as for others. It links where some argument asks for that, and otherwise
/// runs the same command.
pub proof fn law_wrapper_records_then_links_or_runs(
    invocation: Invocation,
    wrapper: Argument,
    args: Seq<Argument>,
    envs: Seq<(String, String)>,
    cwd: Seq<char>,
)
    requires
        invocation.answers(seq![wrapper] + args, envs, cwd),
    ensures
        invocation.rustc_args.args@.len() == args.len(),
        forall|i: int|
            0 <= i < args.len() ==> (#[trigger] invocation.rustc_args.args@[i])@ == args[i].text@,
        invocation.rustc_args.envs@.len() == envs.len(),
        forall|i: int| 0 <= i < envs.len() ==> #[trigger] invocation.rustc_args.envs@[i] == envs[i],
        invocation.rustc_args.cwd@ == cwd,
        invocation.rustc_args.link_args@.len() == 0,
        text_of(invocation.record) == record_for(texts(invocation.rustc_args.args@)),
        invocation.next is Link <==> exists|i: int|
            0 <= i < args.len() + 1 && (#[trigger] (seq![wrapper] + args)[i]).links(),
        invocation.next matches Next::Compile(replay) ==> {
            &&& replay.envs@.len() == envs.len()
            &&& forall|i: int| 0 <= i < envs.len() ==> #[trigger] replay.envs@[i] == envs[i]
            &&& replay.args@ == (if args.len() > 0 {
                invocation.rustc_args.args@.skip(1)
            } else {
                Seq::empty()
            })
            &&& args.len() > 0 ==> replay.program@ == args[0].text@
            &&& cwd.len() > 0 ==> replay.current_dir is Some && replay.current_dir->0@ == cwd
        },
{
    law_captures_all_but_the_wrapper(wrapper, args);
    let all = invocation.rustc_args.args@;
    assert(texts(all).len() == all.len());
    assert forall|i: int| 0 <= i < args.len() implies (#[trigger] all[i])@ == args[i].text@ by {
        assert(texts(all)[i] == all[i]@);
    }
    if let Next::Compile(replay) = invocation.next {
        law_replays_the_captured_command(replay, invocation.rustc_args);
        if args.len() > 0 {
            assert(replay.args@ =~= all.skip(1));
        } else {
            assert(replay.args@ =~= Seq::empty());
        }
    }
}

} // verus!
