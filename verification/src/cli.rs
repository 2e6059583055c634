//! Decisions of the command line: the format that a file name asks for, and
//! the arguments with the option repeated before each of its values.

use vstd::prelude::*;
use crate::constants::Format;
use crate::text::{
    chars_of, chars_of_all, ends_with, has_prefix, has_suffix, starts_with, string_views,
    strings_of, views,
};

verus! {

/// The format that the ending of a file name asks for.
pub open spec fn format_of_ending(path: Seq<char>) -> Option<Format> {
    if ends_with(path, ".cdb"@) {
        Some(Format::CDB)
    } else if ends_with(path, ".sql"@) {
        Some(Format::SQL)
    } else if ends_with(path, ".txt"@) {
        Some(Format::Xyyz)
    } else if ends_with(path, ".xyyz"@) {
        Some(Format::Xyyz)
    } else if ends_with(path, ".lua"@) {
        Some(Format::Script)
    } else {
        None
    }
}

/// The format of a file: what its ending asks for, else the default, else
/// xyyz.
pub open spec fn guessed_format(path: Seq<char>, default: Option<Format>) -> Format {
    match format_of_ending(path) {
        Some(format) => format,
        None => match default {
            Some(format) => format,
            None => Format::Xyyz,
        },
    }
}

/// The format that the ending of a file name asks for.
pub fn ending_format(path: &str) -> (r: Option<Format>)
    ensures
        r == format_of_ending(path@),
{
    let path = chars_of(path);
    if has_suffix(&path, &chars_of(".cdb")) {
        Some(Format::CDB)
    } else if has_suffix(&path, &chars_of(".sql")) {
        Some(Format::SQL)
    } else if has_suffix(&path, &chars_of(".txt")) {
        Some(Format::Xyyz)
    } else if has_suffix(&path, &chars_of(".xyyz")) {
        Some(Format::Xyyz)
    } else if has_suffix(&path, &chars_of(".lua")) {
        Some(Format::Script)
    } else {
        None
    }
}

/// The format of a file.
pub fn guess_format(path: &str, default: Option<Format>) -> (r: Format)
    ensures
        r == guessed_format(path@, default),
{
    match ending_format(path) {
        Some(format) => format,
        None => match default {
            Some(format) => format,
            None => Format::Xyyz,
        },
    }
}

/// What going through the arguments holds.
pub struct Arguments {
    /// The arguments so far, options repeated.
    pub done: Seq<Seq<char>>,
    /// The option that values belong to.
    pub option: Seq<char>,
    /// The number of values since that option.
    pub values: nat,
}

/// The state after one argument. An argument that begins with `-` is an
/// option and is kept as it is. Any other is a value: from the second value
/// of an option on, the option is repeated before it. A value at the very
/// start belongs to `--from`.
pub open spec fn argument_step(st: Arguments, arg: Seq<char>) -> Arguments {
    if starts_with(arg, "-"@) {
        Arguments { done: st.done.push(arg), option: arg, values: 0 }
    } else {
        let option = if st.done.len() == 0 {
            "--from"@
        } else {
            st.option
        };
        Arguments {
            done: if st.values >= 1 {
                st.done.push(option).push(arg)
            } else {
                st.done.push(arg)
            },
            option: option,
            values: st.values + 1,
        }
    }
}

/// The state after the given arguments.
pub open spec fn argument_steps(args: Seq<Seq<char>>) -> Arguments
    decreases args.len(),
{
    if args.len() == 0 {
        Arguments { done: seq![], option: seq![], values: 0 }
    } else {
        argument_step(argument_steps(args.drop_last()), args.last())
    }
}

/// The arguments with each option repeated before every value of it but the
/// first.
pub fn preprocess(args: &Vec<String>) -> (r: Vec<String>)
    ensures
        string_views(r@) == argument_steps(string_views(args@)).done,
{
    let args = chars_of_all(args);
    let dash = chars_of("-");
    let mut done: Vec<Vec<char>> = Vec::new();
    let mut option: Vec<char> = Vec::new();
    let mut values: usize = 0;
    let mut i: usize = 0;
    assert(views(done@) =~= Seq::<Seq<char>>::empty());
    while i < args.len()
        invariant
            i <= args.len(),
            values <= i,
            dash@ == "-"@,
            argument_steps(views(args@).take(i as int)) == (Arguments {
                done: views(done@),
                option: option@,
                values: values as nat,
            }),
        decreases args.len() - i,
    {
        proof {
            let next = views(args@).take(i + 1);
            assert(next.drop_last() =~= views(args@).take(i as int));
            assert(next.last() == args@[i as int]@);
        }
        let arg = args[i].clone();
        let ghost before = views(done@);
        if has_prefix(&arg, &dash) {
            option = arg.clone();
            values = 0;
        } else {
            if done.len() == 0 {
                option = chars_of("--from");
            }
            values += 1;
            if values > 1 {
                done.push(option.clone());
                assert(views(done@) =~= before.push(option@));
            }
        }
        let ghost middle = views(done@);
        done.push(arg);
        assert(views(done@) =~= middle.push(arg@));
        i += 1;
    }
    assert(views(args@).take(args@.len() as int) =~= views(args@));
    strings_of(&done)
}

} // verus!
