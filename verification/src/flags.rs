//! Command line flags.

use crate::text;
use crate::text::{parse_u64, same};
use vstd::prelude::*;
use vstd::string::*;

verus! {

/// The value behind the first occurrence of a flag, the last argument excepted.
pub open spec fn flag_value(args: Seq<Seq<char>>, name: Seq<char>) -> Option<Seq<char>>
    decreases args.len(),
{
    if args.len() < 2 {
        None
    } else if args[0] == name {
        Some(args[1])
    } else {
        flag_value(args.drop_first(), name)
    }
}

/// The value behind the first occurrence of a flag.
pub fn take_flag_value(args: &Vec<String>, name: &str) -> (r: Option<String>)
    ensures
        text::optional(r) == flag_value(text::texts(args@), name@),
{
    let ghost all = text::texts(args@);
    assert(all.skip(0) =~= all);
    let mut i: usize = 0;
    while i < args.len() && args.len() - i >= 2
        invariant
            i <= args@.len(),
            all == text::texts(args@),
            flag_value(all, name@) == flag_value(all.skip(i as int), name@),
        decreases args@.len() - i,
    {
        assert(all.skip(i as int).drop_first() =~= all.skip(i + 1));
        if same(args[i].as_str(), name) {
            return Some(args[i + 1].as_str().to_owned());
        }
        i += 1;
    }
    None
}

/// Whether a flag was given.
pub fn has_flag(args: &Vec<String>, name: &str) -> (r: bool)
    ensures
        r == text::texts(args@).contains(name@),
{
    let ghost all = text::texts(args@);
    let mut i: usize = 0;
    while i < args.len()
        invariant
            i <= args@.len(),
            all == text::texts(args@),
            forall|k: int| 0 <= k < i ==> all[k] != name@,
        decreases args@.len() - i,
    {
        if same(args[i].as_str(), name) {
            assert(all[i as int] == name@);
            return true;
        }
        i += 1;
    }
    false
}

/// The value of a flag, or else a default.
pub open spec fn flag_value_or(
    args: Seq<Seq<char>>,
    name: Seq<char>,
    default: Seq<char>,
) -> Seq<char> {
    match flag_value(args, name) {
        Some(v) => v,
        None => default,
    }
}

/// The value of a flag, or else a default.
pub fn take_flag_value_or(args: &Vec<String>, name: &str, default: &str) -> (r: String)
    ensures
        r@ == flag_value_or(text::texts(args@), name@, default@),
{
    match take_flag_value(args, name) {
        Some(v) => v,
        None => default.to_owned(),
    }
}

/// The number that a flag gives, a default where it is not given, and nothing where
/// its value is no number that a count can be.
pub open spec fn count_flag(
    args: Seq<Seq<char>>,
    name: Seq<char>,
    default: usize,
) -> Option<usize> {
    match flag_value(args, name) {
        None => Some(default),
        Some(v) => match text::parsed(v) {
            Some(n) => if n <= usize::MAX {
                Some(n as usize)
            } else {
                None
            },
            None => None,
        },
    }
}

/// The number that a flag gives.
pub fn parse_usize_flag(args: &Vec<String>, name: &str, default_value: usize) -> (r: Result<
    usize,
    String,
>)
    ensures
        match count_flag(text::texts(args@), name@, default_value) {
            Some(n) => r == Ok::<usize, String>(n),
            None => r matches Err(e) && e@ == name@ + " must be an integer"@,
        },
{
    match take_flag_value(args, name) {
        None => Ok(default_value),
        Some(v) => {
            match parse_u64(v.as_str()) {
                Some(n) => {
                    if n <= usize::MAX as u64 {
                        return Ok(n as usize);
                    }
                },
                None => {},
            }
            let mut e = name.to_owned();
            e.append(" must be an integer");
            Err(e)
        },
    }
}

/// Whether help was asked for.
pub fn help_requested(args: &Vec<String>) -> (r: bool)
    ensures
        r == (text::texts(args@).contains("--help"@) || text::texts(args@).contains("-h"@)),
{
    has_flag(args, "--help") || has_flag(args, "-h")
}

/// A flag and the value behind it are read back, whatever stands behind them.
pub proof fn law_a_flag_is_read_back(
    before: Seq<Seq<char>>,
    name: Seq<char>,
    value: Seq<char>,
    after: Seq<Seq<char>>,
)
    requires
        !before.contains(name),
    ensures
        flag_value(before + seq![name, value] + after, name) == Some(value),
    decreases before.len(),
{
    let all = before + seq![name, value] + after;
    if before.len() > 0 {
        assert(before.contains(before[0]));
        assert(all[0] == before[0]);
        assert(all.drop_first() =~= before.drop_first() + seq![name, value] + after);
        assert forall|i: int| 0 <= i < before.drop_first().len() implies before.drop_first()[i]
            != name by {
            assert(before.contains(before[i + 1]));
        }
        law_a_flag_is_read_back(before.drop_first(), name, value, after);
    }
}

} // verus!
