//! The command grammar and its matcher.
//!
//! A received line is classified against an ordered, fixed set of rules,
//! first match wins; a line that no rule accepts passes through untouched as
//! `Unknown`.  Matching is case-sensitive and anchored to the whole trimmed
//! line.

use vstd::prelude::*;
use crate::text::{
    all_digits, digits_val, is_space_char, skip_spaces, trim_spec, is_space, parse_digits_u32,
    str_eq, has_prefix, trim_str, lemma_skip_spaces_at,
};

verus! {

/// A classified command line: the closed set of variants the matcher can
/// produce, consumed by the executor one line at a time.
#[derive(Debug, PartialEq, Eq)]
pub enum Command {
    /// Set the current power limit, value in the attribute's native unit.
    SetPowerLimit(u32),
    /// Ask for the current power limit.
    GetPowerLimit,
    /// Ask for the highest settable limit.
    GetPowerMax,
    /// Ask for the lowest settable limit.
    GetPowerMin,
    /// Diagnostic echo with a free-form, possibly empty argument.
    Test(String),
    /// Anything the grammar does not know, carrying the untrimmed line.
    Unknown(String),
}

/// Ghost image of a `Command`, its text as character sequences.
pub enum CommandView {
    SetPowerLimit(u32),
    GetPowerLimit,
    GetPowerMax,
    GetPowerMin,
    Test(Seq<char>),
    Unknown(Seq<char>),
}

impl View for Command {
    type V = CommandView;

    open spec fn view(&self) -> CommandView {
        match self {
            Command::SetPowerLimit(v) => CommandView::SetPowerLimit(*v),
            Command::GetPowerLimit => CommandView::GetPowerLimit,
            Command::GetPowerMax => CommandView::GetPowerMax,
            Command::GetPowerMin => CommandView::GetPowerMin,
            Command::Test(s) => CommandView::Test(s@),
            Command::Unknown(s) => CommandView::Unknown(s@),
        }
    }
}

/// The digit run a set command carries: what follows the keyword and the
/// optional whitespace after the colon.
pub open spec fn set_rule_digits(t: Seq<char>) -> Seq<char> {
    skip_spaces(t.skip("setPowerLimit:"@.len() as int))
}

/// Rule one: `setPowerLimit:` followed by optional whitespace and a
/// non-empty digit run that reaches the end of the trimmed line.
pub open spec fn set_rule_matches(t: Seq<char>) -> bool {
    let p = "setPowerLimit:"@;
    &&& t.len() >= p.len()
    &&& t.subrange(0, p.len() as int) == p
    &&& set_rule_digits(t).len() > 0
    &&& all_digits(set_rule_digits(t))
}

/// Rule five: the bare word `test`, or `test` followed by whitespace and a
/// free-form argument.
pub open spec fn test_rule_matches(t: Seq<char>) -> bool {
    let p = "test"@;
    ||| t == p
    ||| (t.len() > p.len() && t.subrange(0, p.len() as int) == p && is_space_char(
        t[p.len() as int],
    ))
}

/// The argument a test command carries: what follows the keyword and the
/// whitespace run after it, verbatim.
pub open spec fn test_rule_arg(t: Seq<char>) -> Seq<char> {
    skip_spaces(t.skip("test"@.len() as int))
}

/// The whole grammar: trim the received line, then try the rules in their
/// fixed priority order.  A set command whose digits do not fit in 32 bits
/// falls through to `Unknown` carrying the untrimmed line, as does every
/// line no rule accepts.
pub open spec fn spec_parse(raw: Seq<char>) -> CommandView {
    let t = trim_spec(raw);
    if set_rule_matches(t) {
        if digits_val(set_rule_digits(t)) <= u32::MAX {
            CommandView::SetPowerLimit(digits_val(set_rule_digits(t)) as u32)
        } else {
            CommandView::Unknown(raw)
        }
    } else if t == "getPowerLimit"@ {
        CommandView::GetPowerLimit
    } else if t == "getPowerMax"@ {
        CommandView::GetPowerMax
    } else if t == "getPowerMin"@ {
        CommandView::GetPowerMin
    } else if test_rule_matches(t) {
        CommandView::Test(test_rule_arg(t))
    } else {
        CommandView::Unknown(raw)
    }
}

/// Classify one received line, exactly as `spec_parse` says.
pub fn parse_command(line: &str) -> (cmd: Command)
    ensures
        cmd@ == spec_parse(line@),
{
    let trimmed = trim_str(line);
    let t = trimmed.as_str();
    let set_pre = "setPowerLimit:";
    proof {
        reveal_strlit("setPowerLimit:");
        reveal_strlit("getPowerLimit");
        reveal_strlit("getPowerMax");
        reveal_strlit("getPowerMin");
        reveal_strlit("test");
    }
    if has_prefix(t, set_pre) {
        let n = t.unicode_len();
        let plen = set_pre.unicode_len();
        let mut i: usize = plen;
        while i < n && is_space(t.get_char(i))
            invariant
                plen <= i <= n,
                n == t@.len(),
                forall|j: int| plen <= j < i ==> is_space_char(#[trigger] t@[j]),
            decreases n - i,
        {
            i = i + 1;
        }
        proof {
            let tail = t@.skip(plen as int);
            lemma_skip_spaces_at(tail, i - plen);
            assert(tail.subrange(i - plen, tail.len() as int) =~= t@.subrange(
                i as int,
                n as int,
            ));
        }
        match parse_digits_u32(t, i) {
            Option::Some(v) => Command::SetPowerLimit(v),
            Option::None => {
                proof {
                    let p = "setPowerLimit:"@;
                    assert(t@.subrange(0, p.len() as int)[0] == t@[0]);
                    assert(t@[0] == 's');
                    assert(t@.len() >= 14);
                    assert(t@.subrange(0, 4)[0] == t@[0]);
                    assert(!test_rule_matches(t@));
                }
                Command::Unknown(line.to_owned())
            },
        }
    } else if str_eq(t, "getPowerLimit") {
        Command::GetPowerLimit
    } else if str_eq(t, "getPowerMax") {
        Command::GetPowerMax
    } else if str_eq(t, "getPowerMin") {
        Command::GetPowerMin
    } else if str_eq(t, "test") {
        proof {
            assert(skip_spaces(t@.skip(4)) =~= Seq::<char>::empty());
        }
        Command::Test(String::new())
    } else if has_prefix(t, "test") && 4 < t.unicode_len() && is_space(t.get_char(4)) {
        let n = t.unicode_len();
        let mut i: usize = 5;
        while i < n && is_space(t.get_char(i))
            invariant
                5 <= i <= n,
                n == t@.len(),
                is_space_char(t@[4]),
                forall|j: int| 5 <= j < i ==> is_space_char(#[trigger] t@[j]),
            decreases n - i,
        {
            i = i + 1;
        }
        proof {
            let tail = t@.skip(4);
            lemma_skip_spaces_at(tail, i - 4);
            assert(tail.subrange(i - 4, tail.len() as int) =~= t@.subrange(i as int, n as int));
        }
        let arg = t.substring_char(i, n);
        Command::Test(arg.to_owned())
    } else {
        Command::Unknown(line.to_owned())
    }
}

} // verus!
