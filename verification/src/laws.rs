//! The protocol engine's laws: what holds of every input, stated over the
//! same spec functions the executable contracts use, and proved once.

use vstd::prelude::*;
use crate::executor::{
    spec_plan, spec_respond, store_apply, store_read, Action, AttrKind, AttrOutcomeView,
    StoreModel,
};
use crate::matcher::{set_rule_digits, set_rule_matches, spec_parse, test_rule_matches, CommandView};
use crate::text::{
    all_digits, all_spaces, dec_rep, digits_val, is_space_char, lemma_dec_rep_digits,
    lemma_dec_rep_val, lemma_skip_spaces_at, lemma_trim_all_digits, lemma_trim_embedded,
    skip_spaces, trim_spec,
};

verus! {

/// Law: a line made of the `setPowerLimit:` keyword, optional whitespace and
/// a digit run whose value fits in 32 bits — whitespace around the whole
/// line tolerated — parses to `SetPowerLimit` carrying exactly that value.
pub proof fn lemma_set_command_parsed(
    lead: Seq<char>,
    pad: Seq<char>,
    digits: Seq<char>,
    tail: Seq<char>,
)
    requires
        all_spaces(lead),
        all_spaces(pad),
        all_spaces(tail),
        digits.len() > 0,
        all_digits(digits),
        digits_val(digits) <= u32::MAX,
    ensures
        spec_parse(lead + ("setPowerLimit:"@ + pad + digits) + tail) == CommandView::SetPowerLimit(
            digits_val(digits) as u32,
        ),
{
    reveal_strlit("setPowerLimit:");
    let core = "setPowerLimit:"@ + pad + digits;
    assert(core[0] == 's');
    assert(core.last() == digits.last());
    assert(!is_space_char(digits.last()));
    lemma_trim_embedded(lead, core, tail);
    assert(core.subrange(0, 14) =~= "setPowerLimit:"@);
    assert(core.skip(14) =~= pad + digits);
    lemma_skip_spaces_at(pad + digits, pad.len() as int);
    assert((pad + digits).subrange(pad.len() as int, (pad + digits).len() as int) =~= digits);
    assert(set_rule_digits(core) == digits);
    assert(set_rule_matches(core));
}

/// Law: a line that is exactly one of the three get keywords, whitespace
/// around it tolerated, parses to the matching no-argument variant.
pub proof fn lemma_get_commands_parsed(lead: Seq<char>, tail: Seq<char>)
    requires
        all_spaces(lead),
        all_spaces(tail),
    ensures
        spec_parse(lead + "getPowerLimit"@ + tail) == CommandView::GetPowerLimit,
        spec_parse(lead + "getPowerMax"@ + tail) == CommandView::GetPowerMax,
        spec_parse(lead + "getPowerMin"@ + tail) == CommandView::GetPowerMin,
{
    reveal_strlit("setPowerLimit:");
    reveal_strlit("getPowerLimit");
    reveal_strlit("getPowerMax");
    reveal_strlit("getPowerMin");
    lemma_trim_embedded(lead, "getPowerLimit"@, tail);
    lemma_trim_embedded(lead, "getPowerMax"@, tail);
    lemma_trim_embedded(lead, "getPowerMin"@, tail);
    assert("getPowerMax"@[9] == 'a');
    assert("getPowerMin"@[9] == 'i');
}

/// Law: a line of the word `test`, then whitespace, then an argument that
/// neither starts nor ends with whitespace — whitespace around the whole
/// line tolerated — parses to `Test` carrying the argument verbatim.
pub proof fn lemma_test_command_with_arg(
    lead: Seq<char>,
    pad: Seq<char>,
    arg: Seq<char>,
    tail: Seq<char>,
)
    requires
        all_spaces(lead),
        all_spaces(pad),
        all_spaces(tail),
        pad.len() > 0,
        arg.len() > 0,
        !is_space_char(arg[0]),
        !is_space_char(arg.last()),
    ensures
        spec_parse(lead + ("test"@ + pad + arg) + tail) == CommandView::Test(arg),
{
    reveal_strlit("setPowerLimit:");
    reveal_strlit("getPowerLimit");
    reveal_strlit("getPowerMax");
    reveal_strlit("getPowerMin");
    reveal_strlit("test");
    let core = "test"@ + pad + arg;
    assert(core[0] == 't');
    assert(core.last() == arg.last());
    lemma_trim_embedded(lead, core, tail);
    assert(!set_rule_matches(core)) by {
        if core.len() >= 14 {
            assert(core.subrange(0, 14)[0] == core[0]);
        }
    }
    assert(core.len() > 4);
    assert(core.subrange(0, 4) =~= "test"@);
    assert(core[4] == pad[0]);
    assert(core.skip(4) =~= pad + arg);
    lemma_skip_spaces_at(pad + arg, pad.len() as int);
    assert((pad + arg).subrange(pad.len() as int, (pad + arg).len() as int) =~= arg);
}

/// Law: a line of the bare word `test`, whitespace around it tolerated,
/// parses to `Test` with the empty argument.
pub proof fn lemma_test_command_bare(lead: Seq<char>, tail: Seq<char>)
    requires
        all_spaces(lead),
        all_spaces(tail),
    ensures
        spec_parse(lead + "test"@ + tail) == CommandView::Test(Seq::<char>::empty()),
{
    reveal_strlit("setPowerLimit:");
    reveal_strlit("getPowerLimit");
    reveal_strlit("getPowerMax");
    reveal_strlit("getPowerMin");
    reveal_strlit("test");
    lemma_trim_embedded(lead, "test"@, tail);
    assert(skip_spaces("test"@.skip(4)) =~= Seq::<char>::empty());
}

/// Law: a line that no rule accepts parses to `Unknown` carrying the
/// original untrimmed line.
pub proof fn lemma_unmatched_is_unknown(raw: Seq<char>)
    requires
        ({
            let t = trim_spec(raw);
            &&& !set_rule_matches(t)
            &&& t != "getPowerLimit"@
            &&& t != "getPowerMax"@
            &&& t != "getPowerMin"@
            &&& !test_rule_matches(t)
        }),
    ensures
        spec_parse(raw) == CommandView::Unknown(raw),
{
}

/// Law: a set command whose digits overflow the 32-bit value falls back to
/// `Unknown` carrying the original untrimmed line — the one fixed policy for
/// malformed numeric payloads, and never a panic, since `parse_command`
/// returns on every input.
pub proof fn lemma_overflow_falls_to_unknown(raw: Seq<char>)
    requires
        set_rule_matches(trim_spec(raw)),
        digits_val(set_rule_digits(trim_spec(raw))) > u32::MAX,
    ensures
        spec_parse(raw) == CommandView::Unknown(raw),
{
}

/// Law: a read changes no attribute, so the same get asked twice with no
/// set in between is answered identically — as long as nothing outside the
/// bridge changes the attribute, which the store model rules out.
pub proof fn lemma_get_idempotent(s: StoreModel, c: CommandView, k: AttrKind)
    requires
        spec_plan(c) == Action::ReadAttr(k),
    ensures
        ({
            let s1 = store_apply(s, spec_plan(c));
            let first = spec_respond(c, AttrOutcomeView::ReadBack(Result::Ok(store_read(s, k))));
            let second = spec_respond(
                c,
                AttrOutcomeView::ReadBack(Result::Ok(store_read(s1, k))),
            );
            &&& s1 == s
            &&& first == second
        }),
{
}

/// Law: a set followed by a get of the current limit answers the peer with
/// exactly the decimal text of the value just set, CR/LF framed — assuming
/// the attribute applies the write as given, which the store model does.
pub proof fn lemma_set_then_get_round_trip(s: StoreModel, v: u32)
    ensures
        ({
            let s1 = store_apply(s, spec_plan(CommandView::SetPowerLimit(v)));
            let out = spec_respond(
                CommandView::GetPowerLimit,
                AttrOutcomeView::ReadBack(Result::Ok(store_read(s1, AttrKind::CurrentLimit))),
            );
            &&& store_read(s1, AttrKind::CurrentLimit) == dec_rep(v as nat)
            &&& digits_val(store_read(s1, AttrKind::CurrentLimit)) == v as nat
            &&& out.peer == Option::Some(dec_rep(v as nat) + "\r\n"@)
            &&& out.local is None
        }),
{
    lemma_dec_rep_digits(v as nat);
    lemma_trim_all_digits(dec_rep(v as nat));
    lemma_dec_rep_val(v as nat);
}

} // verus!
