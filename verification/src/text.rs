//! Character classes, whitespace trimming and decimal digits: the textual
//! ground the command grammar is built on.

use vstd::prelude::*;

verus! {

/// Whitespace as the protocol understands it: the six ASCII characters that
/// line endings and padding are made of.
pub open spec fn is_space_char(c: char) -> bool {
    c == ' ' || c == '\t' || c == '\n' || c == '\r' || c == '\x0b' || c == '\x0c'
}

/// Decimal digit.
pub open spec fn is_digit_char(c: char) -> bool {
    48 <= c as u32 <= 57
}

/// Numeric value of a decimal digit character.
pub open spec fn digit_val(c: char) -> nat {
    (c as u32 - 48) as nat
}

pub open spec fn all_digits(s: Seq<char>) -> bool {
    forall|i: int| 0 <= i < s.len() ==> is_digit_char(#[trigger] s[i])
}

pub open spec fn all_spaces(s: Seq<char>) -> bool {
    forall|i: int| 0 <= i < s.len() ==> is_space_char(#[trigger] s[i])
}

/// Value of a digit string, most significant digit first.
pub open spec fn digits_val(s: Seq<char>) -> nat
    decreases s.len(),
{
    if s.len() == 0 {
        0
    } else {
        digits_val(s.drop_last()) * 10 + digit_val(s.last())
    }
}

/// The input with its leading run of whitespace removed.
pub open spec fn skip_spaces(s: Seq<char>) -> Seq<char>
    decreases s.len(),
{
    if s.len() > 0 && is_space_char(s[0]) {
        skip_spaces(s.drop_first())
    } else {
        s
    }
}

/// The input with its trailing run of whitespace removed.
pub open spec fn skip_spaces_end(s: Seq<char>) -> Seq<char>
    decreases s.len(),
{
    if s.len() > 0 && is_space_char(s.last()) {
        skip_spaces_end(s.drop_last())
    } else {
        s
    }
}

/// The input with leading and trailing whitespace removed: the logical line
/// the matcher works on.
pub open spec fn trim_spec(s: Seq<char>) -> Seq<char> {
    skip_spaces_end(skip_spaces(s))
}

/// `skip_spaces` removes exactly the leading whitespace run: once the index
/// of the first non-space character is known, the result is the tail from
/// that index on.
pub proof fn lemma_skip_spaces_at(s: Seq<char>, i: int)
    requires
        0 <= i <= s.len(),
        forall|j: int| 0 <= j < i ==> is_space_char(#[trigger] s[j]),
        i == s.len() || !is_space_char(s[i]),
    ensures
        skip_spaces(s) == s.subrange(i, s.len() as int),
    decreases i,
{
    if i == 0 {
        assert(s.subrange(0, s.len() as int) =~= s);
    } else {
        assert(is_space_char(s[0]));
        lemma_skip_spaces_at(s.drop_first(), i - 1);
        assert(s.subrange(i, s.len() as int) =~= s.drop_first().subrange(
            i - 1,
            s.drop_first().len() as int,
        ));
    }
}

/// `skip_spaces_end` removes exactly the trailing whitespace run: once the
/// index just past the last non-space character is known, the result is the
/// prefix up to that index.
pub proof fn lemma_skip_spaces_end_at(s: Seq<char>, e: int)
    requires
        0 <= e <= s.len(),
        forall|j: int| e <= j < s.len() ==> is_space_char(#[trigger] s[j]),
        e == 0 || !is_space_char(s[e - 1]),
    ensures
        skip_spaces_end(s) == s.subrange(0, e),
    decreases s.len(),
{
    if e == s.len() {
        assert(s.subrange(0, s.len() as int) =~= s);
    } else {
        assert(is_space_char(s.last()));
        lemma_skip_spaces_end_at(s.drop_last(), e);
        assert(s.subrange(0, e) =~= s.drop_last().subrange(0, e));
    }
}

/// Character holding one decimal digit value.
pub open spec fn digit_char(d: nat) -> char {
    ((48 + d) as u8) as char
}

/// Decimal representation of a number, most significant digit first, no
/// leading zeros (a lone zero for zero).
pub open spec fn dec_rep(v: nat) -> Seq<char>
    decreases v,
{
    if v < 10 {
        seq![digit_char(v)]
    } else {
        dec_rep(v / 10).push(digit_char(v % 10))
    }
}

/// Appending a digit multiplies the value by ten and adds the digit.
pub proof fn lemma_digits_val_snoc(s: Seq<char>, c: char)
    ensures
        digits_val(s.push(c)) == digits_val(s) * 10 + digit_val(c),
{
    assert(s.push(c).drop_last() =~= s);
}

/// A digit string is worth at least any of its prefixes.
pub proof fn lemma_digits_val_prefix(s: Seq<char>, k: int)
    requires
        0 <= k <= s.len(),
    ensures
        digits_val(s.subrange(0, k)) <= digits_val(s),
    decreases s.len() - k,
{
    if k == s.len() {
        assert(s.subrange(0, k) =~= s);
    } else {
        lemma_digits_val_prefix(s, k + 1);
        let p1 = s.subrange(0, k + 1);
        assert(p1.drop_last() =~= s.subrange(0, k));
        assert(digits_val(p1) == digits_val(s.subrange(0, k)) * 10 + digit_val(p1.last()));
    }
}

/// A decimal representation is a non-empty run of digits.
pub proof fn lemma_dec_rep_digits(v: nat)
    ensures
        dec_rep(v).len() > 0,
        all_digits(dec_rep(v)),
    decreases v,
{
    if v < 10 {
        assert(digit_char(v) as u32 == 48 + v);
    } else {
        lemma_dec_rep_digits(v / 10);
        assert(digit_char(v % 10) as u32 == 48 + v % 10);
        assert(all_digits(dec_rep(v))) by {
            let s = dec_rep(v / 10);
            let w = s.push(digit_char(v % 10));
            assert(forall|i: int| 0 <= i < s.len() ==> w[i] == #[trigger] s[i]);
        }
    }
}

/// Rendering a number and reading the digits back returns the number.
pub proof fn lemma_dec_rep_val(v: nat)
    ensures
        digits_val(dec_rep(v)) == v,
    decreases v,
{
    if v < 10 {
        let s = seq![digit_char(v)];
        assert(s.drop_last() =~= Seq::<char>::empty());
        assert(digit_char(v) as u32 == 48 + v);
        assert(digits_val(Seq::<char>::empty()) == 0);
        assert(s.last() == digit_char(v));
        assert(digits_val(s) == digits_val(s.drop_last()) * 10 + digit_val(s.last()));
    } else {
        lemma_dec_rep_val(v / 10);
        lemma_digits_val_snoc(dec_rep(v / 10), digit_char(v % 10));
        assert(digit_char(v % 10) as u32 == 48 + v % 10);
        vstd::arithmetic::div_mod::lemma_fundamental_div_mod(v as int, 10);
        assert(digits_val(dec_rep(v)) == (v / 10) * 10 + v % 10);
    }
}

/// Whitespace-free input is left untouched by trimming.
pub proof fn lemma_trim_no_spaces(s: Seq<char>)
    requires
        forall|j: int| 0 <= j < s.len() ==> !is_space_char(#[trigger] s[j]),
    ensures
        trim_spec(s) == s,
{
    lemma_skip_spaces_at(s, 0);
    assert(s.subrange(0, s.len() as int) =~= s);
    lemma_skip_spaces_end_at(s, s.len() as int);
}

pub fn is_space(c: char) -> (r: bool)
    ensures
        r == is_space_char(c),
{
    c == ' ' || c == '\t' || c == '\n' || c == '\r' || c == '\x0b' || c == '\x0c'
}

pub fn is_digit(c: char) -> (r: bool)
    ensures
        r == is_digit_char(c),
{
    let u = c as u32;
    48 <= u && u <= 57
}

/// The line with surrounding whitespace removed, as `trim_spec` says.
pub fn trim_str(line: &str) -> (r: String)
    ensures
        r@ == trim_spec(line@),
{
    let n = line.unicode_len();
    let mut start: usize = 0;
    while start < n && is_space(line.get_char(start))
        invariant
            0 <= start <= n,
            n == line@.len(),
            forall|j: int| 0 <= j < start ==> is_space_char(#[trigger] line@[j]),
        decreases n - start,
    {
        start = start + 1;
    }
    let mut end: usize = n;
    while end > start && is_space(line.get_char(end - 1))
        invariant
            start <= end <= n,
            n == line@.len(),
            forall|j: int| end <= j < n ==> is_space_char(#[trigger] line@[j]),
        decreases end,
    {
        end = end - 1;
    }
    proof {
        lemma_skip_spaces_at(line@, start as int);
        let mid = line@.subrange(start as int, n as int);
        lemma_skip_spaces_end_at(mid, end - start);
        assert(mid.subrange(0, end - start) =~= line@.subrange(start as int, end as int));
    }
    let sub = line.substring_char(start, end);
    sub.to_owned()
}

/// Character-for-character string equality, reflected into the views.
pub fn str_eq(a: &str, b: &str) -> (r: bool)
    ensures
        r == (a@ == b@),
{
    let n = a.unicode_len();
    if n != b.unicode_len() {
        return false;
    }
    let mut i: usize = 0;
    while i < n
        invariant
            0 <= i <= n,
            n == a@.len(),
            n == b@.len(),
            forall|j: int| 0 <= j < i ==> a@[j] == b@[j],
        decreases n - i,
    {
        if a.get_char(i) != b.get_char(i) {
            return false;
        }
        i = i + 1;
    }
    proof {
        assert(a@ =~= b@);
    }
    true
}

/// Trimming a line made of whitespace around a body that neither starts nor
/// ends with whitespace yields exactly the body.
pub proof fn lemma_trim_embedded(lead: Seq<char>, core: Seq<char>, tail: Seq<char>)
    requires
        all_spaces(lead),
        all_spaces(tail),
        core.len() > 0,
        !is_space_char(core[0]),
        !is_space_char(core.last()),
    ensures
        trim_spec(lead + core + tail) == core,
{
    let s = lead + core + tail;
    assert(forall|j: int| 0 <= j < lead.len() ==> s[j] == #[trigger] lead[j]);
    assert(s[lead.len() as int] == core[0]);
    lemma_skip_spaces_at(s, lead.len() as int);
    let mid = s.subrange(lead.len() as int, s.len() as int);
    assert(mid =~= core + tail);
    assert(forall|j: int|
        core.len() <= j < mid.len() ==> #[trigger] mid[j] == tail[j - core.len()]);
    assert(mid[core.len() - 1] == core.last());
    lemma_skip_spaces_end_at(mid, core.len() as int);
    assert(mid.subrange(0, core.len() as int) =~= core);
}

/// Digits are not whitespace, so a digit run is already trimmed.
pub proof fn lemma_trim_all_digits(s: Seq<char>)
    requires
        all_digits(s),
    ensures
        trim_spec(s) == s,
{
    assert(forall|j: int| 0 <= j < s.len() ==> !is_space_char(#[trigger] s[j]));
    lemma_trim_no_spaces(s);
}

fn digit_str(d: u32) -> (r: &'static str)
    requires
        d <= 9,
    ensures
        r@ == seq![digit_char(d as nat)],
{
    proof {
        reveal_strlit("0");
        reveal_strlit("1");
        reveal_strlit("2");
        reveal_strlit("3");
        reveal_strlit("4");
        reveal_strlit("5");
        reveal_strlit("6");
        reveal_strlit("7");
        reveal_strlit("8");
        reveal_strlit("9");
    }
    let s = match d {
        0 => "0",
        1 => "1",
        2 => "2",
        3 => "3",
        4 => "4",
        5 => "5",
        6 => "6",
        7 => "7",
        8 => "8",
        _ => "9",
    };
    proof {
        assert(s@ =~= seq![digit_char(d as nat)]);
    }
    s
}

/// The decimal text of a number, exactly `dec_rep`.
pub fn render_decimal(v: u32) -> (r: String)
    ensures
        r@ == dec_rep(v as nat),
    decreases v,
{
    let d = v % 10;
    let ds = digit_str(d);
    if v < 10 {
        ds.to_owned()
    } else {
        let head = render_decimal(v / 10);
        let r = head.concat(ds);
        proof {
            assert(r@ =~= dec_rep((v / 10) as nat).push(digit_char((v % 10) as nat)));
        }
        r
    }
}

/// Parse the digit run `s@.subrange(from, s@.len())` as a `u32`.  Nothing is
/// returned where a non-digit stands in the run, the run is empty, or the
/// value does not fit in 32 bits.
pub fn parse_digits_u32(s: &str, from: usize) -> (r: Option<u32>)
    requires
        from <= s@.len(),
    ensures
        ({
            let rest = s@.subrange(from as int, s@.len() as int);
            match r {
                Option::Some(v) => rest.len() > 0 && all_digits(rest) && digits_val(rest)
                    == v as nat,
                Option::None => rest.len() == 0 || !all_digits(rest) || digits_val(rest)
                    > u32::MAX,
            }
        }),
{
    let n = s.unicode_len();
    if from == n {
        return Option::None;
    }
    let ghost rest = s@.subrange(from as int, n as int);
    let mut j: usize = from;
    let mut val: u32 = 0;
    while j < n
        invariant
            from <= j <= n,
            n == s@.len(),
            rest == s@.subrange(from as int, n as int),
            all_digits(s@.subrange(from as int, j as int)),
            val as nat == digits_val(s@.subrange(from as int, j as int)),
        decreases n - j,
    {
        let c = s.get_char(j);
        if !is_digit(c) {
            proof {
                assert(rest[j - from] == c);
            }
            return Option::None;
        }
        let d = (c as u32) - 48;
        let ghost pre = s@.subrange(from as int, j as int);
        let ghost pre1 = s@.subrange(from as int, j + 1 as int);
        proof {
            assert(pre1.drop_last() =~= pre);
            assert(pre1.last() == c);
            assert(digits_val(pre1) == digits_val(pre) * 10 + digit_val(c));
        }
        // u32::MAX is 4294967295: appending digit d to val stays in range
        // only below 429496729, or at it with d at most 5.
        if val > 429496729 || (val == 429496729 && d > 5) {
            proof {
                assert(digits_val(pre1) > u32::MAX);
                assert(pre1 =~= rest.subrange(0, j + 1 - from));
                lemma_digits_val_prefix(rest, j + 1 - from);
            }
            return Option::None;
        }
        val = val * 10 + d;
        j = j + 1;
    }
    proof {
        assert(rest =~= s@.subrange(from as int, j as int));
    }
    Option::Some(val)
}

/// Does `s` start with `p`, character for character?
pub fn has_prefix(s: &str, p: &str) -> (r: bool)
    ensures
        r == (p@.len() <= s@.len() && s@.subrange(0, p@.len() as int) == p@),
{
    let pn = p.unicode_len();
    if pn > s.unicode_len() {
        return false;
    }
    let head = s.substring_char(0, pn);
    str_eq(head, p)
}

} // verus!
