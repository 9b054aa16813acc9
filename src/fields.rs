use vstd::prelude::*;
use vstd::string::{StrSliceExecFns, StringExecFns};

verus! {

/// Whether `c` is an ASCII decimal digit.
pub open spec fn is_digit(c: char) -> bool {
    '0' <= c && c <= '9'
}

pub open spec fn all_digits(s: Seq<char>) -> bool {
    forall|i: int| 0 <= i < s.len() ==> is_digit(#[trigger] s[i])
}

pub open spec fn digit_value(c: char) -> nat {
    (c as int - '0' as int) as nat
}

/// The number that the decimal digits `s` denote, most significant first.
pub open spec fn digits_value(s: Seq<char>) -> nat
    decreases s.len(),
{
    if s.len() == 0 {
        0
    } else {
        digits_value(s.drop_last()) * 10 + digit_value(s.last())
    }
}

pub open spec fn pow10(n: nat) -> nat
    decreases n,
{
    if n == 0 {
        1
    } else {
        10 * pow10((n - 1) as nat)
    }
}

/// Nanoseconds in an hour.
pub const NANOS_PER_HOUR: u64 = 3_600_000_000_000;

/// Decimal places of an hours value that count: the eleventh stands for
/// 36 nanoseconds, and every place up to it converts exactly.
pub const HOURS_DECIMALS: usize = 11;

/// Nanoseconds that one unit in the last counted decimal place stands for.
pub const NANOS_PER_LAST_PLACE: u64 = 36;

/// The largest whole number of hours whose nanoseconds fit in an `i64`.
pub const MAX_WHOLE_HOURS: u64 = 2_562_047;

/// Index of the first `'.'` in `s`, or `s.len()` when there is none.
pub open spec fn dot_index(s: Seq<char>) -> int
    decreases s.len(),
{
    if s.len() == 0 {
        0
    } else if s[0] == '.' {
        0
    } else {
        1 + dot_index(s.drop_first())
    }
}

pub open spec fn zeros(n: nat) -> Seq<char> {
    Seq::new(n, |i: int| '0')
}

pub open spec fn whole_part(s: Seq<char>) -> Seq<char> {
    s.subrange(0, dot_index(s))
}

pub open spec fn fraction_part(s: Seq<char>) -> Seq<char> {
    if dot_index(s) < s.len() {
        s.subrange(dot_index(s) + 1, s.len() as int)
    } else {
        Seq::empty()
    }
}

/// A non-negative decimal numeral: digits, a point, digits, where either
/// side of the point may be empty (`5`, `5.`, `.5`, `2.1234567`), but not
/// both.
pub open spec fn hours_numeral(s: Seq<char>) -> bool {
    all_digits(whole_part(s)) && all_digits(fraction_part(s)) && whole_part(s).len()
        + fraction_part(s).len() >= 1
}

/// The first `HOURS_DECIMALS` decimal places of an hours value, padded with
/// zeros.
pub open spec fn counted_places(frac: Seq<char>) -> Seq<char> {
    if frac.len() <= HOURS_DECIMALS {
        frac + zeros((HOURS_DECIMALS - frac.len()) as nat)
    } else {
        frac.subrange(0, HOURS_DECIMALS as int)
    }
}

/// The length in nanoseconds of an hours numeral. The places up to the
/// eleventh convert exactly; those past it, worth less than 36 ns together,
/// are left out.
pub open spec fn hours_nanos(s: Seq<char>) -> nat {
    (digits_value(whole_part(s)) * NANOS_PER_HOUR + digits_value(counted_places(fraction_part(s)))
        * NANOS_PER_LAST_PLACE) as nat
}

/// Year, month, day, hour and minute of a `YYYY-MM-DD HH:MM` date.
pub open spec fn work_date_fields(s: Seq<char>) -> Option<(nat, nat, nat, nat, nat)> {
    if s.len() == 16 && s[4] == '-' && s[7] == '-' && s[10] == ' ' && s[13] == ':' && all_digits(
        s.subrange(0, 4),
    ) && all_digits(s.subrange(5, 7)) && all_digits(s.subrange(8, 10)) && all_digits(
        s.subrange(11, 13),
    ) && all_digits(s.subrange(14, 16)) {
        Some(
            (
                digits_value(s.subrange(0, 4)),
                digits_value(s.subrange(5, 7)),
                digits_value(s.subrange(8, 10)),
                digits_value(s.subrange(11, 13)),
                digits_value(s.subrange(14, 16)),
            ),
        )
    } else {
        None
    }
}

proof fn lemma_pow10_bound(k: nat)
    requires
        k <= 9,
    ensures
        pow10(k) <= 1_000_000_000,
{
    reveal_with_fuel(pow10, 10);
}

proof fn lemma_digits_push(s: Seq<char>, c: char)
    ensures
        digits_value(s.push(c)) == digits_value(s) * 10 + digit_value(c),
{
    assert(s.push(c).drop_last() =~= s);
}

/// Value of the digits `s[from..to]`, or `None` when one of them is no digit.
pub fn parse_digits(s: &str, from: usize, to: usize) -> (r: Option<u64>)
    requires
        from <= to <= s@.len(),
        to - from <= 9,
    ensures
        r is Some <==> all_digits(s@.subrange(from as int, to as int)),
        r is Some ==> r->0 == digits_value(s@.subrange(from as int, to as int)),
        r is Some ==> r->0 < pow10((to - from) as nat) && r->0 < 1_000_000_000,
{
    let mut acc: u64 = 0;
    let mut i: usize = from;
    while i < to
        invariant
            from <= i <= to <= s@.len(),
            to - from <= 9,
            all_digits(s@.subrange(from as int, i as int)),
            acc == digits_value(s@.subrange(from as int, i as int)),
            acc < pow10((i - from) as nat),
        decreases to - i,
    {
        let c = s.get_char(i);
        proof {
            assert(s@.subrange(from as int, i + 1) =~= s@.subrange(from as int, i as int).push(c));
            lemma_digits_push(s@.subrange(from as int, i as int), c);
            lemma_pow10_bound((i - from) as nat);
        }
        if c < '0' || c > '9' {
            assert(!is_digit(s@.subrange(from as int, to as int)[i - from]));
            return None;
        }
        acc = acc * 10 + (c as u64 - '0' as u64);
        i = i + 1;
        assert(all_digits(s@.subrange(from as int, i as int))) by {
            assert forall|j: int| 0 <= j < i - from implies is_digit(
                #[trigger] s@.subrange(from as int, i as int)[j],
            ) by {
                if j < i - 1 - from {
                    assert(s@.subrange(from as int, i as int)[j] == s@.subrange(
                        from as int,
                        i - 1,
                    )[j]);
                }
            }
        }
    }
    proof {
        lemma_pow10_bound((to - from) as nat);
    }
    Some(acc)
}

proof fn lemma_dot_index(s: Seq<char>, p: int)
    requires
        0 <= p <= s.len(),
        forall|j: int| 0 <= j < p ==> s[j] != '.',
        p == s.len() || s[p] == '.',
    ensures
        dot_index(s) == p,
    decreases s.len(),
{
    if s.len() > 0 && p > 0 {
        lemma_dot_index(s.drop_first(), p - 1);
    }
}

/// Whether `s[from..to]` is all digits.
fn digits_between(s: &str, from: usize, to: usize) -> (r: bool)
    requires
        from <= to <= s@.len(),
    ensures
        r == all_digits(s@.subrange(from as int, to as int)),
{
    let mut i: usize = from;
    while i < to
        invariant
            from <= i <= to <= s@.len(),
            all_digits(s@.subrange(from as int, i as int)),
        decreases to - i,
    {
        let c = s.get_char(i);
        if c < '0' || c > '9' {
            assert(!is_digit(s@.subrange(from as int, to as int)[i - from]));
            return false;
        }
        i = i + 1;
        assert forall|j: int| 0 <= j < i - from implies is_digit(
            #[trigger] s@.subrange(from as int, i as int)[j],
        ) by {
            if j < i - 1 - from {
                assert(s@.subrange(from as int, i as int)[j] == s@.subrange(from as int, i - 1)[j]);
            }
        }
    }
    true
}

fn find_dot(s: &str) -> (p: usize)
    ensures
        p == dot_index(s@),
        p <= s@.len(),
{
    let n = s.unicode_len();
    let mut p: usize = 0;
    while p < n && s.get_char(p) != '.'
        invariant
            p <= n,
            n == s@.len(),
            forall|j: int| 0 <= j < p ==> s@[j] != '.',
        decreases n - p,
    {
        p = p + 1;
    }
    proof {
        lemma_dot_index(s@, p as int);
    }
    p
}

/// Whether `s` is a non-negative decimal numeral.
pub fn is_hours_numeral(s: &str) -> (r: bool)
    ensures
        r == hours_numeral(s@),
{
    let n = s.unicode_len();
    let p = find_dot(s);
    if p == n {
        assert(fraction_part(s@) =~= Seq::<char>::empty());
        proof {
            lemma_all_digits_empty();
        }
        return n >= 1 && digits_between(s, 0, p);
    }
    digits_between(s, 0, p) && digits_between(s, p + 1, n) && n >= 2
}

proof fn lemma_all_digits_empty()
    ensures
        all_digits(Seq::<char>::empty()),
{
}

/// A digit sequence is worth at least any of its prefixes.
proof fn lemma_digits_prefix(s: Seq<char>, i: int)
    requires
        0 <= i <= s.len(),
    ensures
        digits_value(s.subrange(0, i)) <= digits_value(s),
    decreases s.len(),
{
    if i < s.len() {
        assert(s.drop_last().subrange(0, i) =~= s.subrange(0, i));
        lemma_digits_prefix(s.drop_last(), i);
    } else {
        assert(s.subrange(0, i) =~= s);
    }
}

/// The length in nanoseconds of an hours numeral, or `None` where it does
/// not fit in an `i64`.
pub fn hours_duration(s: &str) -> (r: Option<u64>)
    requires
        hours_numeral(s@),
    ensures
        r is Some <==> hours_nanos(s@) <= i64::MAX,
        r is Some ==> r->0 == hours_nanos(s@),
{
    let n = s.unicode_len();
    let p = find_dot(s);
    let ghost whole = whole_part(s@);
    let ghost frac = fraction_part(s@);
    // whole hours, stopping once they are too many
    let mut w: u64 = 0;
    let mut i: usize = 0;
    while i < p
        invariant
            i <= p <= n,
            n == s@.len(),
            p == dot_index(s@),
            whole == s@.subrange(0, p as int),
            all_digits(whole),
            w == digits_value(whole.subrange(0, i as int)),
            w <= MAX_WHOLE_HOURS,
        decreases p - i,
    {
        let c = s.get_char(i);
        proof {
            assert(whole.subrange(0, i + 1) =~= whole.subrange(0, i as int).push(c));
            lemma_digits_push(whole.subrange(0, i as int), c);
            assert(is_digit(whole[i as int]));
        }
        w = w * 10 + (c as u64 - '0' as u64);
        i = i + 1;
        if w > MAX_WHOLE_HOURS {
            proof {
                lemma_digits_prefix(whole, i as int);
                assert(digits_value(whole) * NANOS_PER_HOUR > i64::MAX) by (nonlinear_arith)
                    requires
                        digits_value(whole) > MAX_WHOLE_HOURS,
                        MAX_WHOLE_HOURS == 2_562_047,
                        NANOS_PER_HOUR == 3_600_000_000_000,
                ;
            }
            return None;
        }
    }
    assert(whole.subrange(0, p as int) =~= whole);
    // counted decimal places
    let flen: usize = if p < n { n - p - 1 } else { 0 };
    let kept: usize = if flen < HOURS_DECIMALS { flen } else { HOURS_DECIMALS };
    let ghost places = counted_places(frac);
    let mut f: u64 = 0;
    let mut k: usize = 0;
    while k < HOURS_DECIMALS
        invariant
            k <= HOURS_DECIMALS,
            p <= n,
            n == s@.len(),
            p == dot_index(s@),
            flen == frac.len(),
            kept == (if flen < HOURS_DECIMALS { flen } else { HOURS_DECIMALS }),
            frac == fraction_part(s@),
            places == counted_places(frac),
            places.len() == HOURS_DECIMALS,
            all_digits(frac),
            f == digits_value(places.subrange(0, k as int)),
            f < pow10(k as nat),
        decreases HOURS_DECIMALS - k,
    {
        let c = if k < kept {
            s.get_char(p + 1 + k)
        } else {
            '0'
        };
        proof {
            if k < kept {
                assert(frac[k as int] == s@[p + 1 + k]);
                assert(places[k as int] == frac[k as int]);
                assert(is_digit(frac[k as int]));
            } else {
                assert(places[k as int] == '0');
            }
            assert(places.subrange(0, k + 1) =~= places.subrange(0, k as int).push(c));
            lemma_digits_push(places.subrange(0, k as int), c);
            reveal_with_fuel(pow10, 2);
            assert(pow10((k + 1) as nat) == 10 * pow10(k as nat));
            lemma_pow10_11(k as nat);
        }
        f = f * 10 + (c as u64 - '0' as u64);
        k = k + 1;
    }
    assert(places.subrange(0, HOURS_DECIMALS as int) =~= places);
    proof {
        lemma_pow10_11(HOURS_DECIMALS as nat);
    }
    let total: u64 = w * NANOS_PER_HOUR + f * NANOS_PER_LAST_PLACE;
    if total > i64::MAX as u64 {
        None
    } else {
        Some(total)
    }
}

proof fn lemma_pow10_11(k: nat)
    requires
        k <= 11,
    ensures
        pow10(k) <= 100_000_000_000,
{
    reveal_with_fuel(pow10, 12);
}

/// Reads a `YYYY-MM-DD HH:MM` date into year, month, day, hour and minute.
pub fn parse_work_date_fields(s: &str) -> (r: Option<(u64, u64, u64, u64, u64)>)
    ensures
        r is Some <==> work_date_fields(s@) is Some,
        r is Some ==> {
            let f = work_date_fields(s@)->0;
            let v = r->0;
            v.0 == f.0 && v.1 == f.1 && v.2 == f.2 && v.3 == f.3 && v.4 == f.4
        },
{
    let n = s.unicode_len();
    if n != 16 || s.get_char(4) != '-' || s.get_char(7) != '-' || s.get_char(10) != ' '
        || s.get_char(13) != ':' {
        return None;
    }
    let year = match parse_digits(s, 0, 4) {
        Some(v) => v,
        None => return None,
    };
    let month = match parse_digits(s, 5, 7) {
        Some(v) => v,
        None => return None,
    };
    let day = match parse_digits(s, 8, 10) {
        Some(v) => v,
        None => return None,
    };
    let hour = match parse_digits(s, 11, 13) {
        Some(v) => v,
        None => return None,
    };
    let minute = match parse_digits(s, 14, 16) {
        Some(v) => v,
        None => return None,
    };
    Some((year, month, day, hour, minute))
}


/// The fields of a well-formed work date have at most four and two digits.
pub proof fn lemma_work_date_field_bounds(s: Seq<char>)
    requires
        work_date_fields(s) is Some,
    ensures
        ({
            let f = work_date_fields(s)->0;
            f.0 < 10000 && f.1 < 100 && f.2 < 100 && f.3 < 100 && f.4 < 100
        }),
{
    lemma_digits_bound(s.subrange(0, 4));
    lemma_digits_bound(s.subrange(5, 7));
    lemma_digits_bound(s.subrange(8, 10));
    lemma_digits_bound(s.subrange(11, 13));
    lemma_digits_bound(s.subrange(14, 16));
    reveal_with_fuel(pow10, 5);
}

pub proof fn lemma_digits_bound(s: Seq<char>)
    requires
        all_digits(s),
    ensures
        digits_value(s) < pow10(s.len()),
    decreases s.len(),
{
    if s.len() > 0 {
        assert(all_digits(s.drop_last())) by {
            assert forall|i: int| 0 <= i < s.len() - 1 implies is_digit(#[trigger] s.drop_last()[i]) by {
                assert(s.drop_last()[i] == s[i]);
            }
        }
        assert(is_digit(s[s.len() - 1]));
        lemma_digits_bound(s.drop_last());
    }
}

pub open spec fn strip_leading_zeros(w: Seq<char>) -> Seq<char>
    decreases w.len(),
{
    if w.len() > 0 && w[0] == '0' {
        strip_leading_zeros(w.drop_first())
    } else {
        w
    }
}

pub open spec fn strip_trailing_zeros(f: Seq<char>) -> Seq<char>
    decreases f.len(),
{
    if f.len() > 0 && f.last() == '0' {
        strip_trailing_zeros(f.drop_last())
    } else {
        f
    }
}

/// How an hours numeral reads as a number: no leading zeros before the
/// point (but one `0` for an empty whole part), no trailing zeros after it,
/// and no point where nothing follows it (`02.50` reads `2.5`, `.5` reads
/// `0.5`, `3.` reads `3`).
pub open spec fn hours_display(s: Seq<char>) -> Seq<char> {
    let w = strip_leading_zeros(whole_part(s));
    let f = strip_trailing_zeros(fraction_part(s));
    let w2 = if w.len() == 0 {
        "0"@
    } else {
        w
    };
    if f.len() == 0 {
        w2
    } else {
        w2 + "."@ + f
    }
}

/// The hours numeral `s` as a number reads.
pub fn display_hours(s: &str) -> (r: String)
    ensures
        r@ == hours_display(s@),
{
    let n = s.unicode_len();
    let p = find_dot(s);
    let ghost whole = whole_part(s@);
    let mut a: usize = 0;
    while a < p && s.get_char(a) == '0'
        invariant
            a <= p <= n,
            n == s@.len(),
            whole == s@.subrange(0, p as int),
            strip_leading_zeros(whole) == strip_leading_zeros(s@.subrange(a as int, p as int)),
        decreases p - a,
    {
        assert(s@.subrange(a as int, p as int).drop_first() =~= s@.subrange(a + 1, p as int));
        a = a + 1;
    }
    let ghost w = s@.subrange(a as int, p as int);
    assert(strip_leading_zeros(w) == w);
    let mut out = if a == p {
        String::from_str("0")
    } else {
        String::from_str(s.substring_char(a, p))
    };
    if p == n {
        assert(fraction_part(s@) =~= Seq::<char>::empty());
        return out;
    }
    let ghost frac = fraction_part(s@);
    let mut e: usize = n;
    while e > p + 1 && s.get_char(e - 1) == '0'
        invariant
            p + 1 <= e <= n,
            n == s@.len(),
            frac == s@.subrange(p + 1, n as int),
            strip_trailing_zeros(frac) == strip_trailing_zeros(s@.subrange(p + 1, e as int)),
        decreases e,
    {
        assert(s@.subrange(p + 1, e as int).drop_last() =~= s@.subrange(p + 1, e - 1));
        e = e - 1;
    }
    let ghost f = s@.subrange(p + 1, e as int);
    assert(strip_trailing_zeros(f) == f);
    if e > p + 1 {
        out.append(".");
        out.append(s.substring_char(p + 1, e));
    }
    out
}

} // verus!
