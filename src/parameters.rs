//! Typed parameters: parsing a comma-separated parameter string against a declared
//! list of parameter types.
use vstd::arithmetic::div_mod::{lemma_basic_div, lemma_div_denominator, lemma_fundamental_div_mod_converse};
use vstd::prelude::*;

verus! {

/// The types allowed for parameters.
#[derive(Debug, Clone, Copy, PartialEq, Eq, Structural)]
pub enum ParameterType {
    /// A nonnegative integer.
    PositiveInteger,
    /// A number between 0 and 1, both included.
    Probability,
}

/// A probability, held exactly in units of `10^-18`: its value is
/// `scaled / PROBABILITY_SCALE`, and `scaled` is at most `PROBABILITY_SCALE`. Every value
/// has one representation, so equal probabilities compare equal.
#[derive(Debug, Clone, Copy, PartialEq, Eq, Structural)]
pub struct Probability {
    /// The value, in units of `10^-18`.
    pub scaled: u64,
}

/// The number of units in a probability of 1.
pub const PROBABILITY_SCALE: u64 = 1_000_000_000_000_000_000;

/// How far above 1 (in units of `10^-18`) a value may lie and still be read as 1: the
/// values up to `1 + 2^-53` round to 1 when read as a 64-bit float, and
/// `2^-53 = 111.02... * 10^-18`.
pub const ROUNDING_SLACK: u64 = 111;

impl Probability {
    /// The probability 0.
    pub fn zero() -> (r: Probability)
        ensures
            r.scaled == 0,
    {
        Probability { scaled: 0 }
    }

    /// The probability 1.
    pub fn one() -> (r: Probability)
        ensures
            r.scaled == PROBABILITY_SCALE,
    {
        Probability { scaled: PROBABILITY_SCALE }
    }
}

/// A parameter value, checked against its declared type.
#[derive(Debug, Clone, Copy, PartialEq, Eq, Structural)]
pub enum ParameterValue {
    /// A nonnegative integer.
    PositiveInteger(usize),
    /// A number between 0 and 1, both included.
    Probability(Probability),
}

impl ParameterValue {
    /// Whether the value has the given type.
    pub open spec fn has_type(&self, t: ParameterType) -> bool {
        match t {
            ParameterType::PositiveInteger => self is PositiveInteger,
            ParameterType::Probability => self is Probability,
        }
    }

    /// Unwraps a value that is a positive integer.
    pub fn unwrap_usize(&self) -> (r: usize)
        requires
            self is PositiveInteger,
        ensures
            r == self->PositiveInteger_0,
    {
        match self {
            ParameterValue::PositiveInteger(n) => *n,
            ParameterValue::Probability(_) => 0,
        }
    }

    /// Unwraps a value that is a probability.
    pub fn unwrap_probability(&self) -> (r: Probability)
        requires
            self is Probability,
        ensures
            r == self->Probability_0,
    {
        match self {
            ParameterValue::Probability(p) => *p,
            ParameterValue::PositiveInteger(_) => Probability { scaled: 0 },
        }
    }
}

/// The kinds of errors met while turning a string into a named, parameterized object.
#[derive(Debug, Clone, Copy, PartialEq, Eq, Structural)]
pub enum ParamErrorKind {
    /// The number of parameters differs from the number of declared types.
    Arity,
    /// A parameter does not parse as its declared type, or a probability lies outside
    /// `[0, 1]`.
    Type,
    /// No object of that name is registered.
    NotFound,
    /// The parameters are well typed but their values are refused by the object.
    Invalid,
}

/// An error met while turning a string into a named, parameterized object, with the
/// offending raw text.
#[derive(Debug, Clone, PartialEq, Eq)]
pub struct ParamError {
    /// The kind of the error.
    pub kind: ParamErrorKind,
    /// The offending text: the parameter string for an arity or value error, the token
    /// for a type error, the whole input for an unknown name.
    pub input: String,
}

/// An error, as a kind and the offending text.
pub open spec fn error_view(e: ParamError) -> (ParamErrorKind, Seq<char>) {
    (e.kind, e.input@)
}

pub open spec fn is_digit(c: char) -> bool {
    '0' <= c && c <= '9'
}

pub open spec fn all_digits(s: Seq<char>) -> bool {
    forall|i: int| 0 <= i < s.len() ==> is_digit(#[trigger] s[i])
}

/// The value of a string of decimal digits.
pub open spec fn digits_value(s: Seq<char>) -> nat
    decreases s.len(),
{
    if s.len() == 0 {
        0
    } else {
        digits_value(s.drop_last()) * 10 + (s.last() as nat - '0' as nat) as nat
    }
}

pub open spec fn pow10(k: nat) -> nat
    decreases k,
{
    if k == 0 {
        1
    } else {
        10 * pow10((k - 1) as nat)
    }
}

/// What parsing `t` as a `usize` gives: an optional `+` sign, then at least one digit,
/// the value fitting in a `usize`.
pub open spec fn spec_positive_integer(t: Seq<char>) -> Option<usize> {
    let d = if t.len() > 0 && t[0] == '+' {
        t.drop_first()
    } else {
        t
    };
    if d.len() > 0 && all_digits(d) && digits_value(d) <= usize::MAX {
        Some(digits_value(d) as usize)
    } else {
        None
    }
}

/// The position of the first `c` in `s`, or the length of `s` when there is none.
pub open spec fn first_index_of(s: Seq<char>, c: char) -> int
    decreases s.len(),
{
    if s.len() == 0 {
        0
    } else if s[0] == c {
        0
    } else {
        1 + first_index_of(s.drop_first(), c)
    }
}

/// The position of the first exponent marker (`e` or `E`) in `s`, or the length of `s`
/// when there is none.
pub open spec fn first_exponent_index(s: Seq<char>) -> int
    decreases s.len(),
{
    if s.len() == 0 {
        0
    } else if s[0] == 'e' || s[0] == 'E' {
        0
    } else {
        1 + first_exponent_index(s.drop_first())
    }
}

/// `v * 10^m`, rounded down.
pub open spec fn scaled_floor(v: nat, m: int) -> nat {
    if m >= 0 {
        v * pow10(m as nat)
    } else {
        v / pow10((-m) as nat)
    }
}

/// What reading `t` as a probability gives. The accepted forms are those of a decimal
/// float: an optional sign, digits with an optional dot (at least one digit in all), then
/// optionally `e` or `E`, an optional sign and at least one digit. The value is kept in
/// units of `10^-18`, rounded down; it must lie in `[0, 1 + 2^-53]` (a value above 1
/// there reads as 1, as it would as a float), and a negative sign is allowed only on
/// zero.
pub open spec fn spec_probability(t: Seq<char>) -> Option<Probability> {
    let signed = t.len() > 0 && (t[0] == '+' || t[0] == '-');
    let negative = t.len() > 0 && t[0] == '-';
    let body = if signed {
        t.drop_first()
    } else {
        t
    };
    let x = first_exponent_index(body);
    let mant = body.take(x);
    let has_exp = x < body.len();
    let ex = if has_exp {
        body.skip(x + 1)
    } else {
        Seq::empty()
    };
    let eneg = ex.len() > 0 && ex[0] == '-';
    let ed = if ex.len() > 0 && (ex[0] == '+' || ex[0] == '-') {
        ex.drop_first()
    } else {
        ex
    };
    let d = first_index_of(mant, '.');
    let ip = mant.take(d);
    let fp = if d < mant.len() {
        mant.skip(d + 1)
    } else {
        Seq::empty()
    };
    probability_from(negative, ip, fp, has_exp, eneg, ed)
}

/// The probability that a token denotes, given its parts: whether it is negative, the
/// digits before and after the dot, whether it has an exponent, and the exponent's sign
/// and digits.
#[verifier::opaque]
pub open spec fn probability_from(
    negative: bool,
    ip: Seq<char>,
    fp: Seq<char>,
    has_exp: bool,
    eneg: bool,
    ed: Seq<char>,
) -> Option<Probability> {
    let e: int = if eneg {
        -(digits_value(ed) as int)
    } else {
        digits_value(ed) as int
    };
    let v = digits_value(ip + fp);
    let units = scaled_floor(v, e - fp.len() + 18);
    if ip.len() + fp.len() >= 1 && all_digits(ip) && all_digits(fp) && (has_exp ==> ed.len() >= 1
        && all_digits(ed)) && units <= PROBABILITY_SCALE + ROUNDING_SLACK && (!negative || v == 0) {
        Some(
            Probability {
                scaled: (if units > PROBABILITY_SCALE { PROBABILITY_SCALE as nat } else { units }) as u64,
            },
        )
    } else {
        None
    }
}

/// What parsing `t` as a value of type `ty` gives.
pub open spec fn spec_parse_value(ty: ParameterType, t: Seq<char>) -> Option<ParameterValue> {
    match ty {
        ParameterType::PositiveInteger => match spec_positive_integer(t) {
            Some(n) => Some(ParameterValue::PositiveInteger(n)),
            None => None,
        },
        ParameterType::Probability => match spec_probability(t) {
            Some(p) => Some(ParameterValue::Probability(p)),
            None => None,
        },
    }
}

/// The pieces of `s` between commas (a string without commas is one piece).
pub open spec fn split_commas(s: Seq<char>) -> Seq<Seq<char>>
    decreases s.len(),
{
    if s.len() == 0 {
        seq![Seq::<char>::empty()]
    } else {
        let rest = split_commas(s.drop_last());
        if s.last() == ',' {
            rest.push(Seq::empty())
        } else {
            rest.update(rest.len() - 1, rest.last().push(s.last()))
        }
    }
}

/// The tokens of a parameter string: none for the empty string, else the pieces between
/// commas.
pub open spec fn spec_tokens(s: Seq<char>) -> Seq<Seq<char>> {
    if s.len() == 0 {
        Seq::empty()
    } else {
        split_commas(s)
    }
}

/// Parses the first `i` tokens against their types; the first token that fails gives
/// the error.
pub open spec fn spec_parse_tokens(types: Seq<ParameterType>, toks: Seq<Seq<char>>, i: int) -> Result<
    Seq<ParameterValue>,
    (ParamErrorKind, Seq<char>),
>
    decreases i,
{
    if i <= 0 {
        Ok(Seq::empty())
    } else {
        match spec_parse_tokens(types, toks, i - 1) {
            Err(e) => Err(e),
            Ok(vs) => match spec_parse_value(types[i - 1], toks[i - 1]) {
                None => Err((ParamErrorKind::Type, toks[i - 1])),
                Some(v) => Ok(vs.push(v)),
            },
        }
    }
}

/// What parsing the parameter string `s` against `types` gives: an arity error (with
/// `s`) when the token count differs from the type count, else a type error (with the
/// token) for the first token that does not parse, else one value per type.
pub open spec fn spec_parse(types: Seq<ParameterType>, s: Seq<char>) -> Result<
    Seq<ParameterValue>,
    (ParamErrorKind, Seq<char>),
> {
    let toks = spec_tokens(s);
    if toks.len() != types.len() {
        Err((ParamErrorKind::Arity, s))
    } else {
        spec_parse_tokens(types, toks, toks.len() as int)
    }
}

/// Whether `r` is what `spec` describes.
pub open spec fn result_matches<T>(r: Result<T, ParamError>, spec: Result<T, (ParamErrorKind, Seq<char>)>) -> bool {
    match spec {
        Ok(v) => r == Ok::<T, ParamError>(v),
        Err(e) => r is Err && error_view(r->Err_0) == e,
    }
}

proof fn lemma_digits_push(s: Seq<char>, c: char)
    ensures
        digits_value(s.push(c)) == digits_value(s) * 10 + (c as nat - '0' as nat) as nat,
{
    assert(s.push(c).drop_last() =~= s);
}

proof fn lemma_digits_prefix_le(s: Seq<char>, k: int)
    requires
        all_digits(s),
        0 <= k <= s.len(),
    ensures
        digits_value(s.take(k)) <= digits_value(s),
    decreases s.len(),
{
    if k < s.len() {
        assert(s.take(k) =~= s.drop_last().take(k));
        lemma_digits_prefix_le(s.drop_last(), k);
    } else {
        assert(s.take(k) =~= s);
    }
}

proof fn lemma_digits_below_pow10(s: Seq<char>)
    requires
        all_digits(s),
    ensures
        digits_value(s) < pow10(s.len()),
    decreases s.len(),
{
    if s.len() > 0 {
        lemma_digits_below_pow10(s.drop_last());
    }
}

/// The position of the first `c` in `s` is `k` when `c` first occurs at `k` (or not at
/// all, with `k` the length).
pub proof fn lemma_first_index(s: Seq<char>, c: char, k: int)
    requires
        0 <= k <= s.len(),
        forall|j: int| 0 <= j < k ==> s[j] != c,
        k == s.len() || s[k] == c,
    ensures
        first_index_of(s, c) == k,
    decreases k,
{
    if k > 0 {
        lemma_first_index(s.drop_first(), c, k - 1);
    }
}

/// Returns the characters of `s`.
pub fn chars_of(s: &str) -> (r: Vec<char>)
    ensures
        r@ == s@,
{
    let n = s.unicode_len();
    let mut r: Vec<char> = Vec::with_capacity(n);
    let mut i: usize = 0;
    while i < n
        invariant
            n == s@.len(),
            i <= n,
            r@ == s@.take(i as int),
        decreases n - i,
    {
        r.push(s.get_char(i));
        i += 1;
        assert(r@ =~= s@.take(i as int));
    }
    assert(r@ =~= s@);
    r
}

/// Parses the characters `start..end` of `cs` as a `usize`.
fn parse_usize_in(cs: &Vec<char>, start: usize, end: usize) -> (r: Option<usize>)
    requires
        start <= end <= cs@.len(),
    ensures
        r == spec_positive_integer(cs@.subrange(start as int, end as int)),
{
    let ghost t = cs@.subrange(start as int, end as int);
    let ds = if start < end && cs[start] == '+' {
        start + 1
    } else {
        start
    };
    let ghost d = cs@.subrange(ds as int, end as int);
    assert(d =~= (if t.len() > 0 && t[0] == '+' { t.drop_first() } else { t }));
    if ds == end {
        return None;
    }
    let ghost expected = if d.len() > 0 && all_digits(d) && digits_value(d) <= usize::MAX {
        Some(digits_value(d) as usize)
    } else {
        None::<usize>
    };
    assert(expected == spec_positive_integer(t));
    let mut val: usize = 0;
    let mut i: usize = ds;
    while i < end
        invariant
            ds < end <= cs@.len(),
            ds <= i <= end,
            d == cs@.subrange(ds as int, end as int),
            expected == spec_positive_integer(cs@.subrange(start as int, end as int)),
            expected == (if d.len() > 0 && all_digits(d) && digits_value(d) <= usize::MAX {
                Some(digits_value(d) as usize)
            } else {
                None::<usize>
            }),
            all_digits(d.take(i - ds)),
            val == digits_value(d.take(i - ds)),
        decreases end - i,
    {
        let c = cs[i];
        if !('0' <= c && c <= '9') {
            assert(!is_digit(d[i - ds]));
            assert(!all_digits(d));
            return None;
        }
        let digit = (c as u32 - '0' as u32) as usize;
        proof {
            assert(d.take(i - ds + 1) =~= d.take(i - ds).push(c));
            lemma_digits_push(d.take(i - ds), c);
        }
        if val > (usize::MAX - digit) / 10 {
            proof {
                if all_digits(d) {
                    lemma_digits_prefix_le(d, i - ds + 1);
                }
            }
            return None;
        }
        val = val * 10 + digit;
        i += 1;
        assert(all_digits(d.take(i - ds)));
    }
    assert(d.take(end - ds) =~= d);
    Some(val)
}

/// `v`, or `cap` when `v` is larger.
pub open spec fn capped(v: nat, cap: nat) -> nat {
    if v < cap {
        v
    } else {
        cap
    }
}

/// Reads the characters `from..to` of `cs` as digits; returns their value capped at `cap`.
fn capped_value(cs: &Vec<char>, from: usize, to: usize, cap: u128) -> (r: Option<u128>)
    requires
        from <= to <= cs@.len(),
        1 <= cap <= 0x1_0000_0000_0000_0000_0000_0000u128,
    ensures
        r is None <==> !all_digits(cs@.subrange(from as int, to as int)),
        r matches Some(c) ==> c == capped(digits_value(cs@.subrange(from as int, to as int)), cap as nat),
{
    let ghost s = cs@.subrange(from as int, to as int);
    let mut c: u128 = 0;
    let mut i: usize = from;
    while i < to
        invariant
            from <= i <= to <= cs@.len(),
            1 <= cap <= 0x1_0000_0000_0000_0000_0000_0000u128,
            s == cs@.subrange(from as int, to as int),
            all_digits(s.take(i - from)),
            c == capped(digits_value(s.take(i - from)), cap as nat),
        decreases to - i,
    {
        let ch = cs[i];
        if !('0' <= ch && ch <= '9') {
            assert(!is_digit(s[i - from]));
            return None;
        }
        proof {
            assert(s.take(i - from + 1) =~= s.take(i - from).push(ch));
            lemma_digits_push(s.take(i - from), ch);
        }
        let digit = (ch as u32 - '0' as u32) as u128;
        let next = c * 10 + digit;
        c = if next >= cap {
            cap
        } else {
            next
        };
        i += 1;
        assert(all_digits(s.take(i - from)));
    }
    assert(s.take(to - from) =~= s);
    Some(c)
}

/// The position of the first exponent marker is `k` when one first occurs at `k` (or
/// none occurs, with `k` the length).
proof fn lemma_first_exponent_index(s: Seq<char>, k: int)
    requires
        0 <= k <= s.len(),
        forall|j: int| 0 <= j < k ==> s[j] != 'e' && s[j] != 'E',
        k == s.len() || s[k] == 'e' || s[k] == 'E',
    ensures
        first_exponent_index(s) == k,
    decreases k,
{
    if k > 0 {
        lemma_first_exponent_index(s.drop_first(), k - 1);
    }
}

proof fn lemma_pow10_positive(k: nat)
    ensures
        pow10(k) >= 1,
    decreases k,
{
    if k > 0 {
        lemma_pow10_positive((k - 1) as nat);
    }
}

/// Dropping the last `q` digits divides the value by `10^q`, rounding down.
proof fn lemma_digits_div(s: Seq<char>, q: nat)
    requires
        all_digits(s),
        q <= s.len(),
    ensures
        digits_value(s) / pow10(q) == digits_value(s.take(s.len() - q)),
    decreases q,
{
    if q == 0 {
        assert(s.take(s.len() as int) =~= s);
        assert(pow10(0) == 1);
    } else {
        let p = s.drop_last();
        let d = (s.last() as nat - '0' as nat) as nat;
        assert(is_digit(s[s.len() - 1]));
        assert(all_digits(p));
        lemma_fundamental_div_mod_converse(digits_value(s) as int, 10, digits_value(p) as int, d as int);
        lemma_pow10_positive((q - 1) as nat);
        lemma_div_denominator(digits_value(s) as int, 10, pow10((q - 1) as nat) as int);
        lemma_digits_div(p, (q - 1) as nat);
        assert(digits_value(s) == digits_value(p) * 10 + d);
        assert(pow10(q) == 10 * pow10((q - 1) as nat));
        assert(digits_value(s) / 10 == digits_value(p));
        assert(p.take(p.len() - (q - 1)) =~= s.take(s.len() - q));
    }
}

/// A positive value times at least `10^21` is beyond any probability.
proof fn lemma_saturates(v: nat, m: nat)
    requires
        v >= 1,
        m >= 21,
    ensures
        v * pow10(m) > PROBABILITY_SCALE + ROUNDING_SLACK + 1,
{
    lemma_pow10_mono(21, m);
    reveal_with_fuel(pow10, 22);
    assert(pow10(21) == 1_000_000_000_000_000_000_000nat);
    assert(v * pow10(m) >= pow10(m)) by (nonlinear_arith)
        requires
            v >= 1,
    ;
}

/// Dividing by a power of ten at least as large as the value gives 0.
proof fn lemma_vanishes(s: Seq<char>, q: nat)
    requires
        all_digits(s),
        q >= s.len(),
    ensures
        digits_value(s) / pow10(q) == 0,
{
    lemma_digits_below_pow10(s);
    lemma_pow10_mono(s.len(), q);
    lemma_basic_div(digits_value(s) as int, pow10(q) as int);
}

/// The value of the digits `digits` times `10^m`, rounded down and capped just above the
/// largest accepted probability, given that value capped (`vc`, not zero).
fn units_of(digits: &Vec<char>, vc: u128, m: i128) -> (r: u128)
    requires
        all_digits(digits@),
        1 <= vc,
        -0x1_0000_0000_0000_0000_0000_0000i128 < m < 0x1_0000_0000_0000_0000_0000_0000i128,
        vc == capped(digits_value(digits@), (PROBABILITY_SCALE + ROUNDING_SLACK + 1) as nat),
    ensures
        r == capped(scaled_floor(digits_value(digits@), m as int), (PROBABILITY_SCALE + ROUNDING_SLACK + 1) as nat),
{
    let ghost v = digits_value(digits@);
    let limit: u128 = PROBABILITY_SCALE as u128 + ROUNDING_SLACK as u128 + 1;
    if m >= 0 {
        let steps: u128 = if m > 21 {
            21
        } else {
            m as u128
        };
        let mut c: u128 = vc;
        let mut i: u128 = 0;
        assert(pow10(0) == 1);
        assert(v * pow10(0) == v);
        while i < steps
            invariant
                i <= steps <= 21,
                limit == PROBABILITY_SCALE + ROUNDING_SLACK + 1,
                c == capped(v * pow10(i as nat), limit as nat),
            decreases steps - i,
        {
            proof {
                assert(v * pow10((i + 1) as nat) == (v * pow10(i as nat)) * 10) by (nonlinear_arith)
                    requires
                        pow10((i + 1) as nat) == 10 * pow10(i as nat),
                ;
            }
            let next = c * 10;
            c = if next >= limit {
                limit
            } else {
                next
            };
            i += 1;
        }
        proof {
            if m > 21 {
                assert(v >= 1);
                lemma_saturates(v, 21);
                lemma_saturates(v, m as nat);
            }
        }
        c
    } else {
        let q = -m;
        if q >= digits.len() as i128 {
            proof {
                lemma_vanishes(digits@, q as nat);
            }
            0
        } else {
            let keep = digits.len() - q as usize;
            proof {
                lemma_digits_div(digits@, q as nat);
                assert(digits@.subrange(0, keep as int) =~= digits@.take(digits@.len() - q));
                assert forall|j: int| 0 <= j < keep implies is_digit(#[trigger] digits@.subrange(0, keep as int)[j]) by {
                    assert(digits@.subrange(0, keep as int)[j] == digits@[j]);
                }
            }
            match capped_value(digits, 0, keep, limit) {
                None => 0,
                Some(c) => c,
            }
        }
    }
}

/// Two exponents give the same capped value when they are equal, or both large enough
/// to go beyond every probability, or both small enough to give 0.
proof fn lemma_clamped_exponent(dd: Seq<char>, m: int, m_real: int)
    requires
        all_digits(dd),
        digits_value(dd) >= 1,
        m == m_real || (21 <= m <= m_real) || (m_real <= m && m <= -(dd.len() as int)),
    ensures
        capped(scaled_floor(digits_value(dd), m), (PROBABILITY_SCALE + ROUNDING_SLACK + 1) as nat) == capped(
            scaled_floor(digits_value(dd), m_real),
            (PROBABILITY_SCALE + ROUNDING_SLACK + 1) as nat,
        ),
{
    if m != m_real {
        if m >= 21 {
            lemma_saturates(digits_value(dd), m as nat);
            lemma_saturates(digits_value(dd), m_real as nat);
        } else {
            lemma_vanishes(dd, (-m) as nat);
            lemma_vanishes(dd, (-m_real) as nat);
        }
    }
}

/// Reads a probability from its parts in `cs`: the digits `bs..dot` before the dot, the
/// digits `fs..mend` after it, and (when `has_exp`) the exponent digits `eds..end`.
fn probability_from_parts(
    cs: &Vec<char>,
    bs: usize,
    dot: usize,
    fs: usize,
    mend: usize,
    has_exp: bool,
    eneg: bool,
    eds: usize,
    end: usize,
    negative: bool,
) -> (r: Option<Probability>)
    requires
        bs <= dot <= fs <= mend <= end <= cs@.len(),
        mend < eds || eds == end,
        eds <= end,
        !has_exp ==> eds == end && !eneg,
    ensures
        r == probability_from(
            negative,
            cs@.subrange(bs as int, dot as int),
            cs@.subrange(fs as int, mend as int),
            has_exp,
            eneg,
            cs@.subrange(eds as int, end as int),
        ),
{
    reveal(probability_from);
    let ghost ip = cs@.subrange(bs as int, dot as int);
    let ghost fp = cs@.subrange(fs as int, mend as int);
    if dot == bs && fs == mend {
        return None;
    }
    // the digits of the mantissa
    let mut digits: Vec<char> = Vec::new();
    let mut x: usize = bs;
    while x < dot
        invariant
            bs <= x <= dot <= cs@.len(),
            digits@ == cs@.subrange(bs as int, x as int),
        decreases dot - x,
    {
        digits.push(cs[x]);
        x += 1;
        assert(digits@ =~= cs@.subrange(bs as int, x as int));
    }
    let mut x: usize = fs;
    while x < mend
        invariant
            fs <= x <= mend <= cs@.len(),
            ip == cs@.subrange(bs as int, dot as int),
            digits@ == ip + cs@.subrange(fs as int, x as int),
        decreases mend - x,
    {
        digits.push(cs[x]);
        x += 1;
        assert(digits@ =~= ip + cs@.subrange(fs as int, x as int));
    }
    let ghost dd = ip + fp;
    assert(digits@ == dd);
    assert(digits@.subrange(0, digits@.len() as int) =~= dd);
    proof {
        assert(all_digits(dd) <==> all_digits(ip) && all_digits(fp)) by {
            if all_digits(dd) {
                assert forall|j: int| 0 <= j < ip.len() implies is_digit(#[trigger] ip[j]) by {
                    assert(dd[j] == ip[j]);
                }
                assert forall|j: int| 0 <= j < fp.len() implies is_digit(#[trigger] fp[j]) by {
                    assert(dd[ip.len() + j] == fp[j]);
                }
            }
        }
    }
    let limit: u128 = PROBABILITY_SCALE as u128 + ROUNDING_SLACK as u128 + 1;
    let vc = match capped_value(&digits, 0, digits.len(), limit) {
        None => {
            return None;
        },
        Some(c) => c,
    };
    let ghost v = digits_value(dd);
    // the exponent
    let cap_e: u128 = digits.len() as u128 + 41;
    let mut ec: u128 = 0;
    let ghost ed = cs@.subrange(eds as int, end as int);
    if has_exp {
        if eds == end {
            return None;
        }
        match capped_value(cs, eds, end, cap_e) {
            None => {
                return None;
            },
            Some(c) => {
                ec = c;
            },
        }
    } else {
        assert(ed =~= Seq::<char>::empty());
    }
    assert(ec == capped(digits_value(ed), cap_e as nat));
    let ghost e: int = if eneg {
        -(digits_value(ed) as int)
    } else {
        digits_value(ed) as int
    };
    let ghost m_real = e - fp.len() + 18;
    if vc == 0 {
        proof {
            assert(v == 0);
            if m_real >= 0 {
                assert(v * pow10(m_real as nat) == 0) by (nonlinear_arith)
                    requires
                        v == 0,
                ;
            } else {
                lemma_pow10_positive((-m_real) as nat);
                lemma_basic_div(0, pow10((-m_real) as nat) as int);
            }
        }
        return Some(Probability { scaled: 0 });
    }
    if negative {
        return None;
    }
    let flen = mend - fs;
    let m: i128 = (if eneg {
        -(ec as i128)
    } else {
        ec as i128
    }) - flen as i128 + 18;
    let tc = units_of(&digits, vc, m);
    proof {
        if ec == cap_e {
            lemma_clamped_exponent(dd, m as int, m_real);
        }
    }
    proof {
        assert(tc == capped(scaled_floor(v, m_real), limit as nat));
    }
    if tc > PROBABILITY_SCALE as u128 + ROUNDING_SLACK as u128 {
        return None;
    }
    Some(Probability { scaled: if tc > PROBABILITY_SCALE as u128 { PROBABILITY_SCALE } else { tc as u64 } })
}

/// Parses the characters `start..end` of `cs` as a probability.
#[verifier::rlimit(50)]
fn parse_probability_in(cs: &Vec<char>, start: usize, end: usize) -> (r: Option<Probability>)
    requires
        start <= end <= cs@.len(),
    ensures
        r == spec_probability(cs@.subrange(start as int, end as int)),
{
    let ghost t = cs@.subrange(start as int, end as int);
    let signed = start < end && (cs[start] == '+' || cs[start] == '-');
    let negative = start < end && cs[start] == '-';
    let bs = if signed {
        start + 1
    } else {
        start
    };
    let ghost body = cs@.subrange(bs as int, end as int);
    assert(body =~= (if signed { t.drop_first() } else { t }));
    // the exponent marker
    let mut mend = bs;
    while mend < end && cs[mend] != 'e' && cs[mend] != 'E'
        invariant
            bs <= mend <= end <= cs@.len(),
            body == cs@.subrange(bs as int, end as int),
            t == cs@.subrange(start as int, end as int),
            body == (if signed { t.drop_first() } else { t }),
            forall|j: int| 0 <= j < mend - bs ==> body[j] != 'e' && body[j] != 'E',
        decreases end - mend,
    {
        mend += 1;
    }
    proof {
        lemma_first_exponent_index(body, mend - bs);
    }
    let ghost mant = body.take(mend - bs);
    assert(mant =~= cs@.subrange(bs as int, mend as int));
    // the dot
    let mut dot = bs;
    while dot < mend && cs[dot] != '.'
        invariant
            bs <= dot <= mend <= end <= cs@.len(),
            mant == cs@.subrange(bs as int, mend as int),
            body == cs@.subrange(bs as int, end as int),
            t == cs@.subrange(start as int, end as int),
            body == (if signed { t.drop_first() } else { t }),
            first_exponent_index(body) == mend - bs,
            mant == body.take(mend - bs),
            forall|j: int| 0 <= j < dot - bs ==> mant[j] != '.',
        decreases mend - dot,
    {
        dot += 1;
    }
    proof {
        lemma_first_index(mant, '.', dot - bs);
    }
    let fs = if dot < mend {
        dot + 1
    } else {
        mend
    };
    let ghost ip = mant.take(dot - bs);
    let ghost fp = cs@.subrange(fs as int, mend as int);
    assert(ip =~= cs@.subrange(bs as int, dot as int));
    assert(fp =~= (if dot - bs < mant.len() { mant.skip(dot - bs + 1) } else { Seq::<char>::empty() }));
    // the exponent
    let ghost ex = if mend - bs < body.len() {
        body.skip(mend - bs + 1)
    } else {
        Seq::<char>::empty()
    };
    let mut eneg = false;
    let mut eds: usize = end;
    if mend < end {
        let es = mend + 1;
        assert(ex =~= cs@.subrange(es as int, end as int));
        eneg = es < end && cs[es] == '-';
        eds = if es < end && (cs[es] == '+' || cs[es] == '-') {
            es + 1
        } else {
            es
        };
    }
    assert(cs@.subrange(eds as int, end as int) =~= (if ex.len() > 0 && (ex[0] == '+' || ex[0] == '-') {
        ex.drop_first()
    } else {
        ex
    }));
    let r = probability_from_parts(cs, bs, dot, fs, mend, mend < end, eneg, eds, end, negative);
    proof {
        assert(eneg == (ex.len() > 0 && ex[0] == '-'));
        assert(spec_probability(t) == probability_from(
            negative,
            ip,
            fp,
            mend < end,
            eneg,
            cs@.subrange(eds as int, end as int),
        ));
    }
    r
}

proof fn lemma_pow10_mono(a: nat, b: nat)
    requires
        a <= b,
    ensures
        pow10(a) <= pow10(b),
    decreases b,
{
    if a < b {
        lemma_pow10_mono(a, (b - 1) as nat);
    }
}

/// The pieces of `cs` that the ranges `bs` delimit.
pub open spec fn pieces(cs: Seq<char>, bs: Seq<(usize, usize)>) -> Seq<Seq<char>> {
    bs.map_values(|b: (usize, usize)| cs.subrange(b.0 as int, b.1 as int))
}

/// The ranges of the pieces of `cs` between commas.
fn split_bounds(cs: &Vec<char>) -> (r: Vec<(usize, usize)>)
    ensures
        pieces(cs@, r@) == split_commas(cs@),
        forall|j: int| #![trigger r@[j]] 0 <= j < r@.len() ==> r@[j].0 <= r@[j].1 && r@[j].1 <= cs@.len(),
{
    let n = cs.len();
    let mut bounds: Vec<(usize, usize)> = Vec::new();
    let mut start: usize = 0;
    let mut i: usize = 0;
    proof {
        assert(cs@.take(0) =~= Seq::<char>::empty());
        assert(cs@.subrange(0, 0) =~= Seq::<char>::empty());
        assert(pieces(cs@, bounds@) =~= Seq::<Seq<char>>::empty());
        assert(split_commas(Seq::<char>::empty()) =~= seq![Seq::<char>::empty()]);
    }
    while i < n
        invariant
            n == cs@.len(),
            start <= i <= n,
            split_commas(cs@.take(i as int)) == pieces(cs@, bounds@).push(cs@.subrange(start as int, i as int)),
            forall|j: int| #![trigger bounds@[j]] 0 <= j < bounds@.len() ==> bounds@[j].0 <= bounds@[j].1 && bounds@[j].1 <= i,
        decreases n - i,
    {
        proof {
            assert(cs@.take(i + 1).drop_last() =~= cs@.take(i as int));
        }
        if cs[i] == ',' {
            proof {
                assert(pieces(cs@, bounds@.push((start, i))) =~= pieces(cs@, bounds@).push(
                    cs@.subrange(start as int, i as int),
                ));
                assert(cs@.subrange(i + 1, i + 1) =~= Seq::<char>::empty());
            }
            bounds.push((start, i));
            start = i + 1;
        } else {
            proof {
                assert(cs@.subrange(start as int, i + 1) =~= cs@.subrange(start as int, i as int).push(cs@[i as int]));
                assert(pieces(cs@, bounds@).push(cs@.subrange(start as int, i as int)).update(
                    bounds@.len() as int,
                    cs@.subrange(start as int, i + 1),
                ) =~= pieces(cs@, bounds@).push(cs@.subrange(start as int, i + 1)));
            }
        }
        i += 1;
    }
    proof {
        assert(cs@.take(n as int) =~= cs@);
        assert(pieces(cs@, bounds@.push((start, n))) =~= pieces(cs@, bounds@).push(
            cs@.subrange(start as int, n as int),
        ));
    }
    bounds.push((start, n));
    bounds
}

/// The ranges of the tokens of `cs`: none when `cs` is empty.
fn token_bounds(cs: &Vec<char>) -> (r: Vec<(usize, usize)>)
    ensures
        pieces(cs@, r@) == spec_tokens(cs@),
        forall|j: int| #![trigger r@[j]] 0 <= j < r@.len() ==> r@[j].0 <= r@[j].1 && r@[j].1 <= cs@.len(),
{
    if cs.len() == 0 {
        let r: Vec<(usize, usize)> = Vec::new();
        assert(pieces(cs@, r@) =~= Seq::<Seq<char>>::empty());
        r
    } else {
        split_bounds(cs)
    }
}

/// Parses the characters `start..end` of `cs` as a value of type `ty`.
fn parse_value_in(ty: ParameterType, cs: &Vec<char>, start: usize, end: usize) -> (r: Option<ParameterValue>)
    requires
        start <= end <= cs@.len(),
    ensures
        r == spec_parse_value(ty, cs@.subrange(start as int, end as int)),
{
    match ty {
        ParameterType::PositiveInteger => match parse_usize_in(cs, start, end) {
            Some(n) => Some(ParameterValue::PositiveInteger(n)),
            None => None,
        },
        ParameterType::Probability => match parse_probability_in(cs, start, end) {
            Some(p) => Some(ParameterValue::Probability(p)),
            None => None,
        },
    }
}

/// Parses the token `t` as a value of type `ty`.
pub fn parse_value(ty: ParameterType, t: &str) -> (r: Option<ParameterValue>)
    ensures
        r == spec_parse_value(ty, t@),
{
    let cs = chars_of(t);
    assert(cs@.subrange(0, cs@.len() as int) =~= cs@);
    parse_value_in(ty, &cs, 0, cs.len())
}

/// Builds an error of kind `kind` on the characters `start..end` of `s`.
fn error_on(kind: ParamErrorKind, s: &str, start: usize, end: usize) -> (r: ParamError)
    requires
        start <= end <= s@.len(),
    ensures
        error_view(r) == (kind, s@.subrange(start as int, end as int)),
{
    let piece = s.substring_char(start, end);
    ParamError { kind, input: piece.to_owned() }
}

/// A parser of parameter strings against a declared list of types.
pub struct ParameterParser {
    parameter_types: Vec<ParameterType>,
}

impl ParameterParser {
    /// The declared types.
    pub closed spec fn types(&self) -> Seq<ParameterType> {
        self.parameter_types@
    }

    /// Builds a parser for the given types, in order.
    pub fn new(parameter_types: Vec<ParameterType>) -> (r: ParameterParser)
        ensures
            r.types() == parameter_types@,
    {
        ParameterParser { parameter_types }
    }

    /// Parses a comma-separated parameter string (the empty string holds no parameter):
    /// an arity error when the number of parameters differs from the number of types,
    /// else a type error on the first parameter that does not parse as its type, else
    /// one value per type, in order.
    pub fn parse(&self, str_params: &str) -> (r: Result<Vec<ParameterValue>, ParamError>)
        ensures
            result_matches(
                match r {
                    Ok(v) => Ok(v@),
                    Err(e) => Err(e),
                },
                spec_parse(self.types(), str_params@),
            ),
    {
        let ghost types = self.parameter_types@;
        let cs = chars_of(str_params);
        let bounds = token_bounds(&cs);
        let ghost toks = spec_tokens(str_params@);
        if bounds.len() != self.parameter_types.len() {
            assert(str_params@.subrange(0, str_params@.len() as int) =~= str_params@);
            return Err(error_on(ParamErrorKind::Arity, str_params, 0, cs.len()));
        }
        let mut values: Vec<ParameterValue> = Vec::new();
        let mut i: usize = 0;
        while i < bounds.len()
            invariant
                types == self.parameter_types@,
                cs@ == str_params@,
                pieces(cs@, bounds@) == toks,
                toks == spec_tokens(str_params@),
                bounds@.len() == types.len(),
                forall|j: int| #![trigger bounds@[j]] 0 <= j < bounds@.len() ==> bounds@[j].0 <= bounds@[j].1 && bounds@[j].1 <= cs@.len(),
                i <= bounds@.len(),
                spec_parse_tokens(types, toks, i as int) == Ok::<Seq<ParameterValue>, (ParamErrorKind, Seq<char>)>(values@),
            decreases bounds@.len() - i,
        {
            let (a, b) = bounds[i];
            assert(toks[i as int] == cs@.subrange(a as int, b as int));
            match parse_value_in(self.parameter_types[i], &cs, a, b) {
                None => {
                    proof {
                        lemma_parse_tokens_err_stable(types, toks, i + 1, toks.len() as int);
                    }
                    return Err(error_on(ParamErrorKind::Type, str_params, a, b));
                },
                Some(v) => {
                    values.push(v);
                },
            }
            i += 1;
        }
        Ok(values)
    }
}

/// Reads the first `i` tokens as nonnegative integers; the first token that fails gives
/// the error.
pub open spec fn spec_integer_tokens(toks: Seq<Seq<char>>, i: int) -> Result<Seq<usize>, (ParamErrorKind, Seq<char>)>
    decreases i,
{
    if i <= 0 {
        Ok(Seq::empty())
    } else {
        match spec_integer_tokens(toks, i - 1) {
            Err(e) => Err(e),
            Ok(vs) => match spec_positive_integer(toks[i - 1]) {
                None => Err((ParamErrorKind::Type, toks[i - 1])),
                Some(v) => Ok(vs.push(v)),
            },
        }
    }
}

/// What reading a comma-separated list of nonnegative integers gives.
pub open spec fn spec_positive_integers(s: Seq<char>) -> Result<Seq<usize>, (ParamErrorKind, Seq<char>)> {
    let toks = spec_tokens(s);
    spec_integer_tokens(toks, toks.len() as int)
}

/// Reads a comma-separated list of nonnegative integers (the empty string is the empty
/// list); a type error on the first piece that is not an integer.
pub fn str_param_to_positive_integers(str_params: &str) -> (r: Result<Vec<usize>, ParamError>)
    ensures
        result_matches(
            match r {
                Ok(v) => Ok(v@),
                Err(e) => Err(e),
            },
            spec_positive_integers(str_params@),
        ),
{
    let cs = chars_of(str_params);
    let bounds = token_bounds(&cs);
    let ghost toks = spec_tokens(str_params@);
    let mut values: Vec<usize> = Vec::new();
    let mut i: usize = 0;
    while i < bounds.len()
        invariant
            cs@ == str_params@,
            pieces(cs@, bounds@) == toks,
            toks == spec_tokens(str_params@),
            forall|j: int| #![trigger bounds@[j]] 0 <= j < bounds@.len() ==> bounds@[j].0 <= bounds@[j].1 && bounds@[j].1 <= cs@.len(),
            i <= bounds@.len(),
            spec_integer_tokens(toks, i as int) == Ok::<Seq<usize>, (ParamErrorKind, Seq<char>)>(values@),
        decreases bounds@.len() - i,
    {
        let (a, b) = bounds[i];
        assert(toks[i as int] == cs@.subrange(a as int, b as int));
        match parse_usize_in(&cs, a, b) {
            None => {
                proof {
                    lemma_integer_tokens_err_stable(toks, i + 1, toks.len() as int);
                }
                return Err(error_on(ParamErrorKind::Type, str_params, a, b));
            },
            Some(v) => {
                values.push(v);
            },
        }
        i += 1;
    }
    Ok(values)
}

proof fn lemma_parse_tokens_err_stable(types: Seq<ParameterType>, toks: Seq<Seq<char>>, i: int, k: int)
    requires
        0 <= i <= k,
        spec_parse_tokens(types, toks, i) is Err,
    ensures
        spec_parse_tokens(types, toks, k) == spec_parse_tokens(types, toks, i),
    decreases k - i,
{
    if i < k {
        lemma_parse_tokens_err_stable(types, toks, i, k - 1);
    }
}

proof fn lemma_integer_tokens_err_stable(toks: Seq<Seq<char>>, i: int, k: int)
    requires
        0 <= i <= k,
        spec_integer_tokens(toks, i) is Err,
    ensures
        spec_integer_tokens(toks, k) == spec_integer_tokens(toks, i),
    decreases k - i,
{
    if i < k {
        lemma_integer_tokens_err_stable(toks, i, k - 1);
    }
}

proof fn lemma_parse_tokens_typed(types: Seq<ParameterType>, toks: Seq<Seq<char>>, i: int)
    requires
        0 <= i <= types.len(),
        spec_parse_tokens(types, toks, i) is Ok,
    ensures
        spec_parse_tokens(types, toks, i)->Ok_0.len() == i,
        forall|j: int|
            0 <= j < i ==> (#[trigger] spec_parse_tokens(types, toks, i)->Ok_0[j]).has_type(types[j]),
    decreases i,
{
    if i > 0 {
        lemma_parse_tokens_typed(types, toks, i - 1);
    }
}

/// A successful parse gives one value per declared type, each of its declared type.
pub proof fn lemma_parse_well_typed(types: Seq<ParameterType>, s: Seq<char>)
    requires
        spec_parse(types, s) is Ok,
    ensures
        spec_parse(types, s)->Ok_0.len() == types.len(),
        forall|j: int| 0 <= j < types.len() ==> (#[trigger] spec_parse(types, s)->Ok_0[j]).has_type(types[j]),
{
    let toks = spec_tokens(s);
    lemma_parse_tokens_typed(types, toks, toks.len() as int);
}

/// What reading `n` comma-separated nonnegative integers followed by a probability
/// gives: an arity error (with `s`) unless `s` has exactly `n + 1` pieces between commas
/// (the empty string is one empty piece), else a type error on the first piece that
/// does not parse, else the integers and the probability.
pub open spec fn spec_integers_and_probability(s: Seq<char>, n: nat) -> Result<
    (Seq<usize>, Probability),
    (ParamErrorKind, Seq<char>),
> {
    let words = split_commas(s);
    if words.len() != n + 1 {
        Err((ParamErrorKind::Arity, s))
    } else {
        match spec_integer_tokens(words, n as int) {
            Err(e) => Err(e),
            Ok(v) => match spec_probability(words[n as int]) {
                None => Err((ParamErrorKind::Type, words[n as int])),
                Some(p) => Ok((v, p)),
            },
        }
    }
}

/// Reads `n_integers` comma-separated nonnegative integers followed by a probability.
pub fn str_param_to_positive_integers_and_probability(str_params: &str, n_integers: usize) -> (r: Result<
    (Vec<usize>, Probability),
    ParamError,
>)
    ensures
        result_matches(
            match r {
                Ok(v) => Ok((v.0@, v.1)),
                Err(e) => Err(e),
            },
            spec_integers_and_probability(str_params@, n_integers as nat),
        ),
{
    let cs = chars_of(str_params);
    let bounds = split_bounds(&cs);
    let ghost words = split_commas(str_params@);
    if bounds.len() == 0 || bounds.len() - 1 != n_integers {
        assert(str_params@.subrange(0, str_params@.len() as int) =~= str_params@);
        return Err(error_on(ParamErrorKind::Arity, str_params, 0, cs.len()));
    }
    let mut values: Vec<usize> = Vec::new();
    let mut i: usize = 0;
    while i < n_integers
        invariant
            cs@ == str_params@,
            pieces(cs@, bounds@) == words,
            words == split_commas(str_params@),
            bounds@.len() == n_integers + 1,
            forall|j: int| #![trigger bounds@[j]] 0 <= j < bounds@.len() ==> bounds@[j].0 <= bounds@[j].1 && bounds@[j].1 <= cs@.len(),
            i <= n_integers,
            spec_integer_tokens(words, i as int) == Ok::<Seq<usize>, (ParamErrorKind, Seq<char>)>(values@),
        decreases n_integers - i,
    {
        let (a, b) = bounds[i];
        assert(words[i as int] == cs@.subrange(a as int, b as int));
        match parse_usize_in(&cs, a, b) {
            None => {
                proof {
                    lemma_integer_tokens_err_stable(words, i + 1, n_integers as int);
                }
                return Err(error_on(ParamErrorKind::Type, str_params, a, b));
            },
            Some(v) => {
                values.push(v);
            },
        }
        i += 1;
    }
    let (a, b) = bounds[n_integers];
    assert(words[n_integers as int] == cs@.subrange(a as int, b as int));
    match parse_probability_in(&cs, a, b) {
        None => Err(error_on(ParamErrorKind::Type, str_params, a, b)),
        Some(p) => Ok((values, p)),
    }
}

} // verus!
