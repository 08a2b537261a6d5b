//! Index paths written as text: comma-separated decimal positions such as
//! `0,1,2`, each of which may be surrounded by whitespace.

use vstd::prelude::*;
use crate::text::{decimal, decimals, join};

verus! {

/// Why a text could not be read as an unsigned integer.
#[derive(Clone, Copy, Debug, PartialEq, Eq)]
pub enum IntParseError {
    /// The text is empty.
    Empty,
    /// The text holds something other than decimal digits.
    InvalidDigit,
    /// The number is too large for the integer type.
    PosOverflow,
}

/// The message for each reason, as `core::num::ParseIntError` words it.
pub open spec fn int_parse_message(e: IntParseError) -> Seq<char> {
    match e {
        IntParseError::Empty => "cannot parse integer from empty string"@,
        IntParseError::InvalidDigit => "invalid digit found in string"@,
        IntParseError::PosOverflow => "number too large to fit in target type"@,
    }
}

impl IntParseError {
    /// The message for this reason.
    pub fn message(&self) -> (s: String)
        ensures
            s@ == int_parse_message(*self),
    {
        match self {
            IntParseError::Empty => String::from_str("cannot parse integer from empty string"),
            IntParseError::InvalidDigit => String::from_str("invalid digit found in string"),
            IntParseError::PosOverflow => String::from_str("number too large to fit in target type"),
        }
    }
}

/// Whether `c` is white space in the Unicode sense (the `White_Space`
/// property), as `char::is_whitespace` decides.
pub open spec fn is_white_space(c: char) -> bool {
    let u = c as u32;
    ||| 0x9 <= u <= 0xD
    ||| u == 0x20
    ||| u == 0x85
    ||| u == 0xA0
    ||| u == 0x1680
    ||| 0x2000 <= u <= 0x200A
    ||| u == 0x2028
    ||| u == 0x2029
    ||| u == 0x202F
    ||| u == 0x205F
    ||| u == 0x3000
}

/// `s` without leading white space.
pub open spec fn trim_start(s: Seq<char>) -> Seq<char>
    decreases s.len(),
{
    if s.len() > 0 && is_white_space(s[0]) {
        trim_start(s.drop_first())
    } else {
        s
    }
}

/// `s` without trailing white space.
pub open spec fn trim_end(s: Seq<char>) -> Seq<char>
    decreases s.len(),
{
    if s.len() > 0 && is_white_space(s.last()) {
        trim_end(s.drop_last())
    } else {
        s
    }
}

/// `s` without leading and trailing white space.
pub open spec fn trim(s: Seq<char>) -> Seq<char> {
    trim_end(trim_start(s))
}

/// The position of the first comma in `s`, or its length when it has none.
pub open spec fn first_comma(s: Seq<char>) -> int
    decreases s.len(),
{
    if s.len() == 0 {
        0
    } else if s[0] == ',' {
        0
    } else {
        1 + first_comma(s.drop_first())
    }
}

/// Whether `c` is an ASCII decimal digit.
pub open spec fn is_digit(c: char) -> bool {
    '0' <= c <= '9'
}

/// The value of a decimal digit.
pub open spec fn digit_value(c: char) -> nat {
    (c as u32 - '0' as u32) as nat
}

/// Reads the digits `ds` after the value `acc` read so far, from left to
/// right: the first character that is not a digit, or the first digit that
/// takes the value past `max`, decides the error.
pub open spec fn read_digits(ds: Seq<char>, acc: nat, max: nat) -> Result<nat, IntParseError>
    decreases ds.len(),
{
    if ds.len() == 0 {
        Ok(acc)
    } else if !is_digit(ds[0]) {
        Err(IntParseError::InvalidDigit)
    } else if acc * 10 + digit_value(ds[0]) > max {
        Err(IntParseError::PosOverflow)
    } else {
        read_digits(ds.drop_first(), acc * 10 + digit_value(ds[0]), max)
    }
}

/// What `str::parse` makes of `t` for an unsigned integer type whose
/// largest value is `max`: an optional leading `+`, then one or more
/// decimal digits.
pub open spec fn parse_unsigned(t: Seq<char>, max: nat) -> Result<nat, IntParseError> {
    if t.len() == 0 {
        Err(IntParseError::Empty)
    } else if t.len() == 1 && (t[0] == '+' || t[0] == '-') {
        Err(IntParseError::InvalidDigit)
    } else {
        let ds = if t[0] == '+' {
            t.drop_first()
        } else {
            t
        };
        read_digits(ds, 0, max)
    }
}

/// What `str::parse::<usize>` makes of `t`.
pub open spec fn parse_usize(t: Seq<char>) -> Result<usize, IntParseError> {
    match parse_unsigned(t, usize::MAX as nat) {
        Ok(n) => Ok(n as usize),
        Err(e) => Err(e),
    }
}

/// What `str::parse::<u8>` makes of `t`.
pub open spec fn parse_u8_spec(t: Seq<char>) -> Result<u8, IntParseError> {
    match parse_unsigned(t, 255) {
        Ok(n) => Ok(n as u8),
        Err(e) => Err(e),
    }
}

/// The index path written in `s`: its comma-separated pieces, each trimmed
/// of white space and read as an unsigned decimal integer; the first piece
/// that cannot be read decides the error.
pub open spec fn parse_index_spec(s: Seq<char>) -> Result<Seq<usize>, IntParseError>
    decreases s.len(),
{
    let p = first_comma(s);
    match parse_usize(trim(s.take(p))) {
        Err(e) => Err(e),
        Ok(v) => if p >= s.len() {
            Ok(seq![v])
        } else {
            proof {
                lemma_first_comma_bounds(s);
            }
            match parse_index_spec(s.skip(p + 1)) {
                Err(e) => Err(e),
                Ok(rest) => Ok(seq![v] + rest),
            }
        },
    }
}

/// The first comma lies within the text.
pub proof fn lemma_first_comma_bounds(s: Seq<char>)
    ensures
        0 <= first_comma(s) <= s.len(),
    decreases s.len(),
{
    if s.len() > 0 && s[0] != ',' {
        lemma_first_comma_bounds(s.drop_first());
    }
}

proof fn lemma_first_comma(s: Seq<char>, k: int)
    requires
        0 <= k <= s.len(),
        k < s.len() ==> s[k] == ',',
        forall|j: int| 0 <= j < k ==> #[trigger] s[j] != ',',
    ensures
        first_comma(s) == k,
    decreases k,
{
    if k > 0 {
        assert forall|j: int| 0 <= j < k - 1 implies #[trigger] s.drop_first()[j] != ',' by {
            assert(s.drop_first()[j] == s[j + 1]);
        }
        lemma_first_comma(s.drop_first(), k - 1);
    }
}

/// Where the pieces read so far have given `out`, the whole reading is
/// `out` followed by the reading of what is left.
pub open spec fn combine(out: Seq<usize>, rest: Result<Seq<usize>, IntParseError>) -> Result<Seq<usize>, IntParseError> {
    match rest {
        Err(e) => Err(e),
        Ok(w) => Ok(out + w),
    }
}

fn is_white_space_char(c: char) -> (b: bool)
    ensures
        b == is_white_space(c),
{
    let u = c as u32;
    (0x9 <= u && u <= 0xD) || u == 0x20 || u == 0x85 || u == 0xA0 || u == 0x1680 || (0x2000 <= u && u
        <= 0x200A) || u == 0x2028 || u == 0x2029 || u == 0x202F || u == 0x205F || u == 0x3000
}

proof fn lemma_trim_start_skip(s: Seq<char>, i: int)
    requires
        0 <= i <= s.len(),
        forall|j: int| 0 <= j < i ==> is_white_space(#[trigger] s[j]),
    ensures
        trim_start(s) == trim_start(s.subrange(i, s.len() as int)),
    decreases i,
{
    if i > 0 {
        assert(s.drop_first().subrange(i - 1, s.drop_first().len() as int) =~= s.subrange(i, s.len() as int));
        assert forall|j: int| 0 <= j < i - 1 implies is_white_space(#[trigger] s.drop_first()[j]) by {
            assert(s.drop_first()[j] == s[j + 1]);
        }
        lemma_trim_start_skip(s.drop_first(), i - 1);
    } else {
        assert(s.subrange(0, s.len() as int) =~= s);
    }
}

proof fn lemma_trim_end_cut(s: Seq<char>, k: int)
    requires
        0 <= k <= s.len(),
        forall|j: int| k <= j < s.len() ==> is_white_space(#[trigger] s[j]),
    ensures
        trim_end(s) == trim_end(s.subrange(0, k)),
    decreases s.len() - k,
{
    if k < s.len() {
        assert(s.drop_last().subrange(0, k) =~= s.subrange(0, k));
        assert forall|j: int| k <= j < s.drop_last().len() implies is_white_space(#[trigger] s.drop_last()[j]) by {
            assert(s.drop_last()[j] == s[j]);
        }
        lemma_trim_end_cut(s.drop_last(), k);
    } else {
        assert(s.subrange(0, k) =~= s);
    }
}

/// Reads the characters `cs[a..b]` as an unsigned integer no larger than
/// `max`.
fn parse_digits(cs: &Vec<char>, a: usize, b: usize, max: usize) -> (r: Result<usize, IntParseError>)
    requires
        a <= b <= cs@.len(),
    ensures
        match parse_unsigned(cs@.subrange(a as int, b as int), max as nat) {
            Ok(n) => r == Ok::<usize, IntParseError>(n as usize) && n <= max,
            Err(e) => r == Err::<usize, IntParseError>(e),
        },
{
    let ghost t = cs@.subrange(a as int, b as int);
    if a == b {
        return Err(IntParseError::Empty);
    }
    if b - a == 1 && (cs[a] == '+' || cs[a] == '-') {
        return Err(IntParseError::InvalidDigit);
    }
    let mut k = a;
    if cs[a] == '+' {
        k = a + 1;
    }
    let ghost ds = cs@.subrange(k as int, b as int);
    proof {
        if cs@[a as int] == '+' {
            assert(t.drop_first() =~= ds);
        } else {
            assert(t =~= ds);
        }
    }
    let mut acc: usize = 0;
    while k < b
        invariant
            a <= k <= b,
            b <= cs@.len(),
            acc <= max,
            t == cs@.subrange(a as int, b as int),
            parse_unsigned(t, max as nat) == read_digits(ds, 0, max as nat),
            read_digits(ds, 0, max as nat) == read_digits(cs@.subrange(k as int, b as int), acc as nat, max as nat),
        decreases b - k,
    {
        let c = cs[k];
        let ghost rest = cs@.subrange(k as int, b as int);
        proof {
            assert(rest[0] == c);
            assert(rest.drop_first() =~= cs@.subrange(k + 1, b as int));
        }
        if c < '0' || c > '9' {
            return Err(IntParseError::InvalidDigit);
        }
        let d = (c as u32 - '0' as u32) as usize;
        if d > max || acc > (max - d) / 10 {
            proof {
                if d <= max {
                    assert(acc * 10 + d > max) by (nonlinear_arith)
                        requires
                            acc > (max - d) / 10,
                            d <= 9,
                            d <= max,
                    ;
                }
            }
            return Err(IntParseError::PosOverflow);
        }
        proof {
            assert(acc * 10 + d <= max) by (nonlinear_arith)
                requires
                    acc <= (max - d) / 10,
                    d <= 9,
                    d <= max,
            ;
        }
        acc = acc * 10 + d;
        k = k + 1;
    }
    assert(cs@.subrange(b as int, b as int) =~= Seq::<char>::empty());
    Ok(acc)
}

/// The bounds of `cs[lo..hi]` without its leading and trailing white space.
pub fn trim_bounds(cs: &Vec<char>, lo: usize, hi: usize) -> (r: (usize, usize))
    requires
        lo <= hi <= cs@.len(),
    ensures
        lo <= r.0 <= r.1 <= hi,
        trim(cs@.subrange(lo as int, hi as int)) == cs@.subrange(r.0 as int, r.1 as int),
{
    let ghost piece = cs@.subrange(lo as int, hi as int);
    let mut a = lo;
    while a < hi && is_white_space_char(cs[a])
        invariant
            lo <= a <= hi,
            hi <= cs@.len(),
            forall|j: int| lo <= j < a ==> is_white_space(#[trigger] cs@[j]),
        decreases hi - a,
    {
        a = a + 1;
    }
    let mut b = hi;
    while b > a && is_white_space_char(cs[b - 1])
        invariant
            lo <= a <= b <= hi,
            hi <= cs@.len(),
            forall|j: int| b <= j < hi ==> is_white_space(#[trigger] cs@[j]),
        decreases b - a,
    {
        b = b - 1;
    }
    let ghost t = cs@.subrange(a as int, b as int);
    proof {
        assert forall|j: int| 0 <= j < a - lo implies is_white_space(#[trigger] piece[j]) by {
            assert(piece[j] == cs@[lo + j]);
        }
        lemma_trim_start_skip(piece, a - lo);
        assert(piece.subrange(a - lo, piece.len() as int) =~= cs@.subrange(a as int, hi as int));
        let mid = cs@.subrange(a as int, hi as int);
        if a == hi || !is_white_space(cs@[a as int]) {
            assert(trim_start(mid) == mid);
        }
        assert forall|j: int| b - a <= j < mid.len() implies is_white_space(#[trigger] mid[j]) by {
            assert(mid[j] == cs@[a + j]);
        }
        lemma_trim_end_cut(mid, b - a);
        assert(mid.subrange(0, b - a) =~= t);
        if b > a {
            assert(t.last() == cs@[b - 1]);
        }
        assert(trim_end(t) == t);
        assert(trim(piece) == t);
    }
    (a, b)
}

/// Reads one trimmed piece, the characters `cs[lo..hi]`.
fn parse_piece(cs: &Vec<char>, lo: usize, hi: usize) -> (r: Result<usize, IntParseError>)
    requires
        lo <= hi <= cs@.len(),
    ensures
        r == parse_usize(trim(cs@.subrange(lo as int, hi as int))),
{
    let (a, b) = trim_bounds(cs, lo, hi);
    parse_digits(cs, a, b, usize::MAX)
}

/// The characters of `s`.
pub fn chars_of(s: &str) -> (cs: Vec<char>)
    ensures
        cs@ == s@,
{
    let n = s.unicode_len();
    let mut cs: Vec<char> = Vec::new();
    let mut i: usize = 0;
    while i < n
        invariant
            n == s@.len(),
            i <= n,
            cs@ == s@.take(i as int),
        decreases n - i,
    {
        cs.push(s.get_char(i));
        proof {
            assert(s@.take(i + 1) =~= s@.take(i as int).push(s@[i as int]));
        }
        i = i + 1;
    }
    assert(s@.take(n as int) =~= s@);
    cs
}

/// Reads `s` as a `u8`, as `str::parse::<u8>` does: no white space is
/// allowed around the digits.
pub fn parse_u8(s: &str) -> (r: Result<u8, IntParseError>)
    ensures
        r == parse_u8_spec(s@),
{
    let cs = chars_of(s);
    assert(cs@.subrange(0, cs@.len() as int) =~= cs@);
    match parse_digits(&cs, 0, cs.len(), 255) {
        Ok(n) => Ok(n as u8),
        Err(e) => Err(e),
    }
}

/// Parses an index path such as `0,1,2`.
pub fn parse_index(index_str: &str) -> (r: Result<Vec<usize>, IntParseError>)
    ensures
        match parse_index_spec(index_str@) {
            Ok(v) => r matches Ok(x) && x@ == v,
            Err(e) => r == Err::<Vec<usize>, IntParseError>(e),
        },
{
    let cs = chars_of(index_str);
    parse_chars(&cs)
}

fn parse_chars(cs: &Vec<char>) -> (r: Result<Vec<usize>, IntParseError>)
    ensures
        match parse_index_spec(cs@) {
            Ok(v) => r matches Ok(x) && x@ == v,
            Err(e) => r == Err::<Vec<usize>, IntParseError>(e),
        },
{
    let mut out: Vec<usize> = Vec::new();
    let mut start: usize = 0;
    let mut i: usize = 0;
    assert(cs@.skip(0) =~= cs@);
    assert(out@ + Seq::<usize>::empty() =~= out@);
    loop
        invariant
            start <= i <= cs@.len(),
            forall|j: int| start <= j < i ==> #[trigger] cs@[j] != ',',
            parse_index_spec(cs@) == combine(out@, parse_index_spec(cs@.skip(start as int))),
        decreases cs@.len() - i,
    {
        if i == cs.len() || cs[i] == ',' {
            let ghost rest = cs@.skip(start as int);
            proof {
                assert forall|j: int| 0 <= j < i - start implies #[trigger] rest[j] != ',' by {
                    assert(rest[j] == cs@[start + j]);
                }
                lemma_first_comma(rest, i - start);
                assert(rest.take(i - start) =~= cs@.subrange(start as int, i as int));
            }
            let v = parse_piece(cs, start, i);
            match v {
                Err(e) => {
                    return Err(e);
                },
                Ok(x) => {
                    let ghost before = out@;
                    out.push(x);
                    if i == cs.len() {
                        proof {
                            assert(before + seq![x] =~= out@);
                        }
                        return Ok(out);
                    }
                    proof {
                        assert(rest.skip(i - start + 1) =~= cs@.skip(i + 1));
                        match parse_index_spec(cs@.skip(i + 1)) {
                            Err(e) => {},
                            Ok(w) => {
                                assert(before + (seq![x] + w) =~= out@ + w);
                            },
                        }
                    }
                    start = i + 1;
                },
            }
        }
        i = i + 1;
    }
}

proof fn lemma_read_digits_push(ds: Seq<char>, c: char, acc: nat, max: nat)
    ensures
        read_digits(ds.push(c), acc, max) == match read_digits(ds, acc, max) {
            Ok(v) => if !is_digit(c) {
                Err(IntParseError::InvalidDigit)
            } else if v * 10 + digit_value(c) > max {
                Err(IntParseError::PosOverflow)
            } else {
                Ok(v * 10 + digit_value(c))
            },
            Err(e) => Err(e),
        },
    decreases ds.len(),
{
    if ds.len() == 0 {
        assert(ds.push(c).drop_first() =~= Seq::<char>::empty());
        assert(ds.push(c)[0] == c);
        assert(read_digits(Seq::<char>::empty(), acc * 10 + digit_value(c), max) == Ok::<nat, IntParseError>(
            acc * 10 + digit_value(c),
        ));
        assert(read_digits(ds, acc, max) == Ok::<nat, IntParseError>(acc));
    } else {
        assert(ds.push(c)[0] == ds[0]);
        assert(ds.push(c).drop_first() =~= ds.drop_first().push(c));
        if is_digit(ds[0]) && acc * 10 + digit_value(ds[0]) <= max {
            lemma_read_digits_push(ds.drop_first(), c, acc * 10 + digit_value(ds[0]), max);
            assert(read_digits(ds, acc, max) == read_digits(ds.drop_first(), acc * 10 + digit_value(ds[0]), max));
            assert(read_digits(ds.push(c), acc, max) == read_digits(
                ds.push(c).drop_first(),
                acc * 10 + digit_value(ds[0]),
                max,
            ));
        }
    }
}

proof fn lemma_digit_char(d: nat)
    requires
        d < 10,
    ensures
        is_digit(crate::text::digit_char(d)),
        digit_value(crate::text::digit_char(d)) == d,
        crate::text::digit_char(d) != ',',
        !is_white_space(crate::text::digit_char(d)),
        crate::text::digit_char(d) != '+',
        crate::text::digit_char(d) != '-',
{
}

proof fn lemma_decimal_digits(n: nat)
    ensures
        decimal(n).len() > 0,
        forall|i: int| 0 <= i < decimal(n).len() ==> is_digit(#[trigger] decimal(n)[i]) && decimal(n)[i] != ','
            && !is_white_space(decimal(n)[i]) && decimal(n)[i] != '+' && decimal(n)[i] != '-',
    decreases n,
{
    if n < 10 {
        lemma_digit_char(n);
    } else {
        lemma_decimal_digits(n / 10);
        lemma_digit_char(n % 10);
        assert forall|i: int| 0 <= i < decimal(n).len() implies is_digit(#[trigger] decimal(n)[i])
            && decimal(n)[i] != ',' && !is_white_space(decimal(n)[i]) && decimal(n)[i] != '+' && decimal(n)[i] != '-' by {
            if i < decimal(n / 10).len() {
                assert(decimal(n)[i] == decimal(n / 10)[i]);
            }
        }
    }
}

proof fn lemma_read_decimal(n: nat, max: nat)
    requires
        n <= max,
    ensures
        read_digits(decimal(n), 0, max) == Ok::<nat, IntParseError>(n),
    decreases n,
{
    if n < 10 {
        lemma_digit_char(n);
        lemma_read_digits_push(Seq::empty(), crate::text::digit_char(n), 0, max);
        assert(Seq::<char>::empty().push(crate::text::digit_char(n)) =~= decimal(n));
    } else {
        lemma_read_decimal(n / 10, max);
        lemma_digit_char(n % 10);
        lemma_read_digits_push(decimal(n / 10), crate::text::digit_char(n % 10), 0, max);
        assert(decimal(n / 10).push(crate::text::digit_char(n % 10)) =~= decimal(n));
        assert((n / 10) * 10 + n % 10 == n);
    }
}

proof fn lemma_parse_decimal(n: usize)
    ensures
        parse_usize(trim(decimal(n as nat))) == Ok::<usize, IntParseError>(n),
{
    let d = decimal(n as nat);
    lemma_decimal_digits(n as nat);
    assert(trim_start(d) == d);
    assert(trim_end(d) == d);
    lemma_read_decimal(n as nat, usize::MAX as nat);
}

/// Joining puts the separator between the first element and the join of
/// the rest.
proof fn lemma_join_cons(a: Seq<char>, l: Seq<Seq<char>>, sep: Seq<char>)
    requires
        l.len() > 0,
    ensures
        join(seq![a] + l, sep) == a + sep + join(l, sep),
    decreases l.len(),
{
    let all = seq![a] + l;
    if l.len() == 1 {
        assert(all.drop_last() =~= seq![a]);
        assert(all.last() == l[0]);
        assert(join(seq![a], sep) == a);
    } else {
        lemma_join_cons(a, l.drop_last(), sep);
        assert(all.drop_last() =~= seq![a] + l.drop_last());
        assert(all.last() == l.last());
    }
}

/// An index path written as its positions in decimal separated by commas,
/// such as `0,1,2`, reads back as the same path.
pub proof fn law_index_round_trip(v: Seq<usize>)
    requires
        v.len() > 0,
    ensures
        parse_index_spec(join(decimals(v), ","@)) == Ok::<Seq<usize>, IntParseError>(v),
    decreases v.len(),
{
    reveal_strlit(",");
    let d = decimal(v[0] as nat);
    lemma_decimal_digits(v[0] as nat);
    lemma_parse_decimal(v[0]);
    if v.len() == 1 {
        assert(decimals(v) =~= seq![d]);
        assert(join(decimals(v), ","@) == d);
        assert forall|i: int| 0 <= i < d.len() implies #[trigger] d[i] != ',' by {}
        lemma_first_comma(d, d.len() as int);
        assert(d.take(d.len() as int) =~= d);
        assert(parse_usize(trim(d.take(first_comma(d)))) == Ok::<usize, IntParseError>(v[0]));
        assert(v =~= seq![v[0]]);
    } else {
        let rest = v.drop_first();
        let j = join(decimals(rest), ","@);
        assert(decimals(v) =~= seq![d] + decimals(rest));
        lemma_join_cons(d, decimals(rest), ","@);
        let s = d + ","@ + j;
        assert(join(decimals(v), ","@) == s);
        assert(s[d.len() as int] == ',');
        assert forall|i: int| 0 <= i < d.len() implies #[trigger] s[i] != ',' by {
            assert(s[i] == d[i]);
        }
        lemma_first_comma(s, d.len() as int);
        assert(s.take(d.len() as int) =~= d);
        assert(s.skip(d.len() + 1 as int) =~= j);
        law_index_round_trip(rest);
        assert(parse_usize(trim(s.take(first_comma(s)))) == Ok::<usize, IntParseError>(v[0]));
        assert(first_comma(s) < s.len());
        assert(seq![v[0]] + rest =~= v);
    }
}

/// Whether every character of `w` is white space.
pub open spec fn is_blank(w: Seq<char>) -> bool {
    forall|i: int| 0 <= i < w.len() ==> is_white_space(#[trigger] w[i])
}

proof fn lemma_trim_blank(w: Seq<char>)
    requires
        is_blank(w),
    ensures
        trim_start(w) == Seq::<char>::empty(),
        trim(w) == Seq::<char>::empty(),
    decreases w.len(),
{
    if w.len() > 0 {
        assert(is_white_space(w[0]));
        assert forall|i: int| 0 <= i < w.drop_first().len() implies is_white_space(#[trigger] w.drop_first()[i]) by {
            assert(w.drop_first()[i] == w[i + 1]);
        }
        lemma_trim_blank(w.drop_first());
    } else {
        assert(w =~= Seq::<char>::empty());
    }
}

proof fn lemma_first_comma_props(s: Seq<char>)
    ensures
        0 <= first_comma(s) <= s.len(),
        first_comma(s) < s.len() ==> s[first_comma(s)] == ',',
        forall|j: int| 0 <= j < first_comma(s) ==> #[trigger] s[j] != ',',
    decreases s.len(),
{
    if s.len() > 0 && s[0] != ',' {
        lemma_first_comma_props(s.drop_first());
        assert forall|j: int| 0 <= j < first_comma(s) implies #[trigger] s[j] != ',' by {
            if j > 0 {
                assert(s[j] == s.drop_first()[j - 1]);
            }
        }
    }
}

/// A text whose first piece is blank (only white space, or nothing) is
/// refused as empty.
proof fn lemma_blank_first_piece(w: Seq<char>, t: Seq<char>)
    requires
        is_blank(w),
        t.len() == 0 || t[0] == ',',
    ensures
        parse_index_spec(w + t) == Err::<Seq<usize>, IntParseError>(IntParseError::Empty),
{
    let s = w + t;
    assert forall|j: int| 0 <= j < w.len() implies #[trigger] s[j] != ',' by {
        assert(s[j] == w[j]);
        assert(is_white_space(w[j]));
    }
    lemma_first_comma(s, w.len() as int);
    assert(s.take(w.len() as int) =~= w);
    lemma_trim_blank(w);
}

/// A written index path with a blank piece is refused: the empty text, a
/// leading or trailing comma, and two commas with only white space between
/// them (such as `1,,2`) are never read as a path. In particular the root,
/// the empty path, cannot be written.
pub proof fn law_blank_piece_refused(a: Seq<char>, w: Seq<char>, t: Seq<char>)
    requires
        is_blank(w),
        t.len() == 0 || t[0] == ',',
    ensures
        parse_index_spec(w + t) is Err,
        parse_index_spec(a + ","@ + w + t) is Err,
    decreases a.len(),
{
    reveal_strlit(",");
    lemma_blank_first_piece(w, t);
    let s = a + ","@ + w + t;
    lemma_first_comma_props(a);
    let q = first_comma(a);
    if q < a.len() {
        assert forall|j: int| 0 <= j < q implies #[trigger] s[j] != ',' by {
            assert(s[j] == a[j]);
        }
        assert(s[q] == a[q]);
        lemma_first_comma(s, q);
        assert(s.take(q) =~= a.take(q));
        let rest = a.skip(q + 1);
        assert(s.skip(q + 1) =~= rest + ","@ + w + t);
        law_blank_piece_refused(rest, w, t);
    } else {
        assert forall|j: int| 0 <= j < a.len() implies #[trigger] s[j] != ',' by {
            assert(s[j] == a[j]);
        }
        assert(s[a.len() as int] == ',');
        lemma_first_comma(s, a.len() as int);
        assert(s.take(a.len() as int) =~= a);
        assert(s.skip(a.len() as int + 1) =~= w + t);
    }
}

} // verus!
