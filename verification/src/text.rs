//! Text building blocks with exact specifications: decimal rendering of
//! integers, `Debug`-style rendering of index paths, and joining.

use vstd::prelude::*;

verus! {

/// The character of a decimal digit.
pub open spec fn digit_char(d: nat) -> char {
    (d + 48) as char
}

/// Decimal rendering of a natural number, as `Display` writes it.
pub open spec fn decimal(n: nat) -> Seq<char>
    decreases n,
{
    if n < 10 {
        seq![digit_char(n)]
    } else {
        decimal(n / 10) + seq![digit_char(n % 10)]
    }
}

/// The elements of `list` separated by `sep`.
pub open spec fn join(list: Seq<Seq<char>>, sep: Seq<char>) -> Seq<char>
    decreases list.len(),
{
    if list.len() == 0 {
        Seq::empty()
    } else if list.len() == 1 {
        list[0]
    } else {
        join(list.drop_last(), sep) + sep + list.last()
    }
}

/// The decimal renderings of the entries of an index path.
pub open spec fn decimals(s: Seq<usize>) -> Seq<Seq<char>> {
    s.map_values(|x: usize| decimal(x as nat))
}

/// `Debug` rendering of a list of integers, such as `[0, 1, 2]`.
pub open spec fn debug_list(s: Seq<usize>) -> Seq<char> {
    "["@ + join(decimals(s), ", "@) + "]"@
}

/// An index path written with dots, such as `0.1.2`.
pub open spec fn dotted(s: Seq<usize>) -> Seq<char> {
    join(decimals(s), "."@)
}

/// Whether `s` contains `p` as a contiguous part.
pub open spec fn contains_text(s: Seq<char>, p: Seq<char>) -> bool {
    exists|i: int| 0 <= i <= s.len() - p.len() && #[trigger] s.subrange(i, i + p.len()) == p
}

/// `Display` rendering of a boolean.
pub open spec fn bool_text(b: bool) -> Seq<char> {
    if b {
        "true"@
    } else {
        "false"@
    }
}

/// `Debug` rendering of an optional byte, such as `Some(7)` or `None`.
pub open spec fn debug_opt_u8(o: Option<u8>) -> Seq<char> {
    match o {
        Some(v) => "Some("@ + decimal(v as nat) + ")"@,
        None => "None"@,
    }
}

fn digit_str(d: usize) -> (r: &'static str)
    requires
        d < 10,
    ensures
        r@ == seq![digit_char(d as nat)],
{
    if d == 0 {
        proof { reveal_strlit("0"); }
        "0"
    } else if d == 1 {
        proof { reveal_strlit("1"); }
        "1"
    } else if d == 2 {
        proof { reveal_strlit("2"); }
        "2"
    } else if d == 3 {
        proof { reveal_strlit("3"); }
        "3"
    } else if d == 4 {
        proof { reveal_strlit("4"); }
        "4"
    } else if d == 5 {
        proof { reveal_strlit("5"); }
        "5"
    } else if d == 6 {
        proof { reveal_strlit("6"); }
        "6"
    } else if d == 7 {
        proof { reveal_strlit("7"); }
        "7"
    } else if d == 8 {
        proof { reveal_strlit("8"); }
        "8"
    } else {
        proof { reveal_strlit("9"); }
        "9"
    }
}

/// Appends the decimal rendering of `n` to `out`.
pub fn push_decimal(out: &mut String, n: usize)
    ensures
        final(out)@ == old(out)@ + decimal(n as nat),
    decreases n,
{
    if n < 10 {
        out.append(digit_str(n));
    } else {
        push_decimal(out, n / 10);
        out.append(digit_str(n % 10));
        assert(decimal(n as nat) == decimal((n / 10) as nat) + seq![digit_char((n % 10) as nat)]);
    }
}

/// The decimal rendering of `n`.
pub fn decimal_string(n: usize) -> (s: String)
    ensures
        s@ == decimal(n as nat),
{
    let mut s = String::new();
    push_decimal(&mut s, n);
    s
}

/// Joining one more element adds the separator and the element.
pub proof fn lemma_join_push(list: Seq<Seq<char>>, sep: Seq<char>, x: Seq<char>)
    ensures
        join(list.push(x), sep) == if list.len() == 0 {
            x
        } else {
            join(list, sep) + sep + x
        },
{
    assert(list.push(x).drop_last() =~= list);
}

/// Appends the entries of `s` in decimal, separated by `sep`.
pub fn push_joined_decimals(out: &mut String, s: &[usize], sep: &str)
    ensures
        final(out)@ == old(out)@ + join(decimals(s@), sep@),
{
    let ghost start = out@;
    let mut i: usize = 0;
    while i < s.len()
        invariant
            i <= s.len(),
            out@ == start + join(decimals(s@.take(i as int)), sep@),
        decreases s.len() - i,
    {
        proof {
            assert(decimals(s@.take(i + 1)) =~= decimals(s@.take(i as int)).push(decimal(s@[i as int] as nat)));
            lemma_join_push(decimals(s@.take(i as int)), sep@, decimal(s@[i as int] as nat));
        }
        if i > 0 {
            out.append(sep);
        }
        push_decimal(out, s[i]);
        i = i + 1;
    }
    assert(s@.take(s.len() as int) =~= s@);
}

/// Appends the `Debug` rendering of an index path.
pub fn push_debug_list(out: &mut String, s: &[usize])
    ensures
        final(out)@ == old(out)@ + debug_list(s@),
{
    out.append("[");
    push_joined_decimals(out, s, ", ");
    out.append("]");
}

/// The `Debug` rendering of an index path.
pub fn debug_list_string(s: &[usize]) -> (r: String)
    ensures
        r@ == debug_list(s@),
{
    let mut r = String::new();
    push_debug_list(&mut r, s);
    r
}

/// Appends the `Display` rendering of a boolean.
pub fn push_bool(out: &mut String, b: bool)
    ensures
        final(out)@ == old(out)@ + bool_text(b),
{
    if b {
        out.append("true");
    } else {
        out.append("false");
    }
}

/// Appends the `Debug` rendering of an optional byte.
pub fn push_debug_opt_u8(out: &mut String, o: Option<u8>)
    ensures
        final(out)@ == old(out)@ + debug_opt_u8(o),
{
    match o {
        Some(v) => {
            out.append("Some(");
            push_decimal(out, v as usize);
            out.append(")");
        },
        None => {
            out.append("None");
        },
    }
}

} // verus!
