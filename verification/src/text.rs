//! Text for the renderer: HTML escaping, numbers in decimal and in percent,
//! and fixed text with values filled in.

use vstd::prelude::*;
use vstd::string::StringExecFns;

verus! {

/// `String::push` of the standard library appends the given character to
/// the end of the string: the text afterwards is the text before, followed
/// by that character. This is taken on trust from its documentation.
pub assume_specification[ String::push ](s: &mut String, c: char)
    ensures
        final(s)@ == old(s)@.push(c),
;

/// The text that stands for `c` inside HTML.
pub open spec fn escaped_char(c: char) -> Seq<char> {
    if c == '&' {
        "&amp;"@
    } else if c == '<' {
        "&lt;"@
    } else if c == '>' {
        "&gt;"@
    } else if c == '"' {
        "&quot;"@
    } else if c == '\'' {
        "&#39;"@
    } else {
        seq![c]
    }
}

/// The escaped form of a whole text: each character replaced in turn.
pub open spec fn escaped(s: Seq<char>) -> Seq<char>
    decreases s.len(),
{
    if s.len() == 0 {
        Seq::empty()
    } else {
        escaped(s.drop_last()) + escaped_char(s.last())
    }
}

/// Escapes the characters that have a meaning in HTML.
pub fn escape_html(s: &str) -> (out: String)
    ensures
        out@ == escaped(s@),
{
    let mut out = String::new();
    for c in iter: s.chars()
        invariant
            iter.seq() == s@,
            out@ == escaped(s@.take(iter.index() as int)),
    {
        proof {
            assert(s@.take(iter.index() + 1).drop_last() =~= s@.take(iter.index() as int));
        }
        if c == '&' {
            out.append("&amp;");
        } else if c == '<' {
            out.append("&lt;");
        } else if c == '>' {
            out.append("&gt;");
        } else if c == '"' {
            out.append("&quot;");
        } else if c == '\'' {
            out.append("&#39;");
        } else {
            out.push(c);
        }
    }
    proof {
        assert(s@.take(s@.len() as int) =~= s@);
    }
    out
}

/// Appends the escaped form of `s`.
pub fn push_escaped(out: &mut String, s: &str)
    ensures
        final(out)@ == old(out)@ + escaped(s@),
{
    let e = escape_html(s);
    out.append(e.as_str());
}

/// The character of the digit `d`, for `d` from 0 to 9.
pub open spec fn digit_char(d: int) -> char {
    (48 + d) as char
}

/// A number in decimal, without leading zeros.
pub open spec fn digits(n: nat) -> Seq<char>
    decreases n,
{
    if n < 10 {
        seq![digit_char(n as int)]
    } else {
        digits(n / 10).push(digit_char((n % 10) as int))
    }
}

/// The last `places` digits of a number in decimal, with zeros in front
/// where the number is shorter.
pub open spec fn padded(n: nat, places: nat) -> Seq<char>
    decreases places,
{
    if places == 0 {
        Seq::empty()
    } else {
        padded(n / 10, (places - 1) as nat).push(digit_char((n % 10) as int))
    }
}

/// The first `k` characters of a run of digits, with a comma before every
/// digit from which a number of digits divisible by three follows to the end.
pub open spec fn grouped(s: Seq<char>, k: int) -> Seq<char>
    decreases k,
{
    if k <= 0 {
        Seq::empty()
    } else {
        let i = k - 1;
        let head = grouped(s, i);
        if i > 0 && (s.len() - i) % 3 == 0 {
            head.push(',').push(s[i])
        } else {
            head.push(s[i])
        }
    }
}

/// A number in decimal with commas between groups of three digits.
pub open spec fn with_commas(n: nat) -> Seq<char> {
    grouped(digits(n), digits(n).len() as int)
}

/// Ten to the power `p`.
pub open spec fn pow10(p: nat) -> nat
    decreases p,
{
    if p == 0 {
        1
    } else {
        10 * pow10((p - 1) as nat)
    }
}

/// `part` as a percentage of `whole`, in units of one `scale`-th of a
/// percent, rounded to the nearest unit and up from the middle.
pub open spec fn percent_units(part: nat, whole: nat, scale: nat) -> nat {
    (2 * part * 100 * scale + whole) / (2 * whole)
}

/// `part` as a percentage of `whole`, written with `places` digits after
/// the point.
pub open spec fn percent_text(part: nat, whole: nat, places: nat) -> Seq<char> {
    let scale = pow10(places);
    let units = percent_units(part, whole, scale);
    digits(units / scale) + seq!['.'] + padded(units % scale, places)
}

/// Appends `n` in decimal.
pub fn push_decimal(out: &mut String, n: u128)
    ensures
        final(out)@ == old(out)@ + digits(n as nat),
    decreases n,
{
    let ghost before = out@;
    if n >= 10 {
        push_decimal(out, n / 10);
    }
    let d = (n % 10) as u8;
    out.push((48u8 + d) as char);
    proof {
        if n >= 10 {
            assert(out@ =~= before + digits(n as nat));
        } else {
            assert(out@ =~= before + digits(n as nat));
        }
    }
}

/// Appends the last `places` digits of `n`, with zeros in front where `n`
/// is shorter.
pub fn push_padded(out: &mut String, n: u128, places: u32)
    ensures
        final(out)@ == old(out)@ + padded(n as nat, places as nat),
    decreases places,
{
    let ghost before = out@;
    if places > 0 {
        push_padded(out, n / 10, places - 1);
        let d = (n % 10) as u8;
        out.push((48u8 + d) as char);
    }
    proof {
        assert(out@ =~= before + padded(n as nat, places as nat));
    }
}

/// A number in decimal.
pub fn decimal(n: u128) -> (out: String)
    ensures
        out@ == digits(n as nat),
{
    let mut out = String::new();
    push_decimal(&mut out, n);
    assert(out@ =~= digits(n as nat));
    out
}

/// A sample count for display: decimal, with commas between groups of three
/// digits.
pub fn format_samples(n: u64) -> (out: String)
    ensures
        out@ == with_commas(n as nat),
{
    let plain = decimal(n as u128);
    let s = crate::stacks::to_chars(plain.as_str());
    let mut out = String::new();
    let mut i: usize = 0;
    while i < s.len()
        invariant
            i <= s.len(),
            out@ == grouped(s@, i as int),
        decreases s.len() - i,
    {
        if i > 0 && (s.len() - i) % 3 == 0 {
            out.push(',');
        }
        out.push(s[i]);
        i += 1;
    }
    out
}

/// Ten to the power `p`, for `p` up to 6.
pub fn ten_to(p: u32) -> (r: u128)
    requires
        p <= 6,
    ensures
        r == pow10(p as nat),
        1 <= r <= 1_000_000,
{
    let mut r: u128 = 1;
    let mut i: u32 = 0;
    while i < p
        invariant
            i <= p <= 6,
            r == pow10(i as nat),
            1 <= r,
            i == 0 ==> r == 1,
            i == 1 ==> r == 10,
            i == 2 ==> r == 100,
            i == 3 ==> r == 1_000,
            i == 4 ==> r == 10_000,
            i == 5 ==> r == 100_000,
            i == 6 ==> r == 1_000_000,
        decreases p - i,
    {
        r = r * 10;
        i += 1;
    }
    r
}

/// Appends `part` as a percentage of `whole`, with `places` digits after the
/// point.
pub fn push_percent(out: &mut String, part: u64, whole: u64, places: u32)
    requires
        whole > 0,
        places <= 6,
    ensures
        final(out)@ == old(out)@ + percent_text(part as nat, whole as nat, places as nat),
{
    let ghost before = out@;
    let scale = ten_to(places);
    assert(2 * (part as int) * 100 * (scale as int) + whole <= 0x1_0000_0000_0000_0000
        * 200_000_001) by (nonlinear_arith)
        requires
            0 <= part < 0x1_0000_0000_0000_0000,
            0 < whole < 0x1_0000_0000_0000_0000,
            1 <= scale <= 1_000_000,
    ;
    let double: u128 = 2 * (part as u128) * 100 * scale;
    let units: u128 = (double + whole as u128) / (2 * (whole as u128));
    push_decimal(out, units / scale);
    out.push('.');
    push_padded(out, units % scale, places);
    proof {
        let text = percent_text(part as nat, whole as nat, places as nat);
        assert(out@ =~= before + text);
    }
}

/// What a list of texts stands for.
pub open spec fn texts(list: Seq<String>) -> Seq<Seq<char>> {
    Seq::new(list.len(), |i: int| list[i]@)
}

/// What a list of fixed texts stands for.
pub open spec fn fixed_texts(list: Seq<&'static str>) -> Seq<Seq<char>> {
    Seq::new(list.len(), |i: int| list[i]@)
}

/// A text in pieces with the first `k` values filled in between them: piece
/// 0, value 0, piece 1, and so on up to piece `k`.
pub open spec fn filled(pieces: Seq<Seq<char>>, values: Seq<Seq<char>>, k: int) -> Seq<char>
    decreases k,
{
    if k <= 0 {
        pieces[0]
    } else {
        filled(pieces, values, k - 1) + values[k - 1] + pieces[k]
    }
}

/// Appends the pieces with the values filled in between them.
pub fn push_filled(out: &mut String, pieces: &Vec<&'static str>, values: &Vec<String>)
    requires
        pieces@.len() == values@.len() + 1,
    ensures
        final(out)@ == old(out)@ + filled(
            fixed_texts(pieces@),
            texts(values@),
            values@.len() as int,
        ),
{
    let ghost before = out@;
    let ghost p = fixed_texts(pieces@);
    let ghost v = texts(values@);
    out.append(pieces[0]);
    let mut k: usize = 0;
    while k < values.len()
        invariant
            k <= values@.len(),
            pieces@.len() == values@.len() + 1,
            p == fixed_texts(pieces@),
            v == texts(values@),
            out@ == before + filled(p, v, k as int),
        decreases values@.len() - k,
    {
        let ghost so_far = filled(p, v, k as int);
        out.append(values[k].as_str());
        out.append(pieces[k + 1]);
        proof {
            assert(out@ =~= before + (so_far + v[k as int] + p[k + 1]));
        }
        k += 1;
    }
}

/// `part` as a percentage of `whole`, with `places` digits after the point.
pub fn percent(part: u64, whole: u64, places: u32) -> (out: String)
    requires
        whole > 0,
        places <= 6,
    ensures
        out@ == percent_text(part as nat, whole as nat, places as nat),
{
    let mut out = String::new();
    push_percent(&mut out, part, whole, places);
    assert(out@ =~= percent_text(part as nat, whole as nat, places as nat));
    out
}

} // verus!
