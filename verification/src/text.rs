//! Text building: decimal numerals and plain concatenation, with their character models.
use vstd::prelude::*;
use vstd::string::*;

verus! {

/// The character of a decimal digit.
pub open spec fn digit_char(d: nat) -> char {
    if d == 0 { '0' }
    else if d == 1 { '1' }
    else if d == 2 { '2' }
    else if d == 3 { '3' }
    else if d == 4 { '4' }
    else if d == 5 { '5' }
    else if d == 6 { '6' }
    else if d == 7 { '7' }
    else if d == 8 { '8' }
    else { '9' }
}

/// The decimal numeral of a natural number, without leading zeros.
pub open spec fn decimal(n: nat) -> Seq<char>
    decreases n,
{
    if n < 10 {
        seq![digit_char(n)]
    } else {
        decimal(n / 10) + seq![digit_char(n % 10)]
    }
}

/// A decimal numeral is never empty.
pub proof fn lemma_decimal_nonempty(n: nat)
    ensures
        decimal(n).len() >= 1,
    decreases n,
{
    if n >= 10 {
        lemma_decimal_nonempty(n / 10);
    }
}

/// The one-character text of a digit.
pub fn digit_str(d: u64) -> (r: &'static str)
    requires
        d < 10,
    ensures
        r@ == seq![digit_char(d as nat)],
{
    if d == 0 {
        proof { reveal_strlit("0"); }
        "0"
    } else if d == 1 {
        proof { reveal_strlit("1"); }
        "1"
    } else if d == 2 {
        proof { reveal_strlit("2"); }
        "2"
    } else if d == 3 {
        proof { reveal_strlit("3"); }
        "3"
    } else if d == 4 {
        proof { reveal_strlit("4"); }
        "4"
    } else if d == 5 {
        proof { reveal_strlit("5"); }
        "5"
    } else if d == 6 {
        proof { reveal_strlit("6"); }
        "6"
    } else if d == 7 {
        proof { reveal_strlit("7"); }
        "7"
    } else if d == 8 {
        proof { reveal_strlit("8"); }
        "8"
    } else {
        proof { reveal_strlit("9"); }
        "9"
    }
}

/// Appends the decimal numeral of `n`.
pub fn push_decimal(s: &mut String, n: u64)
    ensures
        final(s)@ == old(s)@ + decimal(n as nat),
    decreases n,
{
    if n >= 10 {
        push_decimal(s, n / 10);
    }
    let d = n % 10;
    s.append(digit_str(d));
    proof {
        if n >= 10 {
            assert(old(s)@ + decimal((n / 10) as nat) + seq![digit_char(d as nat)] =~= old(s)@
                + decimal(n as nat));
        } else {
            assert(old(s)@ + seq![digit_char(d as nat)] =~= old(s)@ + decimal(n as nat));
        }
    }
}

/// Appends the decimal numeral of a 128-bit `n`.
pub fn push_decimal_wide(s: &mut String, n: u128)
    ensures
        final(s)@ == old(s)@ + decimal(n as nat),
    decreases n,
{
    if n >= 10 {
        push_decimal_wide(s, n / 10);
    }
    let d = (n % 10) as u64;
    s.append(digit_str(d));
    proof {
        if n >= 10 {
            assert(old(s)@ + decimal((n / 10) as nat) + seq![digit_char(d as nat)] =~= old(s)@
                + decimal(n as nat));
        } else {
            assert(old(s)@ + seq![digit_char(d as nat)] =~= old(s)@ + decimal(n as nat));
        }
    }
}

/// Appends a string slice.
pub fn push_str(s: &mut String, t: &str)
    ensures
        final(s)@ == old(s)@ + t@,
{
    s.append(t);
}

/// The decimal numeral of `n` as a new string.
pub fn decimal_string(n: u64) -> (r: String)
    ensures
        r@ == decimal(n as nat),
{
    let mut s = String::new();
    push_decimal(&mut s, n);
    assert(Seq::<char>::empty() + decimal(n as nat) =~= decimal(n as nat));
    s
}

/// A new string holding the characters of `t`.
pub fn to_string(t: &str) -> (r: String)
    ensures
        r@ == t@,
{
    let mut s = String::new();
    s.append(t);
    assert(Seq::<char>::empty() + t@ =~= t@);
    s
}

/// The last `width` decimal digits of `n`, with leading zeros.
pub open spec fn digits_fixed(n: nat, width: nat) -> Seq<char>
    decreases width,
{
    if width == 0 {
        Seq::empty()
    } else {
        digits_fixed(n / 10, (width - 1) as nat) + seq![digit_char(n % 10)]
    }
}

/// The text without its trailing `'0'` characters.
pub open spec fn trim_zeros(s: Seq<char>) -> Seq<char>
    decreases s.len(),
{
    if s.len() > 0 && s.last() == '0' {
        trim_zeros(s.drop_last())
    } else {
        s
    }
}

/// A number of seconds given as whole seconds and nanoseconds, written in decimal with
/// no trailing fractional zeros (`"2"`, `"0.015"`).
pub open spec fn seconds_text(secs: nat, nanos: nat) -> Seq<char> {
    if nanos == 0 {
        decimal(secs)
    } else {
        decimal(secs) + "."@ + trim_zeros(digits_fixed(nanos, 9))
    }
}

/// The digit characters of `n`, `width` of them, most significant first.
fn fixed_digits(n: u64, width: u64) -> (r: Vec<char>)
    ensures
        r@ == digits_fixed(n as nat, width as nat),
    decreases width,
{
    if width == 0 {
        Vec::new()
    } else {
        let mut v = fixed_digits(n / 10, width - 1);
        let d = n % 10;
        let c = if d == 0 { '0' } else if d == 1 { '1' } else if d == 2 { '2' } else if d == 3 {
            '3'
        } else if d == 4 { '4' } else if d == 5 { '5' } else if d == 6 { '6' } else if d == 7 {
            '7'
        } else if d == 8 { '8' } else { '9' };
        v.push(c);
        v
    }
}

/// The one-character text of a digit character.
fn digit_char_str(c: char) -> (r: &'static str)
    requires
        c == '0' || c == '1' || c == '2' || c == '3' || c == '4' || c == '5' || c == '6' || c == '7'
            || c == '8' || c == '9',
    ensures
        r@ == seq![c],
{
    if c == '0' {
        digit_str(0)
    } else if c == '1' {
        digit_str(1)
    } else if c == '2' {
        digit_str(2)
    } else if c == '3' {
        digit_str(3)
    } else if c == '4' {
        digit_str(4)
    } else if c == '5' {
        digit_str(5)
    } else if c == '6' {
        digit_str(6)
    } else if c == '7' {
        digit_str(7)
    } else if c == '8' {
        digit_str(8)
    } else {
        digit_str(9)
    }
}

proof fn lemma_digits_fixed_are_digits(n: nat, width: nat)
    ensures
        forall|i: int| 0 <= i < digits_fixed(n, width).len() ==> {
            let c = #[trigger] digits_fixed(n, width)[i];
            c == '0' || c == '1' || c == '2' || c == '3' || c == '4' || c == '5' || c == '6' || c
                == '7' || c == '8' || c == '9'
        },
        digits_fixed(n, width).len() == width,
    decreases width,
{
    if width > 0 {
        lemma_digits_fixed_are_digits(n / 10, (width - 1) as nat);
        let a = digits_fixed(n / 10, (width - 1) as nat);
        assert forall|i: int| 0 <= i < digits_fixed(n, width).len() implies {
            let c = #[trigger] digits_fixed(n, width)[i];
            c == '0' || c == '1' || c == '2' || c == '3' || c == '4' || c == '5' || c == '6' || c
                == '7' || c == '8' || c == '9'
        } by {
            if i < a.len() {
                assert(digits_fixed(n, width)[i] == a[i]);
            }
        }
    }
}

proof fn lemma_trim_is_prefix(s: Seq<char>)
    ensures
        trim_zeros(s).len() <= s.len(),
        trim_zeros(s) == s.take(trim_zeros(s).len() as int),
    decreases s.len(),
{
    if s.len() > 0 && s.last() == '0' {
        lemma_trim_is_prefix(s.drop_last());
        assert(trim_zeros(s) =~= s.take(trim_zeros(s).len() as int));
    } else {
        assert(s.take(s.len() as int) =~= s);
    }
}

/// Appends a number of seconds (whole seconds and nanoseconds below one second) in
/// decimal, without trailing fractional zeros.
pub fn push_seconds(s: &mut String, secs: u64, nanos: u32)
    requires
        nanos < 1_000_000_000,
    ensures
        final(s)@ == old(s)@ + seconds_text(secs as nat, nanos as nat),
{
    push_decimal(s, secs);
    if nanos != 0 {
        s.append(".");
        let mut digits = fixed_digits(nanos as u64, 9);
        proof {
            lemma_digits_fixed_are_digits(nanos as nat, 9);
        }
        let ghost full = digits@;
        while digits.len() > 0 && digits[digits.len() - 1] == '0'
            invariant
                trim_zeros(full) == trim_zeros(digits@),
                digits@ == full.take(digits@.len() as int),
                digits@.len() <= full.len(),
                full == digits_fixed(nanos as nat, 9),
            decreases digits@.len(),
        {
            let ghost d0 = digits@;
            digits.pop();
            proof {
                assert(digits@ == d0.drop_last());
                assert(digits@ =~= full.take(digits@.len() as int));
            }
        }
        let ghost before = s@;
        let mut i: usize = 0;
        while i < digits.len()
            invariant
                0 <= i <= digits@.len(),
                digits@ == full.take(digits@.len() as int),
                digits@.len() <= full.len(),
                full == digits_fixed(nanos as nat, 9),
                forall|j: int| 0 <= j < full.len() ==> {
                    let c = #[trigger] full[j];
                    c == '0' || c == '1' || c == '2' || c == '3' || c == '4' || c == '5' || c
                        == '6' || c == '7' || c == '8' || c == '9'
                },
                s@ == before + digits@.take(i as int),
            decreases digits@.len() - i,
        {
            assert(digits@[i as int] == full[i as int]);
            s.append(digit_char_str(digits[i]));
            proof {
                assert(digits@.take(i + 1) =~= digits@.take(i as int).push(digits@[i as int]));
            }
            i = i + 1;
        }
        proof {
            assert(digits@.take(digits@.len() as int) =~= digits@);
            assert(digits@ == trim_zeros(digits@));
        }
    }
}

/// The views of a list of string slices.
pub open spec fn views(parts: Seq<&str>) -> Seq<Seq<char>> {
    parts.map_values(|p: &str| p@)
}

/// The parts, in order, with `sep` between each two neighbours.
pub open spec fn joined(parts: Seq<Seq<char>>, sep: Seq<char>) -> Seq<char>
    decreases parts.len(),
{
    if parts.len() == 0 {
        Seq::empty()
    } else if parts.len() == 1 {
        parts[0]
    } else {
        joined(parts.drop_last(), sep) + sep + parts.last()
    }
}

/// Joins string slices with a separator.
pub fn join_strs(parts: &Vec<&str>, sep: &str) -> (r: String)
    ensures
        r@ == joined(views(parts@), sep@),
{
    let mut out = String::new();
    let ghost all = views(parts@);
    let mut i: usize = 0;
    while i < parts.len()
        invariant
            0 <= i <= parts.len(),
            all == views(parts@),
            out@ == joined(all.take(i as int), sep@),
        decreases parts.len() - i,
    {
        if i == 0 {
            out.append(parts[i]);
            proof {
                assert(all.take(1) =~= seq![parts@[0]@]);
                assert(Seq::<char>::empty() + parts@[0]@ =~= parts@[0]@);
            }
        } else {
            out.append(sep);
            out.append(parts[i]);
            proof {
                assert(all.take(i + 1).drop_last() =~= all.take(i as int));
                assert(all.take(i + 1).last() == parts@[i as int]@);
            }
        }
        i = i + 1;
    }
    proof {
        assert(all.take(parts.len() as int) =~= all);
    }
    out
}

/// Values that can be turned into an owned string, with the characters they stand for.
pub trait IntoText {
    /// The characters the value stands for.
    spec fn text(&self) -> Seq<char>;

    /// The value as an owned string.
    fn into_text(self) -> (r: String)
        ensures
            r@ == self.text(),
    ;
}

impl<'a> IntoText for &'a str {
    open spec fn text(&self) -> Seq<char> {
        (*self)@
    }

    fn into_text(self) -> (r: String) {
        to_string(self)
    }
}

impl IntoText for String {
    open spec fn text(&self) -> Seq<char> {
        (*self)@
    }

    fn into_text(self) -> (r: String) {
        self
    }
}

} // verus!
