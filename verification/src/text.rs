use vstd::prelude::*;

verus! {

/// The ASCII digit for `d` (meaningful for `d < 10`).
pub open spec fn digit_char(d: nat) -> char {
    (48 + d) as char
}

/// Decimal digits of `n`, most significant first, no leading zeros.
pub open spec fn decimal(n: nat) -> Seq<char>
    decreases n,
{
    if n < 10 {
        seq![digit_char(n)]
    } else {
        decimal(n / 10).push(digit_char(n % 10))
    }
}

/// `n` copies of `c`.
pub open spec fn repeat_char(c: char, n: nat) -> Seq<char> {
    Seq::new(n, |i: int| c)
}

/// `s` right-aligned in a field of `width` characters, padded with spaces on the left.
pub open spec fn pad_left(s: Seq<char>, width: nat) -> Seq<char> {
    if s.len() < width {
        repeat_char(' ', (width - s.len()) as nat) + s
    } else {
        s
    }
}

/// Right-alignment keeps the text whole at the end, fills the rest of the field with
/// spaces, and never truncates: the result is `max(len, width)` long.
pub proof fn lemma_pad_left(s: Seq<char>, width: nat)
    ensures
        ({
            let r = pad_left(s, width);
            let pad = r.len() - s.len();
            &&& r.len() == if s.len() < width { width } else { s.len() }
            &&& r.subrange(pad, r.len() as int) == s
            &&& forall|i: int| 0 <= i < pad ==> #[trigger] r[i] == ' '
        }),
{
    let r = pad_left(s, width);
    let pad = r.len() - s.len();
    assert(r.subrange(pad, r.len() as int) =~= s);
}

/// Exactly two decimal digits of `n`, zero-padded (for `n < 100`).
pub open spec fn two_digits(n: nat) -> Seq<char> {
    seq![digit_char(n / 10), digit_char(n % 10)]
}

/// The number an ASCII digit stands for.
pub open spec fn digit_value(c: char) -> int {
    c as int - 48
}

/// The number written by a string of decimal digits (0 for the empty string).
pub open spec fn decimal_value(s: Seq<char>) -> int
    decreases s.len(),
{
    if s.len() == 0 {
        0
    } else {
        10 * decimal_value(s.drop_last()) + digit_value(s.last())
    }
}

/// A nonempty string of ASCII digits.
pub open spec fn is_digits(s: Seq<char>) -> bool {
    s.len() >= 1 && forall|i: int| 0 <= i < s.len() ==> '0' <= #[trigger] s[i] <= '9'
}

/// The decimal digits of `n` are a nonempty string of ASCII digits without a leading zero
/// (for `n > 0`) that reads back as `n`.
pub proof fn lemma_decimal_value(n: nat)
    ensures
        decimal_value(decimal(n)) == n,
        decimal(n).len() >= 1,
        is_digits(decimal(n)),
        n > 0 ==> decimal(n)[0] != '0',
    decreases n,
{
    reveal_with_fuel(decimal_value, 2);
    assert(digit_char(n % 10) as int == 48 + n % 10);
    assert(digit_value(digit_char(n % 10)) == n % 10);
    if n < 10 {
        assert(decimal(n).drop_last() =~= Seq::<char>::empty());
    } else {
        lemma_decimal_value(n / 10);
        assert(decimal(n).drop_last() =~= decimal(n / 10));
        assert(decimal(n)[0] == decimal(n / 10)[0]);
        assert forall|i: int| 0 <= i < decimal(n).len() implies '0' <= #[trigger] decimal(n)[i]
            <= '9' by {
            if i < decimal(n).len() - 1 {
                assert(decimal(n)[i] == decimal(n / 10)[i]);
            }
        }
    }
}

/// Reading back two zero-padded digits of `n < 100` gives `n`.
pub proof fn lemma_two_digits_value(n: nat)
    requires
        n < 100,
    ensures
        decimal_value(two_digits(n)) == n,
        two_digits(n).len() == 2,
        is_digits(two_digits(n)),
{
    assert(digit_char(n % 10) as int == 48 + n % 10);
    assert(digit_char(n / 10) as int == 48 + n / 10);
    reveal_with_fuel(decimal_value, 3);
    assert(digit_value(digit_char(n % 10)) == n % 10);
    assert(digit_value(digit_char(n / 10)) == n / 10);
    assert(two_digits(n).drop_last().drop_last() =~= Seq::<char>::empty());
    assert(two_digits(n).drop_last() =~= seq![digit_char(n / 10)]);
}

fn digit_str(d: u64) -> (s: &'static str)
    requires
        d < 10,
    ensures
        s@ == seq![digit_char(d as nat)],
{
    proof {
        reveal_strlit("0");
        reveal_strlit("1");
        reveal_strlit("2");
        reveal_strlit("3");
        reveal_strlit("4");
        reveal_strlit("5");
        reveal_strlit("6");
        reveal_strlit("7");
        reveal_strlit("8");
        reveal_strlit("9");
    }
    match d {
        0 => "0",
        1 => "1",
        2 => "2",
        3 => "3",
        4 => "4",
        5 => "5",
        6 => "6",
        7 => "7",
        8 => "8",
        _ => "9",
    }
}

/// Appends the decimal digits of `n` to `s`.
pub fn push_decimal(s: &mut String, n: u64)
    ensures
        final(s)@ == old(s)@ + decimal(n as nat),
    decreases n,
{
    if n >= 10 {
        push_decimal(s, n / 10);
    }
    s.append(digit_str(n % 10));
}

/// Appends `n` as exactly two digits, zero-padded.
pub fn push_two_digits(s: &mut String, n: u64)
    requires
        n < 100,
    ensures
        final(s)@ == old(s)@ + two_digits(n as nat),
{
    s.append(digit_str(n / 10));
    s.append(digit_str(n % 10));
}

/// Appends `n` copies of the one-character string `c`.
pub fn push_repeat(s: &mut String, c: &str, n: usize)
    requires
        c@.len() == 1,
    ensures
        final(s)@ == old(s)@ + repeat_char(c@[0], n as nat),
{
    let ghost start = s@;
    let mut i: usize = 0;
    while i < n
        invariant
            i <= n,
            c@.len() == 1,
            s@ == start + repeat_char(c@[0], i as nat),
        decreases n - i,
    {
        s.append(c);
        assert(start + repeat_char(c@[0], (i + 1) as nat) =~= start + repeat_char(c@[0], i as nat)
            + c@);
        i = i + 1;
    }
}

/// Appends the decimal digits of `n`, right-aligned in a field of `width` characters.
pub fn push_decimal_padded(s: &mut String, n: u64, width: usize)
    ensures
        final(s)@ == old(s)@ + pad_left(decimal(n as nat), width as nat),
{
    let mut digits = String::new();
    push_decimal(&mut digits, n);
    let len = digits.as_str().unicode_len();
    if len < width {
        proof {
            reveal_strlit(" ");
        }
        push_repeat(s, " ", width - len);
    }
    s.append(digits.as_str());
}

/// Whether two strings hold the same characters.
pub fn str_eq(a: &str, b: &str) -> (eq: bool)
    ensures
        eq == (a@ == b@),
{
    let n = a.unicode_len();
    if n != b.unicode_len() {
        return false;
    }
    let mut i: usize = 0;
    while i < n
        invariant
            n == a@.len(),
            n == b@.len(),
            i <= n,
            forall|k: int| 0 <= k < i ==> a@[k] == b@[k],
        decreases n - i,
    {
        if a.get_char(i) != b.get_char(i) {
            return false;
        }
        i = i + 1;
    }
    assert(a@ =~= b@);
    true
}

} // verus!
