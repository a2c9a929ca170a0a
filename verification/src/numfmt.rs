//! Rendering integers as text (`{}`, `{:02X}`, `{:+5}`) and reading them back
//! (`u32::from_str_radix`).
use vstd::prelude::*;

verus! {

/// The digit that stands for `d` in bases up to 16: `0`-`9`, then upper-case
/// `A`-`F`.
pub open spec fn digit_char(d: nat) -> char {
    if d < 10 {
        (48 + d) as char
    } else {
        (55 + d) as char
    }
}

/// `n` in decimal, without leading zeros (`{}`).
pub open spec fn decimal(n: nat) -> Seq<char>
    decreases n,
{
    if n < 10 {
        seq![digit_char(n)]
    } else {
        decimal(n / 10).push(digit_char(n % 10))
    }
}

/// `n` in upper-case hexadecimal, without leading zeros (`{:X}`).
pub open spec fn hex_upper(n: nat) -> Seq<char>
    decreases n,
{
    if n < 16 {
        seq![digit_char(n)]
    } else {
        hex_upper(n / 16).push(digit_char(n % 16))
    }
}

/// `n` in upper-case hexadecimal, padded with zeros to two digits (`{:02X}`).
pub open spec fn hex_upper_2(n: nat) -> Seq<char> {
    if n < 16 {
        seq!['0', digit_char(n)]
    } else {
        hex_upper(n)
    }
}

/// `count` spaces.
pub open spec fn spaces(count: nat) -> Seq<char> {
    Seq::new(count, |i: int| ' ')
}

/// `s` right-aligned in a field of `width` characters, padded with spaces.
pub open spec fn pad_left(s: Seq<char>, width: nat) -> Seq<char> {
    if s.len() < width {
        spaces((width - s.len()) as nat) + s
    } else {
        s
    }
}

/// The absolute value of `v`.
pub open spec fn abs(v: int) -> nat {
    if v < 0 {
        (-v) as nat
    } else {
        v as nat
    }
}

/// `v` with its sign always written, right-aligned in `width` characters
/// (`{:+5}` for a width of 5).
pub open spec fn signed_padded(v: int, width: nat) -> Seq<char> {
    pad_left(seq![if v < 0 { '-' } else { '+' }] + decimal(abs(v)), width)
}

/// The value of the digit `c` in `radix`, as `char::to_digit` gives it.
pub open spec fn char_digit(c: char, radix: nat) -> Option<nat> {
    let x = c as int;
    let d: int = if 48 <= x <= 57 {
        x - 48
    } else if 97 <= x <= 122 {
        x - 87
    } else if 65 <= x <= 90 {
        x - 55
    } else {
        radix as int
    };
    if d < radix {
        Some(d as nat)
    } else {
        None
    }
}

/// Whether every character of `s` is a digit in `radix`.
pub open spec fn all_digits(s: Seq<char>, radix: nat) -> bool {
    forall|i: int| 0 <= i < s.len() ==> (#[trigger] char_digit(s[i], radix)) is Some
}

/// The number that the digits `s` spell in `radix`.
pub open spec fn digits_value(s: Seq<char>, radix: nat) -> nat
    decreases s.len(),
{
    if s.len() == 0 {
        0
    } else {
        digits_value(s.drop_last(), radix) * radix + char_digit(s.last(), radix)->0
    }
}

/// What `u32::from_str_radix(s, radix)` returns, with every error as `None`:
/// an optional `+`, then at least one digit, and a value that fits in `u32`.
pub open spec fn parse_u32(s: Seq<char>, radix: nat) -> Option<u32> {
    let ds = if s.len() > 0 && s[0] == '+' {
        s.drop_first()
    } else {
        s
    };
    if ds.len() > 0 && all_digits(ds, radix) && digits_value(ds, radix) <= u32::MAX {
        Some(digits_value(ds, radix) as u32)
    } else {
        None
    }
}

/// The digit character for `d`.
pub fn digit_char_of(d: u32) -> (c: char)
    requires
        d < 16,
    ensures
        c == digit_char(d as nat),
{
    if d < 10 {
        ((48 + d) as u8) as char
    } else {
        ((55 + d) as u8) as char
    }
}

/// Appends `n` in decimal to `out`.
pub fn push_decimal(out: &mut Vec<char>, n: u64)
    ensures
        final(out)@ == old(out)@ + decimal(n as nat),
    decreases n,
{
    if n >= 10 {
        push_decimal(out, n / 10);
    }
    out.push(digit_char_of((n % 10) as u32));
}

/// Appends `n` in upper-case hexadecimal to `out`.
pub fn push_hex(out: &mut Vec<char>, n: u32)
    ensures
        final(out)@ == old(out)@ + hex_upper(n as nat),
    decreases n,
{
    if n >= 16 {
        push_hex(out, n / 16);
    }
    out.push(digit_char_of(n % 16));
}

/// Appends `n` as `{:02X}` writes it.
pub fn push_hex_2(out: &mut Vec<char>, n: u32)
    ensures
        final(out)@ == old(out)@ + hex_upper_2(n as nat),
{
    if n < 16 {
        out.push('0');
        out.push(digit_char_of(n));
        assert(out@ == old(out)@ + hex_upper_2(n as nat));
    } else {
        push_hex(out, n);
    }
}

/// Appends `v` as `{:+width$}` writes it.
pub fn push_signed_padded(out: &mut Vec<char>, v: i32, width: usize)
    ensures
        final(out)@ == old(out)@ + signed_padded(v as int, width as nat),
{
    let mut body: Vec<char> = Vec::new();
    let magnitude: u64 = if v < 0 {
        (0i64 - (v as i64)) as u64
    } else {
        v as u64
    };
    body.push(if v < 0 { '-' } else { '+' });
    push_decimal(&mut body, magnitude);
    let ghost start = out@;
    let mut k: usize = body.len();
    while k < width
        invariant
            body@.len() <= k <= width || k == body@.len(),
            out@ == start + spaces((k - body@.len()) as nat),
        decreases width - k,
    {
        out.push(' ');
        assert(out@ == start + spaces((k + 1 - body@.len()) as nat));
        k = k + 1;
    }
    let mut i: usize = 0;
    let ghost padded = out@;
    while i < body.len()
        invariant
            i <= body@.len(),
            out@ == padded + body@.take(i as int),
        decreases body@.len() - i,
    {
        out.push(body[i]);
        assert(body@.take(i + 1) == body@.take(i as int).push(body@[i as int]));
        i = i + 1;
    }
    assert(body@.take(body@.len() as int) == body@);
    if body.len() >= width {
        assert(spaces(0) == Seq::<char>::empty());
    }
}

pub fn char_digit_of(c: char, radix: u32) -> (d: Option<u32>)
    requires
        2 <= radix <= 36,
    ensures
        d == (match char_digit(c, radix as nat) {
            Some(v) => Some(v as u32),
            None => None::<u32>,
        }),
{
    let x = c as u32;
    let v: u32 = if 48 <= x && x <= 57 {
        x - 48
    } else if 97 <= x && x <= 122 {
        x - 87
    } else if 65 <= x && x <= 90 {
        x - 55
    } else {
        radix
    };
    if v < radix {
        Some(v)
    } else {
        None
    }
}

proof fn lemma_digits_value_prefix(s: Seq<char>, radix: nat, i: int)
    requires
        0 <= i <= s.len(),
        radix >= 1,
    ensures
        digits_value(s.take(i), radix) <= digits_value(s, radix),
    decreases s.len() - i,
{
    if i < s.len() {
        lemma_digits_value_prefix(s, radix, i + 1);
        let t = s.take(i + 1);
        assert(t.drop_last() == s.take(i));
        let a = digits_value(s.take(i), radix);
        assert(a <= a * radix) by (nonlinear_arith)
            requires
                radix >= 1,
        ;
    } else {
        assert(s.take(i) == s);
    }
}

/// `u32::from_str_radix(s, radix).ok()`.
pub fn parse_u32_radix(s: &Vec<char>, radix: u32) -> (r: Option<u32>)
    requires
        2 <= radix <= 36,
    ensures
        r == parse_u32(s@, radix as nat),
{
    let n = s.len();
    let mut i: usize = 0;
    if n > 0 && s[0] == '+' {
        i = 1;
    }
    let start = i;
    let ghost ds = s@.subrange(start as int, n as int);
    assert(ds == (if s@.len() > 0 && s@[0] == '+' {
        s@.drop_first()
    } else {
        s@
    }));
    if start == n {
        return None;
    }
    let mut acc: u32 = 0;
    while i < n
        invariant
            start <= i <= n == s@.len(),
            ds == s@.subrange(start as int, n as int),
            ds == (if s@.len() > 0 && s@[0] == '+' {
                s@.drop_first()
            } else {
                s@
            }),
            all_digits(ds.take(i - start), radix as nat),
            acc as nat == digits_value(ds.take(i - start), radix as nat),
            2 <= radix <= 36,
        decreases n - i,
    {
        let d = char_digit_of(s[i], radix);
        let ghost pre = ds.take(i - start);
        let ghost next = ds.take(i + 1 - start);
        assert(next.drop_last() == pre);
        assert(next.last() == s@[i as int]);
        match d {
            None => {
                assert(!all_digits(ds, radix as nat)) by {
                    assert(ds[i - start] == s@[i as int]);
                }
                return None;
            },
            Some(dv) => {
                let limit = (u32::MAX - dv) / radix;
                if acc > limit {
                    proof {
                        assert(acc * radix + dv > u32::MAX) by (nonlinear_arith)
                            requires
                                acc > limit,
                                limit as int == (u32::MAX - dv) as int / radix as int,
                                radix >= 2,
                                dv <= u32::MAX,
                        ;
                        lemma_digits_value_prefix(ds, radix as nat, i + 1 - start);
                    }
                    return None;
                }
                proof {
                    assert(acc * radix + dv <= u32::MAX) by (nonlinear_arith)
                        requires
                            acc <= limit,
                            limit as int == (u32::MAX - dv) as int / radix as int,
                            radix >= 2,
                            dv <= u32::MAX,
                    ;
                    assert forall|j: int| 0 <= j < next.len() implies (#[trigger] char_digit(
                        next[j],
                        radix as nat,
                    )) is Some by {
                        if j < pre.len() {
                            assert(next[j] == pre[j]);
                        }
                    }
                }
                acc = acc * radix + dv;
            },
        }
        i = i + 1;
    }
    assert(ds.take(n - start) == ds);
    Some(acc)
}

proof fn lemma_digit_char(d: nat, radix: nat)
    requires
        d < radix <= 16,
    ensures
        char_digit(digit_char(d), radix) == Some(d),
        48 <= digit_char(d) as int <= 70,
{
}

/// The digits of `hex_upper(n)` are hexadecimal digits that spell `n`.
pub proof fn lemma_hex_upper(n: nat)
    ensures
        hex_upper(n).len() > 0,
        all_digits(hex_upper(n), 16),
        digits_value(hex_upper(n), 16) == n,
        forall|i: int| 0 <= i < hex_upper(n).len() ==> 48 <= #[trigger] hex_upper(n)[i] as int <= 70,
    decreases n,
{
    if n < 16 {
        lemma_digit_char(n, 16);
        assert(hex_upper(n).drop_last() == Seq::<char>::empty());
        assert(digits_value(hex_upper(n), 16) == digits_value(Seq::<char>::empty(), 16) * 16 + n);
    } else {
        lemma_hex_upper(n / 16);
        lemma_digit_char(n % 16, 16);
        let s = hex_upper(n);
        assert(s.drop_last() == hex_upper(n / 16));
        assert(s.last() == digit_char(n % 16));
        assert(digits_value(s, 16) == digits_value(hex_upper(n / 16), 16) * 16 + (n % 16));
        assert((n / 16) * 16 + n % 16 == n);
        assert forall|i: int| 0 <= i < s.len() implies (#[trigger] char_digit(s[i], 16)) is Some
            && 48 <= s[i] as int <= 70 by {
            if i < s.len() - 1 {
                assert(s[i] == hex_upper(n / 16)[i]);
            }
        }
    }
}

/// `{:02X}` output reads back through `from_str_radix(.., 16)` as the same
/// number.
pub proof fn lemma_hex_upper_2_parses(n: u32)
    ensures
        parse_u32(hex_upper_2(n as nat), 16) == Some(n),
        hex_upper_2(n as nat).len() > 0,
        forall|i: int| 0 <= i < hex_upper_2(n as nat).len() ==> 48 <= #[trigger] hex_upper_2(n as nat)[i] as int <= 70,
{
    let s = hex_upper_2(n as nat);
    if n < 16 {
        lemma_digit_char(n as nat, 16);
        lemma_digit_char(0, 16);
        assert(s.drop_last() == seq!['0']);
        assert(s.drop_last().drop_last() == Seq::<char>::empty());
        assert(digit_char(0) == '0');
        assert(seq!['0'].drop_last() == Seq::<char>::empty());
        assert(seq!['0'].last() == '0');
        assert(char_digit('0', 16) == Some(0nat));
        assert(digits_value(seq!['0'], 16) == digits_value(Seq::<char>::empty(), 16) * 16 + 0);
        assert(digits_value(seq!['0'], 16) == 0);
        assert(digits_value(s.drop_last(), 16) == 0);
        assert(digits_value(s, 16) == n);
        assert(s[0] != '+');
        assert(all_digits(s, 16)) by {
            assert forall|i: int| 0 <= i < s.len() implies (#[trigger] char_digit(s[i], 16)) is Some by {
            }
        }
    } else {
        lemma_hex_upper(n as nat);
        assert(48 <= s[0] as int);
    }
}

/// The ASCII upper-case form of `c`: `a`-`z` become `A`-`Z`, every other
/// character stays as it is.
pub open spec fn ascii_upper(c: char) -> char {
    if 97 <= c as int <= 122 {
        ((c as int) - 32) as char
    } else {
        c
    }
}

/// Digit values are those of `char::to_digit`: `0`-`9` count 0 to 9, and
/// both `A`-`Z` and `a`-`z` count 10 to 35; a value is a digit only when it
/// is below the radix.
pub proof fn lemma_digit_values(k: nat, radix: nat)
    requires
        2 <= radix <= 36,
    ensures
        k < 10 ==> char_digit((48 + k) as char, radix) == (if k < radix {
            Some(k)
        } else {
            None::<nat>
        }),
        k < 26 ==> char_digit((65 + k) as char, radix) == (if 10 + k < radix {
            Some((10 + k) as nat)
        } else {
            None::<nat>
        }),
        k < 26 ==> char_digit((97 + k) as char, radix) == (if 10 + k < radix {
            Some((10 + k) as nat)
        } else {
            None::<nat>
        }),
{
}

/// A character is a digit exactly when it is an ASCII letter or decimal
/// digit of value below the radix, and its value does not depend on its case.
pub proof fn lemma_char_digit_ignores_case(c: char, radix: nat)
    requires
        2 <= radix <= 36,
    ensures
        char_digit(c, radix) == char_digit(ascii_upper(c), radix),
        char_digit(c, radix) matches Some(v) ==> v < radix && (48 <= c as int <= 57 || 65
            <= c as int <= 90 || 97 <= c as int <= 122),
{
}

proof fn lemma_digits_value_upper(s: Seq<char>, radix: nat)
    requires
        2 <= radix <= 36,
    ensures
        digits_value(s, radix) == digits_value(s.map_values(|c: char| ascii_upper(c)), radix),
        all_digits(s, radix) == all_digits(s.map_values(|c: char| ascii_upper(c)), radix),
    decreases s.len(),
{
    let u = s.map_values(|c: char| ascii_upper(c));
    assert forall|i: int| 0 <= i < s.len() implies char_digit(s[i], radix) == char_digit(
        #[trigger] u[i],
        radix,
    ) by {
        lemma_char_digit_ignores_case(s[i], radix);
    }
    if s.len() > 0 {
        lemma_digits_value_upper(s.drop_last(), radix);
        assert(u.drop_last() == s.drop_last().map_values(|c: char| ascii_upper(c)));
        assert(u.last() == u[s.len() - 1]);
    }
    if all_digits(u, radix) {
        assert forall|i: int| 0 <= i < s.len() implies (#[trigger] char_digit(s[i], radix)) is Some by {
            assert(char_digit(u[i], radix) is Some);
        }
    }
    if all_digits(s, radix) {
        assert forall|i: int| 0 <= i < u.len() implies (#[trigger] char_digit(u[i], radix)) is Some by {
            assert(char_digit(s[i], radix) is Some);
        }
    }
}

/// Reading a number does not depend on the case of its letters:
/// `from_str_radix("7b", 16)` and `from_str_radix("7B", 16)` agree.
pub proof fn lemma_parse_ignores_case(s: Seq<char>, radix: nat)
    requires
        2 <= radix <= 36,
    ensures
        parse_u32(s, radix) == parse_u32(s.map_values(|c: char| ascii_upper(c)), radix),
{
    let u = s.map_values(|c: char| ascii_upper(c));
    if s.len() > 0 {
        assert(u[0] == ascii_upper(s[0]));
        assert((u[0] == '+') == (s[0] == '+'));
        assert(u.drop_first() == s.drop_first().map_values(|c: char| ascii_upper(c)));
        lemma_digits_value_upper(s.drop_first(), radix);
    }
    lemma_digits_value_upper(s, radix);
}

/// `decimal(n)` spells `n`: at least one ASCII digit, no leading zero
/// unless `n` is 0, and the digits are worth `n`.
pub proof fn lemma_decimal_spells(n: nat)
    ensures
        decimal(n).len() > 0,
        forall|i: int| 0 <= i < decimal(n).len() ==> 48 <= #[trigger] decimal(n)[i] as int <= 57,
        all_digits(decimal(n), 10),
        digits_value(decimal(n), 10) == n,
        decimal(n)[0] == '0' ==> n == 0,
        n < 10 <==> decimal(n).len() == 1,
    decreases n,
{
    if n < 10 {
        lemma_digit_char(n, 10);
        assert(decimal(n).drop_last() == Seq::<char>::empty());
        assert(digits_value(decimal(n), 10) == digits_value(Seq::<char>::empty(), 10) * 10 + n);
    } else {
        lemma_decimal_spells(n / 10);
        lemma_digit_char(n % 10, 10);
        let s = decimal(n);
        assert(s.drop_last() == decimal(n / 10));
        assert(s.last() == digit_char(n % 10));
        assert(digits_value(s, 10) == digits_value(decimal(n / 10), 10) * 10 + (n % 10));
        assert((n / 10) * 10 + n % 10 == n);
        assert(s[0] == decimal(n / 10)[0]);
        assert forall|i: int| 0 <= i < s.len() implies (#[trigger] char_digit(s[i], 10)) is Some
            && 48 <= s[i] as int <= 57 by {
            if i < s.len() - 1 {
                assert(s[i] == decimal(n / 10)[i]);
            }
        }
    }
}

/// A number written in decimal reads back as itself.
pub proof fn lemma_decimal_parses(n: u32)
    ensures
        parse_u32(decimal(n as nat), 10) == Some(n),
{
    lemma_decimal_spells(n as nat);
    let s = decimal(n as nat);
    assert(s[0] != '+');
}

proof fn lemma_hex_upper_len(n: nat)
    ensures
        hex_upper(n)[0] == '0' ==> n == 0,
        n >= 16 ==> hex_upper(n).len() >= 2,
        n < 256 ==> hex_upper(n).len() <= 2,
    decreases n,
{
    lemma_hex_upper(n);
    if n < 16 {
        lemma_digit_char(n, 16);
    } else {
        lemma_hex_upper_len(n / 16);
        lemma_hex_upper(n / 16);
        assert(hex_upper(n)[0] == hex_upper(n / 16)[0]);
    }
}

/// `{:02X}` writes at least two digits, exactly two below 256, and starts
/// with a zero exactly when the number is below 16.
pub proof fn lemma_hex_upper_2_shape(n: nat)
    ensures
        hex_upper_2(n).len() >= 2,
        n < 256 ==> hex_upper_2(n).len() == 2,
        (hex_upper_2(n)[0] == '0') == (n < 16),
{
    lemma_hex_upper_len(n);
}

/// `{:+width$}` of `v`: spaces, then the sign (`-` below zero, `+`
/// otherwise), then the decimal digits of `|v|`; the whole is exactly
/// `width` long when that is enough room, and has no spaces otherwise.
pub proof fn lemma_signed_padded_shape(v: int, width: nat)
    ensures
        ({
            let s = signed_padded(v, width);
            let body = 1 + decimal(abs(v)).len();
            let k = s.len() - body;
            &&& s.len() == (if body < width {
                width as int
            } else {
                body as int
            })
            &&& forall|i: int| 0 <= i < k ==> #[trigger] s[i] == ' '
            &&& s[k] == (if v < 0 {
                '-'
            } else {
                '+'
            })
            &&& all_digits(s.skip(k + 1), 10)
            &&& digits_value(s.skip(k + 1), 10) == abs(v)
            &&& s.skip(k + 1).len() > 0
        }),
{
    lemma_decimal_spells(abs(v));
    let d = decimal(abs(v));
    let b = seq![if v < 0 {
        '-'
    } else {
        '+'
    }] + d;
    let s = signed_padded(v, width);
    if b.len() < width {
        let sp = spaces((width - b.len()) as nat);
        assert(s == sp + b);
        assert(s.skip(sp.len() + 1int) == d);
        assert(s[sp.len() as int] == b[0]);
    } else {
        assert(s == b);
        assert(s.skip(1) == d);
    }
}

/// What reads as a number: an optional `+` and then one or more digits of
/// the radix, nothing else; a leading `+` may be dropped without changing
/// the number; and a run of digits reads exactly when its value fits in a
/// `u32`.
pub proof fn lemma_parse_form(s: Seq<char>, radix: nat)
    requires
        2 <= radix <= 36,
    ensures
        parse_u32(s, radix) is Some ==> {
            &&& s.len() > 0
            &&& s[0] == '+' || char_digit(s[0], radix) is Some
            &&& forall|i: int| 1 <= i < s.len() ==> (#[trigger] char_digit(s[i], radix)) is Some
            &&& s != seq!['+']
        },
        (s.len() == 0 || s[0] != '+') ==> parse_u32(seq!['+'] + s, radix) == parse_u32(s, radix),
        s.len() > 0 && all_digits(s, radix) ==> ((parse_u32(s, radix) is Some) == (digits_value(
            s,
            radix,
        ) <= u32::MAX)),
        parse_u32(s, radix) matches Some(v) ==> digits_value(
            if s[0] == '+' {
                s.drop_first()
            } else {
                s
            },
            radix,
        ) == v,
{
    let p = seq!['+'] + s;
    assert(p.drop_first() == s);
    if s.len() > 0 && all_digits(s, radix) {
        lemma_digit_not_plus(s[0], radix);
    }
    if parse_u32(s, radix) is Some {
        if s[0] == '+' {
            let d = s.drop_first();
            assert forall|i: int| 1 <= i < s.len() implies (#[trigger] char_digit(s[i], radix)) is Some by {
                assert(s[i] == d[i - 1]);
            }
        } else {
            assert(char_digit(s[0], radix) is Some);
        }
    }
}

proof fn lemma_digit_not_plus(c: char, radix: nat)
    requires
        2 <= radix <= 36,
        char_digit(c, radix) is Some,
    ensures
        c != '+',
{
}

} // verus!
