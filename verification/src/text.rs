//! Characters, decimal digits and zero-padded numbers: the text layer under
//! identifiers and directory names.

use vstd::prelude::*;
use vstd::string::*;

verus! {

/// `String::push` of the standard library: the string afterwards is the string
/// before with the one character `c` appended, as its documentation says.
pub assume_specification[ String::push ](s: &mut String, c: char)
    ensures
        final(s)@ == old(s)@.push(c),
;

/// `str::to_lowercase` of the standard library. Its result is decided by the
/// Unicode case tables alone; the contract only gives that result a name.
#[verifier::external_body]
pub(crate) fn str_to_lowercase(s: &str) -> (r: String)
    ensures
        r@ == lowercase_of(s@),
{
    s.to_lowercase()
}

/// The lowercase form that the standard library gives a text.
pub uninterp spec fn lowercase_of(s: Seq<char>) -> Seq<char>;

/// `needle` stands in `hay` at position `i`.
pub open spec fn occurs_at(needle: Seq<char>, hay: Seq<char>, i: int) -> bool {
    0 <= i && i + needle.len() <= hay.len() && hay.subrange(i, i + needle.len()) == needle
}

/// `needle` occurs in `hay` as a contiguous run of characters.
pub open spec fn occurs_in(needle: Seq<char>, hay: Seq<char>) -> bool {
    exists|i: int| occurs_at(needle, hay, i)
}

/// Whether a name is a hit for a query: the query occurs in the lowercase
/// form of the name.
pub open spec fn name_matches(name: Seq<char>, query: Seq<char>) -> bool {
    occurs_in(query, lowercase_of(name))
}

/// Whether `c` is one of the ten decimal digits.
pub open spec fn is_digit(c: char) -> bool {
    '0' <= c && c <= '9'
}

/// The number that the digit character `c` writes.
pub open spec fn digit_value(c: char) -> nat {
    (c as int - '0' as int) as nat
}

/// The character that writes the digit `d`, for `d` below ten.
pub open spec fn digit_char(d: nat) -> char {
    (48 + d) as char
}

/// Whether `s` holds decimal digits only.
pub open spec fn all_digits(s: Seq<char>) -> bool {
    forall|i: int| 0 <= i < s.len() ==> is_digit(#[trigger] s[i])
}

/// The number written by a run of decimal digits, most significant first.
pub open spec fn value_of(s: Seq<char>) -> nat
    decreases s.len(),
{
    if s.len() == 0 {
        0
    } else {
        value_of(s.drop_last()) * 10 + digit_value(s.last())
    }
}

/// The decimal digits of `n` without padding.
pub open spec fn decimal(n: nat) -> Seq<char>
    decreases n,
{
    if n < 10 {
        seq![digit_char(n)]
    } else {
        decimal(n / 10).push(digit_char(n % 10))
    }
}

/// `s` with zeros put in front until it is `width` long; `s` itself when it is
/// already that long.
pub open spec fn pad_to(s: Seq<char>, width: nat) -> Seq<char>
    decreases width - s.len(),
{
    if s.len() >= width {
        s
    } else {
        pad_to(seq!['0'] + s, width)
    }
}

/// `n` in decimal, zero-padded to at least `width` characters.
pub open spec fn padded(n: nat, width: nat) -> Seq<char> {
    pad_to(decimal(n), width)
}

/// The number written by `s` when `s` is a non-empty run of digits that
/// writes a number below `limit`.
pub open spec fn digits_below(s: Seq<char>, limit: nat) -> Option<nat> {
    if s.len() > 0 && all_digits(s) && value_of(s) < limit {
        Some(value_of(s))
    } else {
        None
    }
}

/// The character of a digit is a digit that writes it, and none of the
/// separators used in identifiers and names.
pub proof fn lemma_digit_char(d: nat)
    requires
        d < 10,
    ensures
        is_digit(digit_char(d)),
        digit_value(digit_char(d)) == d,
        digit_char(d) != '.',
        digit_char(d) != '+',
        digit_char(d) != ' ',
        digit_char(d) != '-',
{
}

/// A digit writes a number below ten, whose character it is.
pub proof fn lemma_digit_value(c: char)
    requires
        is_digit(c),
    ensures
        digit_value(c) < 10,
        digit_char(digit_value(c)) == c,
{
}

/// Two digits are exactly the padded form of the number below one hundred
/// that they write.
pub proof fn lemma_two_digits(n: nat)
    requires
        n < 100,
    ensures
        padded(n, 2) == seq![digit_char(n / 10), digit_char(n % 10)],
{
    reveal_with_fuel(decimal, 3);
    reveal_with_fuel(pad_to, 3);
    if n < 10 {
        assert(seq!['0'] + seq![digit_char(n)] =~= seq![digit_char(0), digit_char(n)]);
    } else {
        assert(seq![digit_char(n / 10)].push(digit_char(n % 10)) =~= seq![
            digit_char(n / 10),
            digit_char(n % 10),
        ]);
    }
}

/// Three digits are exactly the padded form of the number below one thousand
/// that they write.
pub proof fn lemma_three_digits(n: nat)
    requires
        n < 1000,
    ensures
        padded(n, 3) == seq![digit_char(n / 100), digit_char((n / 10) % 10), digit_char(n % 10)],
{
    reveal_with_fuel(decimal, 4);
    reveal_with_fuel(pad_to, 4);
    let target = seq![digit_char(n / 100), digit_char((n / 10) % 10), digit_char(n % 10)];
    if n < 10 {
        assert(seq!['0'] + (seq!['0'] + seq![digit_char(n)]) =~= target);
    } else if n < 100 {
        assert(seq!['0'] + seq![digit_char(n / 10)].push(digit_char(n % 10)) =~= target);
    } else {
        assert((n / 10) / 10 == n / 100);
        assert(seq![digit_char(n / 100)].push(digit_char((n / 10) % 10)).push(digit_char(n % 10))
            =~= target);
    }
}

/// The number written by two characters.
pub proof fn lemma_value_of_two(a: char, b: char)
    ensures
        value_of(seq![a, b]) == digit_value(a) * 10 + digit_value(b),
{
    reveal_with_fuel(value_of, 3);
    assert(seq![a, b].drop_last() =~= seq![a]);
    assert(seq![a].drop_last() =~= Seq::<char>::empty());
}

/// The number written by three characters.
pub proof fn lemma_value_of_three(a: char, b: char, c: char)
    ensures
        value_of(seq![a, b, c]) == digit_value(a) * 100 + digit_value(b) * 10 + digit_value(c),
{
    lemma_value_of_two(a, b);
    assert(seq![a, b, c].drop_last() =~= seq![a, b]);
}

/// Whether `needle` occurs in `hay`.
pub(crate) fn occurs(needle: &Vec<char>, hay: &Vec<char>) -> (r: bool)
    ensures
        r == occurs_in(needle@, hay@),
{
    let n = needle.len();
    let h = hay.len();
    if n > h {
        return false;
    }
    let mut i: usize = 0;
    while i <= h - n
        invariant
            n == needle.len(),
            h == hay.len(),
            n <= h,
            i <= h - n + 1,
            forall|j: int| 0 <= j < i ==> !occurs_at(needle@, hay@, j),
        decreases h - n + 1 - i,
    {
        let mut k: usize = 0;
        while k < n && hay[i + k] == needle[k]
            invariant
                n == needle.len(),
                h == hay.len(),
                k <= n,
                i + n <= h,
                forall|t: int| 0 <= t < k ==> hay@[i + t] == needle@[t],
            decreases n - k,
        {
            k += 1;
        }
        if k == n {
            assert(hay@.subrange(i as int, i + n) =~= needle@);
            assert(occurs_at(needle@, hay@, i as int));
            return true;
        }
        assert(!occurs_at(needle@, hay@, i as int)) by {
            if occurs_at(needle@, hay@, i as int) {
                assert(hay@.subrange(i as int, i + n)[k as int] == needle@[k as int]);
            }
        }
        i += 1;
    }
    false
}

/// Whether the text `needle` occurs in the text `hay`.
pub fn occurs_in_text(needle: &str, hay: &str) -> (r: bool)
    ensures
        r == occurs_in(needle@, hay@),
{
    let needle_chars = chars_of(needle);
    let hay_chars = chars_of(hay);
    occurs(&needle_chars, &hay_chars)
}

/// The characters of a text, in order.
pub(crate) fn chars_of(s: &str) -> (v: Vec<char>)
    ensures
        v@ == s@,
{
    let mut v: Vec<char> = Vec::new();
    for c in it: s.chars()
        invariant
            v@ == it.seq().take(it.index() as int),
            it.seq() == s@,
    {
        v.push(c);
    }
    v
}

/// Appends the characters `chars[from..to]` to `out`.
pub(crate) fn push_chars(out: &mut String, chars: &Vec<char>, from: usize, to: usize)
    requires
        from <= to <= chars.len(),
    ensures
        final(out)@ == old(out)@ + chars@.subrange(from as int, to as int),
{
    let mut i: usize = from;
    while i < to
        invariant
            from <= i <= to <= chars.len(),
            out@ == old(out)@ + chars@.subrange(from as int, i as int),
        decreases to - i,
    {
        out.push(chars[i]);
        i += 1;
        assert(chars@.subrange(from as int, i as int) =~= chars@.subrange(from as int, i - 1).push(
            chars@[i - 1],
        ));
    }
    assert(chars@.subrange(from as int, from as int) =~= Seq::<char>::empty());
}

/// The digit that `c` writes, if it is a decimal digit.
pub(crate) fn digit_of(c: char) -> (r: Option<usize>)
    ensures
        r is Some <==> is_digit(c),
        r is Some ==> r.unwrap() == digit_value(c),
{
    if '0' <= c && c <= '9' {
        let d: u32 = c as u32 - '0' as u32;
        Some(d as usize)
    } else {
        None
    }
}

/// Appends `n` in decimal to `out`, zero-padded to at least `width` characters.
pub(crate) fn push_padded(out: &mut String, n: usize, width: usize)
    ensures
        final(out)@ == old(out)@ + padded(n as nat, width as nat),
{
    let mut digits: Vec<char> = Vec::new();
    let mut rest: usize = n;
    let d: u8 = (rest % 10) as u8;
    digits.push((48u8 + d) as char);
    rest = rest / 10;
    proof {
        if n < 10 {
            assert(digits@ =~= decimal(n as nat));
        } else {
            assert(decimal(n as nat) =~= decimal(rest as nat) + digits@);
        }
    }
    while rest > 0
        invariant
            decimal(n as nat) == (if rest > 0 {
                decimal(rest as nat)
            } else {
                Seq::<char>::empty()
            }) + digits@,
        decreases rest,
    {
        let d: u8 = (rest % 10) as u8;
        let c: char = (48u8 + d) as char;
        let ghost before = digits@;
        digits.insert(0, c);
        proof {
            assert(digits@ =~= seq![c] + before);
            if rest < 10 {
                assert(decimal(rest as nat) + before =~= digits@);
                assert(Seq::<char>::empty() + digits@ =~= digits@);
            } else {
                assert(decimal(rest as nat) + before =~= decimal((rest / 10) as nat) + digits@);
            }
        }
        rest = rest / 10;
    }
    assert(digits@ =~= decimal(n as nat));
    while digits.len() < width
        invariant
            pad_to(digits@, width as nat) == padded(n as nat, width as nat),
        decreases width - digits.len(),
    {
        let ghost before = digits@;
        digits.insert(0, '0');
        assert(digits@ =~= seq!['0'] + before);
    }
    let len = digits.len();
    push_chars(out, &digits, 0, len);
    assert(digits@.subrange(0, len as int) =~= digits@);
}

/// Reads `chars[from..to]` as a number: `Some` of its value when the range is
/// a non-empty run of digits that writes a number below `limit`.
pub(crate) fn parse_digits(chars: &Vec<char>, from: usize, to: usize, limit: usize) -> (r: Option<usize>)
    requires
        from <= to <= chars.len(),
        limit <= usize::MAX / 16,
    ensures
        match r {
            Some(v) => digits_below(chars@.subrange(from as int, to as int), limit as nat) == Some(
                v as nat,
            ),
            None => digits_below(chars@.subrange(from as int, to as int), limit as nat) is None,
        },
{
    let ghost s = chars@.subrange(from as int, to as int);
    if from == to || limit == 0 {
        return None;
    }
    let mut acc: usize = 0;
    let mut i: usize = from;
    let mut over: bool = false;
    while i < to
        invariant
            from <= i <= to <= chars.len(),
            s == chars@.subrange(from as int, to as int),
            limit <= usize::MAX / 16,
            all_digits(s.take(i - from)),
            !over ==> acc == value_of(s.take(i - from)) && acc < limit,
            over ==> value_of(s.take(i - from)) >= limit,
        decreases to - i,
    {
        let ghost k = i - from;
        proof {
            assert(s.take(k + 1).drop_last() =~= s.take(k));
            assert(s.take(k + 1).last() == chars@[i as int]);
        }
        match digit_of(chars[i]) {
            None => {
                proof {
                    assert(s[k] == chars@[i as int]);
                    assert(!is_digit(s[k]));
                }
                return None;
            },
            Some(d) => {
                proof {
                    assert forall|j: int| 0 <= j < k + 1 implies is_digit(
                        #[trigger] s.take(k + 1)[j],
                    ) by {
                        if j < k {
                            assert(s.take(k)[j] == s.take(k + 1)[j]);
                        }
                    }
                }
                if !over {
                    acc = acc * 10 + d;
                    if acc >= limit {
                        over = true;
                    }
                }
            },
        }
        i += 1;
    }
    assert(s.take(to - from) =~= s);
    if over {
        None
    } else {
        Some(acc)
    }
}

} // verus!
