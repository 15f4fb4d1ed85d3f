//! Small tools for building and reading character sequences.

use vstd::prelude::*;

verus! {

/// `String::push` appends exactly one character to the end of the string.
pub assume_specification[ String::push ](s: &mut String, c: char)
    ensures
        final(s)@ == old(s)@.push(c),
;

/// `char::from_u32` gives the character with the code point `i` where `i` is
/// a Unicode scalar value, that is at most `0x10FFFF` and no surrogate
/// (`0xD800` to `0xDFFF`), and `None` for every other number.
pub assume_specification[ char::from_u32 ](i: u32) -> (r: Option<char>)
    ensures
        r == if i <= 0xD7FF || (0xE000 <= i && i <= 0x10FFFF) {
            Some(i as char)
        } else {
            None::<char>
        },
;

/// The character that stands for the digit `d` in base ten.
pub open spec fn digit_char(d: nat) -> char
    recommends
        d < 10,
{
    (48 + d) as char
}

/// `n` written in base ten, without sign or leading zeros.
pub open spec fn decimal(n: nat) -> Seq<char>
    decreases n,
{
    if n < 10 {
        seq![digit_char(n)]
    } else {
        decimal(n / 10).push(digit_char(n % 10))
    }
}

/// Appends `n` in base ten to `out`.
pub fn push_decimal(out: &mut String, n: usize)
    ensures
        final(out)@ == old(out)@ + decimal(n as nat),
    decreases n,
{
    if n >= 10 {
        push_decimal(out, n / 10);
    }
    let d: u8 = (n % 10) as u8;
    out.push((48u8 + d) as char);
    assert(old(out)@ + decimal(n as nat) =~= out@);
}

/// The characters of `s`, in order.
pub fn chars_of(s: &str) -> (v: Vec<char>)
    ensures
        v@ == s@,
{
    broadcast use vstd::string::axiom_spec_iter;

    let mut v: Vec<char> = Vec::new();
    for c in it: s.chars()
        invariant
            it.seq() == s@,
            v@ == s@.take(it.index()),
    {
        v.push(c);
        assert(s@.take(it.index() + 1) =~= s@.take(it.index()).push(c));
    }
    assert(s@.take(s@.len() as int) =~= s@);
    v
}

/// Whether `chars` spells exactly `word`.
pub fn spells(chars: &Vec<char>, word: &str) -> (same: bool)
    ensures
        same == (chars@ == word@),
{
    broadcast use vstd::string::axiom_spec_iter;

    let n = chars.len();
    let mut matched: usize = 0;
    let mut same = true;
    assert(chars@.take(0) =~= word@.take(0));
    for c in it: word.chars()
        invariant
            it.seq() == word@,
            n == chars.len(),
            same ==> matched == it.index() && matched <= n,
            same == (it.index() <= n && chars@.take(it.index()) == word@.take(it.index())),
    {
        let ghost k = it.index();
        if same && matched < n && chars[matched] == c {
            matched += 1;
            proof {
                assert(chars@.take(k + 1) =~= chars@.take(k).push(chars@[k]));
                assert(word@.take(k + 1) =~= word@.take(k).push(c));
            }
        } else {
            proof {
                if k + 1 <= n && chars@.take(k + 1) == word@.take(k + 1) {
                    assert(chars@.take(k) =~= chars@.take(k + 1).take(k));
                    assert(word@.take(k) =~= word@.take(k + 1).take(k));
                    assert(chars@.take(k + 1)[k] == word@.take(k + 1)[k]);
                }
            }
            same = false;
        }
    }
    proof {
        let m = word@.len() as int;
        assert(word@.take(m) =~= word@);
        if same && matched == n {
            assert(chars@.take(m) =~= chars@);
        }
        if chars@ == word@ {
            assert(chars@.take(m) =~= chars@);
        }
    }
    same && matched == n
}

/// Whether `c` is white space (the Unicode property `White_Space`).
pub open spec fn is_space(c: char) -> bool {
    let u = c as u32;
    ||| 0x09 <= u <= 0x0D
    ||| u == 0x20
    ||| u == 0x85
    ||| u == 0xA0
    ||| u == 0x1680
    ||| 0x2000 <= u <= 0x200A
    ||| u == 0x2028
    ||| u == 0x2029
    ||| u == 0x202F
    ||| u == 0x205F
    ||| u == 0x3000
}

/// Whether `c` is white space.
pub fn is_whitespace(c: char) -> (b: bool)
    ensures
        b == is_space(c),
{
    let u: u32 = c as u32;
    (0x09 <= u && u <= 0x0D) || u == 0x20 || u == 0x85 || u == 0xA0 || u == 0x1680 || (0x2000 <= u
        && u <= 0x200A) || u == 0x2028 || u == 0x2029 || u == 0x202F || u == 0x205F || u == 0x3000
}

/// Whether every character of `s` is white space; true of the empty text.
pub open spec fn is_blank(s: Seq<char>) -> bool {
    forall|i: int| 0 <= i < s.len() ==> is_space(#[trigger] s[i])
}

/// How many white-space characters `s` starts with.
pub open spec fn leading_spaces(s: Seq<char>) -> nat
    decreases s.len(),
{
    if s.len() > 0 && is_space(s[0]) {
        1 + leading_spaces(s.drop_first())
    } else {
        0
    }
}

/// How many white-space characters `s` ends with.
pub open spec fn trailing_spaces(s: Seq<char>) -> nat
    decreases s.len(),
{
    if s.len() > 0 && is_space(s.last()) {
        1 + trailing_spaces(s.drop_last())
    } else {
        0
    }
}

/// `s` without the white space at its start.
pub open spec fn trim_start(s: Seq<char>) -> Seq<char> {
    s.skip(leading_spaces(s) as int)
}

/// `s` without the white space at its end.
pub open spec fn trim_end(s: Seq<char>) -> Seq<char> {
    s.take(s.len() - trailing_spaces(s))
}

/// `s` without the white space at either end.
pub open spec fn trim(s: Seq<char>) -> Seq<char> {
    trim_end(trim_start(s))
}

/// The position of the first `c` in `s`, or the length of `s` if it holds none.
pub open spec fn first_index(s: Seq<char>, c: char) -> nat
    decreases s.len(),
{
    if s.len() > 0 && s[0] != c {
        1 + first_index(s.drop_first(), c)
    } else {
        0
    }
}

/// `leading_spaces` is the one `k` such that the first `k` characters are
/// white space and the next one, if any, is not.
pub proof fn lemma_leading_spaces(s: Seq<char>, k: nat)
    requires
        k <= s.len(),
        forall|j: int| 0 <= j < k ==> is_space(#[trigger] s[j]),
        k == s.len() || !is_space(s[k as int]),
    ensures
        leading_spaces(s) == k,
    decreases k,
{
    if k > 0 {
        let rest = s.drop_first();
        assert forall|j: int| 0 <= j < k - 1 implies is_space(#[trigger] rest[j]) by {
            assert(rest[j] == s[j + 1]);
        }
        if k < s.len() {
            assert(rest[k - 1] == s[k as int]);
        }
        lemma_leading_spaces(rest, (k - 1) as nat);
    }
}

/// `trailing_spaces` is the one `k` such that the last `k` characters are
/// white space and the one before them, if any, is not.
pub proof fn lemma_trailing_spaces(s: Seq<char>, k: nat)
    requires
        k <= s.len(),
        forall|j: int| s.len() - k <= j < s.len() ==> is_space(#[trigger] s[j]),
        k == s.len() || !is_space(s[s.len() - k - 1]),
    ensures
        trailing_spaces(s) == k,
    decreases k,
{
    if k > 0 {
        let rest = s.drop_last();
        assert forall|j: int| rest.len() - (k - 1) <= j < rest.len() implies is_space(
            #[trigger] rest[j],
        ) by {
            assert(rest[j] == s[j]);
        }
        if k < s.len() {
            assert(rest[rest.len() - (k - 1) - 1] == s[s.len() - k - 1]);
        }
        lemma_trailing_spaces(rest, (k - 1) as nat);
    }
}

/// `first_index` is the one `k` such that `c` is not among the first `k`
/// characters and is the next one, if there is a next one.
pub proof fn lemma_first_index(s: Seq<char>, c: char, k: nat)
    requires
        k <= s.len(),
        forall|j: int| 0 <= j < k ==> #[trigger] s[j] != c,
        k == s.len() || s[k as int] == c,
    ensures
        first_index(s, c) == k,
    decreases k,
{
    if k > 0 {
        let rest = s.drop_first();
        assert forall|j: int| 0 <= j < k - 1 implies #[trigger] rest[j] != c by {
            assert(rest[j] == s[j + 1]);
        }
        if k < s.len() {
            assert(rest[k - 1] == s[k as int]);
        }
        lemma_first_index(rest, c, (k - 1) as nat);
    }
}

/// Whether `chars[from..to]` is all white space.
pub fn blank(chars: &Vec<char>, from: usize, to: usize) -> (b: bool)
    requires
        from <= to <= chars.len(),
    ensures
        b == is_blank(chars@.subrange(from as int, to as int)),
{
    let ghost part = chars@.subrange(from as int, to as int);
    let mut i: usize = from;
    while i < to
        invariant
            from <= i <= to <= chars.len(),
            part == chars@.subrange(from as int, to as int),
            forall|j: int| 0 <= j < i - from ==> is_space(#[trigger] part[j]),
        decreases to - i,
    {
        if !is_whitespace(chars[i]) {
            assert(!is_space(part[i - from]));
            return false;
        }
        i += 1;
    }
    true
}

/// The bounds of `chars[from..to]` without the white space at either end.
pub fn trim_bounds(chars: &Vec<char>, from: usize, to: usize) -> (r: (usize, usize))
    requires
        from <= to <= chars.len(),
    ensures
        from <= r.0 <= r.1 <= to,
        r.0 == from + leading_spaces(chars@.subrange(from as int, to as int)),
        r.1 == to - trailing_spaces(trim_start(chars@.subrange(from as int, to as int))),
        chars@.subrange(r.0 as int, r.1 as int) == trim(chars@.subrange(from as int, to as int)),
{
    let ghost part = chars@.subrange(from as int, to as int);
    let mut lo: usize = from;
    while lo < to && is_whitespace(chars[lo])
        invariant
            from <= lo <= to <= chars.len(),
            part == chars@.subrange(from as int, to as int),
            forall|j: int| 0 <= j < lo - from ==> is_space(#[trigger] part[j]),
        decreases to - lo,
    {
        lo += 1;
    }
    proof {
        if lo < to {
            assert(part[lo - from] == chars@[lo as int]);
        }
        lemma_leading_spaces(part, (lo - from) as nat);
    }
    let ghost rest = part.skip(lo - from);
    assert(rest =~= chars@.subrange(lo as int, to as int));
    let mut hi: usize = to;
    while hi > lo && is_whitespace(chars[hi - 1])
        invariant
            lo <= hi <= to <= chars.len(),
            rest == chars@.subrange(lo as int, to as int),
            forall|j: int| hi - lo <= j < to - lo ==> is_space(#[trigger] rest[j]),
        decreases hi - lo,
    {
        hi -= 1;
    }
    proof {
        if hi > lo {
            assert(rest[hi - lo - 1] == chars@[hi - 1]);
        } else if lo < to {
            assert(rest[0] == chars@[lo as int]);
        }
        lemma_trailing_spaces(rest, (to - hi) as nat);
        assert(rest.take(rest.len() - (to - hi)) =~= chars@.subrange(lo as int, hi as int));
    }
    (lo, hi)
}

/// The position of the first `c` in `chars`, or its length if there is none.
pub fn find(chars: &Vec<char>, c: char) -> (at: usize)
    ensures
        at == first_index(chars@, c),
        at <= chars.len(),
        at < chars.len() ==> chars@[at as int] == c,
{
    let mut at: usize = 0;
    while at < chars.len() && chars[at] != c
        invariant
            at <= chars.len(),
            forall|j: int| 0 <= j < at ==> #[trigger] chars@[j] != c,
        decreases chars.len() - at,
    {
        at += 1;
    }
    proof {
        lemma_first_index(chars@, c, at as nat);
    }
    at
}

/// The value of `c` as a digit in base `radix`, if it is one: `0` to `9`,
/// then the letters in either case from ten on.
pub open spec fn digit_of(c: char, radix: nat) -> Option<nat> {
    let d: nat = if '0' <= c <= '9' {
        (c as nat - 48) as nat
    } else if 'a' <= c <= 'z' {
        (c as nat - 97 + 10) as nat
    } else if 'A' <= c <= 'Z' {
        (c as nat - 65 + 10) as nat
    } else {
        radix
    };
    if d < radix {
        Some(d)
    } else {
        None
    }
}

/// The number that the digits `s` spell in base `radix`; `None` where a
/// character is no digit of that base. The empty text spells zero.
pub open spec fn digits_value(s: Seq<char>, radix: nat) -> Option<nat>
    decreases s.len(),
{
    if s.len() == 0 {
        Some(0)
    } else {
        match (digits_value(s.drop_last(), radix), digit_of(s.last(), radix)) {
            (Some(v), Some(d)) => Some(v * radix + d),
            _ => None,
        }
    }
}

/// The number that `s` spells in base `radix`, if it is at most `max`: an
/// optional `+`, then at least one digit and nothing else.
pub open spec fn parse_unsigned(s: Seq<char>, radix: nat, max: nat) -> Option<nat> {
    let digits = if s.len() > 0 && s[0] == '+' {
        s.drop_first()
    } else {
        s
    };
    if digits.len() == 0 {
        None
    } else {
        match digits_value(digits, radix) {
            Some(v) => if v <= max {
                Some(v)
            } else {
                None
            },
            None => None,
        }
    }
}

/// Digits that follow can only make a number larger, and a text with a
/// character that is no digit spells no number however it goes on.
pub proof fn lemma_digits_grow(s: Seq<char>, radix: nat, k: int)
    requires
        0 <= k <= s.len(),
        radix >= 1,
    ensures
        digits_value(s.take(k), radix) is None ==> digits_value(s, radix) is None,
        digits_value(s, radix) matches Some(w) ==> digits_value(s.take(k), radix)->0 <= w,
    decreases s.len() - k,
{
    if k < s.len() {
        lemma_digits_grow(s.drop_last(), radix, k);
        assert(s.drop_last().take(k) =~= s.take(k));
        if let (Some(v), Some(d)) = (digits_value(s.drop_last(), radix), digit_of(s.last(), radix)) {
            assert(v * radix + d >= v) by (nonlinear_arith)
                requires
                    radix >= 1,
                    v >= 0,
                    d >= 0,
            ;
        }
    } else {
        assert(s.take(k) =~= s);
    }
}

/// The value of `c` as a digit in base `radix`, if it is one.
pub fn digit(c: char, radix: u32) -> (r: Option<u32>)
    requires
        radix <= 36,
    ensures
        r matches Some(d) ==> digit_of(c, radix as nat) == Some(d as nat),
        r is None ==> digit_of(c, radix as nat) is None,
{
    let u: u32 = c as u32;
    let d: u32 = if 48 <= u && u <= 57 {
        u - 48
    } else if 97 <= u && u <= 122 {
        u - 97 + 10
    } else if 65 <= u && u <= 90 {
        u - 65 + 10
    } else {
        radix
    };
    if d < radix {
        Some(d)
    } else {
        None
    }
}

/// Reads `chars[from..to]` as a number in base `radix` that is at most `max`.
pub fn read_unsigned(chars: &Vec<char>, from: usize, to: usize, radix: u32, max: u32) -> (r: Option<
    u32,
>)
    requires
        from <= to <= chars.len(),
        1 <= radix <= 36,
    ensures
        r matches Some(v) ==> parse_unsigned(
            chars@.subrange(from as int, to as int),
            radix as nat,
            max as nat,
        ) == Some(v as nat),
        r is None ==> parse_unsigned(
            chars@.subrange(from as int, to as int),
            radix as nat,
            max as nat,
        ) is None,
{
    let ghost part = chars@.subrange(from as int, to as int);
    let start: usize = if from < to && chars[from] == '+' {
        from + 1
    } else {
        from
    };
    let ghost digits = chars@.subrange(start as int, to as int);
    assert(digits =~= if part.len() > 0 && part[0] == '+' {
        part.drop_first()
    } else {
        part
    });
    if start == to {
        return None;
    }
    let mut value: u64 = 0;
    let mut i: usize = start;
    assert(digits.take(0) =~= Seq::<char>::empty());
    while i < to
        invariant
            start <= i <= to <= chars.len(),
            1 <= radix <= 36,
            from <= start < to,
            part == chars@.subrange(from as int, to as int),
            digits == chars@.subrange(start as int, to as int),
            digits == if part.len() > 0 && part[0] == '+' {
                part.drop_first()
            } else {
                part
            },
            digits_value(digits.take(i - start), radix as nat) == Some(value as nat),
            value <= max,
        decreases to - i,
    {
        let ghost seen = digits.take(i - start);
        let ghost next = digits.take(i - start + 1);
        proof {
            assert(next.drop_last() =~= seen);
            assert(next.last() == chars@[i as int]);
            lemma_digits_grow(digits, radix as nat, i - start + 1);
        }
        match digit(chars[i], radix) {
            None => {
                return None;
            },
            Some(d) => {
                assert(value * radix + d <= 0xFFFF_FFFF * 36 + 36) by (nonlinear_arith)
                    requires
                        value <= 0xFFFF_FFFF,
                        radix <= 36,
                        d < 36,
                ;
                value = value * (radix as u64) + (d as u64);
                if value > max as u64 {
                    return None;
                }
            },
        }
        i += 1;
    }
    assert(digits.take(to - start) =~= digits);
    Some(value as u32)
}

/// The characters `chars[from..to]` as a string.
pub fn string_of(chars: &Vec<char>, from: usize, to: usize) -> (s: String)
    requires
        from <= to <= chars.len(),
    ensures
        s@ == chars@.subrange(from as int, to as int),
{
    let mut s = String::new();
    let mut i: usize = from;
    while i < to
        invariant
            from <= i <= to <= chars.len(),
            s@ == chars@.subrange(from as int, i as int),
        decreases to - i,
    {
        s.push(chars[i]);
        assert(chars@.subrange(from as int, i + 1) =~= chars@.subrange(from as int, i as int).push(
            chars@[i as int],
        ));
        i += 1;
    }
    s
}

} // verus!
