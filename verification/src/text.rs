//! Text: decimal and hexadecimal numerals, trimming, splitting, file names.

use vstd::prelude::*;

verus! {

/// `String::push` of the standard library: the text grows by one character at
/// its end.
pub assume_specification[ String::push ](s: &mut String, c: char)
    ensures
        final(s)@ == old(s)@.push(c),
;

/// What an optional piece of text holds.
pub open spec fn text_view(t: Option<String>) -> Option<Seq<char>> {
    match t {
        Some(s) => Some(s@),
        None => None,
    }
}

/// What a list of texts holds.
pub open spec fn texts_view(v: Seq<String>) -> Seq<Seq<char>> {
    v.map_values(|s: String| s@)
}

/// The characters of a text, one by one.
pub fn chars_of(s: &str) -> (r: Vec<char>)
    ensures
        r@ == s@,
{
    let mut r: Vec<char> = Vec::new();
    for c in it: s.chars()
        invariant
            r@ == s@.take(it.index()),
            it.seq() == s@,
    {
        r.push(c);
        assert(s@.take(it.index()).push(c) =~= s@.take(it.index() + 1));
    }
    assert(s@.take(s@.len() as int) =~= s@);
    r
}

/// The text made of the given characters.
pub fn string_of(chars: &Vec<char>) -> (r: String)
    ensures
        r@ == chars@,
{
    range_of(chars, 0, chars.len())
}

/// The text made of the characters from `from` up to, not including, `to`.
pub fn range_of(chars: &Vec<char>, from: usize, to: usize) -> (r: String)
    requires
        from <= to <= chars@.len(),
    ensures
        r@ == chars@.subrange(from as int, to as int),
{
    let mut r = String::new();
    let mut i: usize = from;
    assert(r@ =~= chars@.subrange(from as int, from as int));
    while i < to
        invariant
            from <= i <= to <= chars@.len(),
            r@ == chars@.subrange(from as int, i as int),
        decreases to - i,
    {
        r.push(chars[i]);
        assert(chars@.subrange(from as int, i as int).push(chars@[i as int]) =~= chars@.subrange(
            from as int,
            i + 1,
        ));
        i = i + 1;
    }
    r
}

/// Whether two texts are the same.
pub fn same_text(a: &str, b: &str) -> (r: bool)
    ensures
        r == (a@ == b@),
{
    a.to_owned() == b.to_owned()
}

/// A text without the run of `c` at its end.
pub open spec fn trimmed_end(s: Seq<char>, c: char) -> Seq<char>
    decreases s.len(),
{
    if s.len() > 0 && s.last() == c {
        trimmed_end(s.drop_last(), c)
    } else {
        s
    }
}

/// Removes every `c` at the end of a text.
pub fn trim_end_char(s: &str, c: char) -> (r: String)
    ensures
        r@ == trimmed_end(s@, c),
{
    let chars = chars_of(s);
    let mut n: usize = chars.len();
    assert(s@.take(n as int) =~= s@);
    while n > 0 && chars[n - 1] == c
        invariant
            n <= chars@.len(),
            chars@ == s@,
            trimmed_end(s@.take(n as int), c) == trimmed_end(s@, c),
        decreases n,
    {
        assert(s@.take(n as int).last() == c);
        assert(s@.take(n as int).drop_last() =~= s@.take(n - 1));
        n = n - 1;
    }
    proof {
        if n > 0 {
            assert(s@.take(n as int).last() == chars@[n - 1]);
        }
        assert(s@.subrange(0, n as int) =~= s@.take(n as int));
    }
    range_of(&chars, 0, n)
}

/// Trimming leaves no `c` at the end, takes nothing but `c` away, and trimming
/// again changes nothing.
pub proof fn law_trimmed_end(s: Seq<char>, c: char)
    ensures
        trimmed_end(s, c).len() <= s.len(),
        trimmed_end(s, c) == s.take(trimmed_end(s, c).len() as int),
        forall|i: int| trimmed_end(s, c).len() <= i < s.len() ==> s[i] == c,
        trimmed_end(s, c).len() > 0 ==> trimmed_end(s, c).last() != c,
        trimmed_end(trimmed_end(s, c), c) == trimmed_end(s, c),
    decreases s.len(),
{
    if s.len() > 0 && s.last() == c {
        law_trimmed_end(s.drop_last(), c);
        let t = trimmed_end(s, c);
        assert(s.drop_last().take(t.len() as int) =~= s.take(t.len() as int));
        assert forall|i: int| t.len() <= i < s.len() implies s[i] == c by {
            if i < s.len() - 1 {
                assert(s.drop_last()[i] == c);
            }
        }
    } else {
        assert(s.take(s.len() as int) =~= s);
    }
}

/// One more `c` behind a text changes nothing of what trimming gives.
pub proof fn law_trimmed_end_ignores_one_more(s: Seq<char>, c: char)
    ensures
        trimmed_end(s.push(c), c) == trimmed_end(s, c),
{
    assert(s.push(c).drop_last() =~= s);
}

/// The digit for a number below ten.
pub open spec fn digit(n: nat) -> char {
    (('0' as u32) + n) as char
}

/// The decimal numeral of a number, without leading zeros.
pub open spec fn decimal(n: nat) -> Seq<char>
    decreases n,
{
    if n < 10 {
        seq![digit(n)]
    } else {
        decimal(n / 10).push(digit(n % 10))
    }
}

/// The number that a row of digits stands for.
pub open spec fn decimal_value(s: Seq<char>) -> int
    decreases s.len(),
{
    if s.len() == 0 {
        0
    } else {
        decimal_value(s.drop_last()) * 10 + (s.last() as u32 - '0' as u32)
    }
}

fn digit_of(n: u32) -> (r: char)
    requires
        n < 10,
    ensures
        r == digit(n as nat),
{
    let b: u8 = 48 + n as u8;
    b as char
}

/// Writes a number in decimal.
pub fn decimal_of(n: u32) -> (r: String)
    ensures
        r@ == decimal(n as nat),
    decreases n,
{
    if n < 10 {
        let mut r = String::new();
        r.push(digit_of(n));
        assert(r@ =~= decimal(n as nat));
        r
    } else {
        let mut r = decimal_of(n / 10);
        r.push(digit_of(n % 10));
        r
    }
}

/// A decimal numeral is made of digits alone, and stands for the number that it
/// was written for.
pub proof fn law_decimal_reads_back(n: nat)
    ensures
        decimal(n).len() >= 1,
        forall|i: int| 0 <= i < decimal(n).len() ==> '0' <= #[trigger] decimal(n)[i] <= '9',
        decimal_value(decimal(n)) == n,
    decreases n,
{
    reveal_with_fuel(decimal_value, 2);
    if n < 10 {
        assert(decimal(n).drop_last() =~= Seq::<char>::empty());
    } else {
        law_decimal_reads_back(n / 10);
        assert(decimal(n).drop_last() =~= decimal(n / 10));
    }
}

/// Two numbers with the same numeral are the same.
pub proof fn law_decimal_is_injective(m: nat, n: nat)
    requires
        decimal(m) == decimal(n),
    ensures
        m == n,
{
    law_decimal_reads_back(m);
    law_decimal_reads_back(n);
}

/// The lower-case hexadecimal digit for a number below sixteen.
pub open spec fn hex_digit(n: nat) -> char {
    if n < 10 {
        digit(n)
    } else {
        (('a' as u32) + n - 10) as char
    }
}

/// Two lower-case hexadecimal digits for each byte, in order.
pub open spec fn hex(bytes: Seq<u8>) -> Seq<char> {
    Seq::new(
        2 * bytes.len(),
        |i: int|
            if i % 2 == 0 {
                hex_digit((bytes[i / 2] / 16) as nat)
            } else {
                hex_digit((bytes[i / 2] % 16) as nat)
            },
    )
}

fn hex_digit_of(n: u8) -> (r: char)
    requires
        n < 16,
    ensures
        r == hex_digit(n as nat),
{
    if n < 10 {
        digit_of(n as u32)
    } else {
        let b: u8 = 97 + (n - 10);
        b as char
    }
}

/// Writes bytes in hexadecimal.
pub fn hex_of(bytes: &Vec<u8>) -> (r: String)
    ensures
        r@ == hex(bytes@),
{
    let mut r = String::new();
    let mut i: usize = 0;
    assert(r@ =~= hex(bytes@.take(0)));
    while i < bytes.len()
        invariant
            i <= bytes@.len(),
            r@ == hex(bytes@.take(i as int)),
        decreases bytes@.len() - i,
    {
        let b = bytes[i];
        r.push(hex_digit_of(b / 16));
        r.push(hex_digit_of(b % 16));
        assert(r@ =~= hex(bytes@.take(i + 1)));
        i = i + 1;
    }
    assert(bytes@.take(bytes@.len() as int) =~= bytes@);
    r
}

/// Hexadecimal text is twice as long as the bytes, holds only `0` to `9` and `a`
/// to `f`, and two different byte strings never share it.
pub proof fn law_hex_is_faithful(a: Seq<u8>, b: Seq<u8>)
    ensures
        hex(a).len() == 2 * a.len(),
        forall|i: int|
            0 <= i < hex(a).len() ==> ('0' <= #[trigger] hex(a)[i] <= '9' || 'a' <= hex(a)[i]
                <= 'f'),
        hex(a) == hex(b) ==> a == b,
{
    if hex(a) == hex(b) {
        assert(hex(a).len() == 2 * a.len() && hex(b).len() == 2 * b.len());
        assert forall|k: int| 0 <= k < a.len() implies a[k] == b[k] by {
            assert(hex(a)[2 * k] == hex(b)[2 * k]);
            assert(hex(a)[2 * k + 1] == hex(b)[2 * k + 1]);
        }
        assert(a =~= b);
    }
}

/// The file name without its extension: all of it where no dot stands behind the
/// first character, and what comes before the last dot otherwise.
pub open spec fn stem(name: Seq<char>) -> Seq<char> {
    match name.index_of_last('.') {
        Some(i) => if i > 0 {
            name.take(i)
        } else {
            name
        },
        None => name,
    }
}

/// Where a character stands first in a text.
pub fn find_first(chars: &Vec<char>, c: char) -> (r: Option<usize>)
    ensures
        match r {
            Some(i) => chars@.index_of_first(c) == Some(i as int),
            None => chars@.index_of_first(c) is None,
        },
{
    let mut i: usize = 0;
    while i < chars.len()
        invariant
            i <= chars@.len(),
            forall|k: int| 0 <= k < i ==> chars@[k] != c,
        decreases chars@.len() - i,
    {
        if chars[i] == c {
            proof {
                chars@.index_of_first_ensures(c);
                assert(chars@.contains(c));
            }
            return Some(i);
        }
        i = i + 1;
    }
    proof {
        chars@.index_of_first_ensures(c);
    }
    None
}

/// Takes the extension off a file name.
pub fn file_stem(name: &str) -> (r: String)
    ensures
        r@ == stem(name@),
{
    let chars = chars_of(name);
    let mut n: usize = chars.len();
    proof {
        name@.index_of_last_ensures('.');
    }
    while n > 0 && chars[n - 1] != '.'
        invariant
            n <= chars@.len(),
            forall|k: int| n <= k < chars@.len() ==> chars@[k] != '.',
        decreases n,
    {
        n = n - 1;
    }
    if n > 1 {
        assert(name@[n - 1] == '.');
        assert(name@.contains('.'));
        assert(name@.subrange(0, n - 1) =~= name@.take(n - 1));
        range_of(&chars, 0, n - 1)
    } else {
        string_of(&chars)
    }
}

/// Digits and numerals: a number below ten is its digit, no numeral of another number
/// begins with a zero, and the last digit of a number is what is left of it after
/// tens.
pub proof fn law_numerals(n: nat)
    ensures
        n < 10 ==> decimal(n) == seq!["0123456789"@[n as int]],
        n >= 10 ==> decimal(n) == decimal(n / 10) + seq!["0123456789"@[n as int % 10]],
        n > 0 ==> decimal(n)[0] != '0',
    decreases n,
{
    reveal_strlit("0123456789");
    if n >= 10 {
        law_numerals(n / 10);
        law_decimal_reads_back(n / 10);
        assert(decimal(n) =~= decimal(n / 10) + seq!["0123456789"@[n as int % 10]]);
    }
}

/// Each byte is two digits out of sixteen, the one for its upper half first.
pub proof fn law_hex_shows_both_halves(bytes: Seq<u8>, i: int)
    requires
        0 <= i < bytes.len(),
    ensures
        hex(bytes).len() == 2 * bytes.len(),
        hex(bytes)[2 * i] == "0123456789abcdef"@[bytes[i] as int / 16],
        hex(bytes)[2 * i + 1] == "0123456789abcdef"@[bytes[i] as int % 16],
{
    reveal_strlit("0123456789abcdef");
}

/// The extension of a file name is what stands behind its last dot: it is taken off
/// with the dot, unless nothing stands before it.
pub proof fn law_stem_drops_the_extension(base: Seq<char>, extension: Seq<char>)
    requires
        !extension.contains('.'),
    ensures
        base.len() > 0 ==> stem(base + "."@ + extension) == base,
        stem("."@ + extension) == "."@ + extension,
        stem(extension) == extension,
{
    reveal_strlit(".");
    let dotted = "."@ + extension;
    let name = base + "."@ + extension;
    extension.index_of_last_ensures('.');
    dotted.index_of_last_ensures('.');
    name.index_of_last_ensures('.');
    assert(dotted[0] == '.');
    assert(dotted.contains('.'));
    assert(name[base.len() as int] == '.');
    assert(name.contains('.'));
    let i = dotted.index_of_last('.')->0;
    if i > 0 {
        assert(dotted[i] == extension[i - 1]);
        assert(extension.contains('.'));
    }
    let k = name.index_of_last('.')->0;
    if k > base.len() {
        assert(name[k] == extension[k - base.len() - 1]);
        assert(extension.contains('.'));
    }
    assert(name.take(base.len() as int) =~= base);
}

/// However many `c` stand behind a text that does not end in one, trimming gives the
/// text.
pub proof fn law_trimmed_end_drops_all(base: Seq<char>, c: char, n: nat)
    requires
        base.len() == 0 || base.last() != c,
    ensures
        trimmed_end(base + Seq::new(n, |i: int| c), c) == base,
    decreases n,
{
    let all = base + Seq::new(n, |i: int| c);
    if n == 0 {
        assert(all =~= base);
    } else {
        let m = (n - 1) as nat;
        law_trimmed_end_drops_all(base, c, m);
        assert(all =~= (base + Seq::new(m, |i: int| c)).push(c));
        law_trimmed_end_ignores_one_more(base + Seq::new(m, |i: int| c), c);
    }
}

/// The view of a text that may be missing, and of a list of texts, shows each text.
pub proof fn law_views_show_the_texts(t: Option<String>, v: Seq<String>)
    ensures
        t matches Some(s) ==> text_view(t) == Some(s@),
        t is None ==> text_view(t) is None,
        texts_view(v).len() == v.len(),
        forall|i: int| 0 <= i < v.len() ==> #[trigger] texts_view(v)[i] == v[i]@,
{
}

} // verus!
