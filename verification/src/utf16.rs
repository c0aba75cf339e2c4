//! UTF-16, the encoding of every text that Windows hands out.

use vstd::prelude::*;

verus! {

/// `char::from_u32` of the standard library: the character with that code point,
/// and none for a surrogate or a number past the last code point.
pub assume_specification[ char::from_u32 ](i: u32) -> (r: Option<char>)
    ensures
        r is Some <==> (i < 0xD800 || 0xE000 <= i <= 0x10FFFF),
        r matches Some(c) ==> c as int == i,
;

/// A character is a code point that is no surrogate.
proof fn lemma_char_range(c: char)
    ensures
        0 <= c as int <= 0x10FFFF,
        (c as int) < 0xD800 || 0xE000 <= (c as int),
        c as u32 == c as int,
{
}

/// A unit that opens a surrogate pair.
pub open spec fn is_high(u: u16) -> bool {
    0xD800 <= u <= 0xDBFF
}

/// A unit that closes a surrogate pair.
pub open spec fn is_low(u: u16) -> bool {
    0xDC00 <= u <= 0xDFFF
}

/// The character of a surrogate pair.
pub open spec fn pair_char(h: u16, l: u16) -> char {
    (0x10000 + (h - 0xD800) * 0x400 + (l - 0xDC00)) as char
}

/// The text that UTF-16 units stand for, with U+FFFD for each unit of a surrogate
/// that has no partner.
pub open spec fn utf16_lossy(u: Seq<u16>) -> Seq<char>
    decreases u.len(),
{
    if u.len() == 0 {
        seq![]
    } else if u.len() > 1 && is_high(u[0]) && is_low(u[1]) {
        seq![pair_char(u[0], u[1])] + utf16_lossy(u.skip(2))
    } else if is_high(u[0]) || is_low(u[0]) {
        seq!['\u{FFFD}'] + utf16_lossy(u.skip(1))
    } else {
        seq![u[0] as char] + utf16_lossy(u.skip(1))
    }
}

/// The one or two units of a character.
pub open spec fn utf16_units(c: char) -> Seq<u16> {
    let n = c as int;
    if n < 0x10000 {
        seq![n as u16]
    } else {
        seq![
            (0xD800 + (n - 0x10000) / 0x400) as u16,
            (0xDC00 + (n - 0x10000) % 0x400) as u16,
        ]
    }
}

/// The UTF-16 units of a text.
pub open spec fn utf16_encode(s: Seq<char>) -> Seq<u16>
    decreases s.len(),
{
    if s.len() == 0 {
        seq![]
    } else {
        utf16_encode(s.drop_last()) + utf16_units(s.last())
    }
}

/// Decodes the first `len` units of a buffer.
pub fn decode_utf16(units: &[u16], len: usize) -> (r: String)
    requires
        len <= units@.len(),
    ensures
        r@ == utf16_lossy(units@.take(len as int)),
{
    let ghost all = units@.take(len as int);
    let mut r = String::new();
    let mut i: usize = 0;
    assert(all.skip(0) =~= all);
    while i < len
        invariant
            i <= len <= units@.len(),
            all == units@.take(len as int),
            utf16_lossy(all) == r@ + utf16_lossy(all.skip(i as int)),
        decreases len - i,
    {
        let u = units[i];
        let ghost rest = all.skip(i as int);
        assert(rest[0] == u);
        if i + 1 < len && 0xD800 <= u && u <= 0xDBFF && 0xDC00 <= units[i + 1] && units[i + 1]
            <= 0xDFFF {
            let l = units[i + 1];
            assert(rest[1] == l);
            let n: u32 = 0x10000 + (u as u32 - 0xD800) * 0x400 + (l as u32 - 0xDC00);
            if let Some(c) = char::from_u32(n) {
                assert(c == pair_char(u, l));
                r.push(c);
            }
            assert(rest.skip(2) =~= all.skip(i + 2));
            assert(utf16_lossy(all) =~= r@ + utf16_lossy(all.skip(i + 2)));
            i = i + 2;
        } else {
            if 0xD800 <= u && u <= 0xDFFF {
                r.push('\u{FFFD}');
            } else if let Some(c) = char::from_u32(u as u32) {
                assert(c == u as char);
                r.push(c);
            }
            assert(rest.skip(1) =~= all.skip(i + 1));
            assert(utf16_lossy(all) =~= r@ + utf16_lossy(all.skip(i + 1)));
            i = i + 1;
        }
    }
    assert(all.skip(len as int) =~= Seq::<u16>::empty());
    r
}

/// Encodes a text and puts a zero unit behind it, as the system calls that take a
/// text want it.
pub fn null_terminated(s: &str) -> (r: Vec<u16>)
    ensures
        r@ == utf16_encode(s@).push(0),
{
    let chars = crate::text::chars_of(s);
    let mut r: Vec<u16> = Vec::new();
    let mut i: usize = 0;
    while i < chars.len()
        invariant
            i <= chars@.len(),
            chars@ == s@,
            r@ == utf16_encode(s@.take(i as int)),
        decreases chars@.len() - i,
    {
        let n: u32 = chars[i] as u32;
        proof {
            lemma_char_range(chars@[i as int]);
        }
        if n < 0x10000 {
            r.push(n as u16);
        } else {
            let h: u32 = 0xD800 + (n - 0x10000) / 0x400;
            let l: u32 = 0xDC00 + (n - 0x10000) % 0x400;
            r.push(h as u16);
            r.push(l as u16);
        }
        assert(s@.take(i + 1).drop_last() =~= s@.take(i as int));
        assert(s@.take(i + 1).last() == s@[i as int]);
        assert(r@ =~= utf16_encode(s@.take(i + 1)));
        i = i + 1;
    }
    assert(s@.take(s@.len() as int) =~= s@);
    r.push(0);
    r
}

/// Units that encode text ahead of other units decode on their own.
proof fn lemma_lossy_of_encoded_prefix(s: Seq<char>, rest: Seq<u16>)
    ensures
        utf16_lossy(utf16_encode(s) + rest) == s + utf16_lossy(rest),
    decreases s.len(),
{
    if s.len() == 0 {
        assert(utf16_encode(s) + rest =~= rest);
        assert(s + utf16_lossy(rest) =~= utf16_lossy(rest));
    } else {
        let c = s.last();
        let tail = utf16_units(c) + rest;
        assert(utf16_encode(s) + rest =~= utf16_encode(s.drop_last()) + tail);
        lemma_lossy_of_encoded_prefix(s.drop_last(), tail);
        let n = c as int;
        lemma_char_range(c);
        if n < 0x10000 {
            assert(tail[0] == n as u16);
            assert(tail.skip(1) =~= rest);
            assert(tail[0] as char == c);
        } else {
            assert(tail[0] == (0xD800 + (n - 0x10000) / 0x400) as u16);
            assert(tail[1] == (0xDC00 + (n - 0x10000) % 0x400) as u16);
            assert(is_high(tail[0]) && is_low(tail[1]));
            assert(pair_char(tail[0], tail[1]) == c);
            assert(tail.skip(2) =~= rest);
        }
        assert(utf16_lossy(tail) =~= seq![c] + utf16_lossy(rest));
        assert(s.drop_last() + (seq![c] + utf16_lossy(rest)) =~= s + utf16_lossy(rest));
    }
}

/// Decoding the encoding of a text gives the text back.
pub proof fn law_utf16_round_trip(s: Seq<char>)
    ensures
        utf16_lossy(utf16_encode(s)) == s,
{
    lemma_lossy_of_encoded_prefix(s, seq![]);
    assert(utf16_encode(s) + Seq::<u16>::empty() =~= utf16_encode(s));
    assert(s + utf16_lossy(seq![]) =~= s);
}

/// The units of a buffer up to its first zero, or all of them where none is zero.
pub open spec fn until_zero(u: Seq<u16>) -> Seq<u16> {
    match u.index_of_first(0u16) {
        Some(i) => u.take(i),
        None => u,
    }
}

/// Decodes a buffer up to its first zero unit.
pub fn decode_until_zero(units: &Vec<u16>) -> (r: String)
    ensures
        r@ == utf16_lossy(until_zero(units@)),
{
    let mut n: usize = 0;
    proof {
        units@.index_of_first_ensures(0u16);
    }
    while n < units.len() && units[n] != 0
        invariant
            n <= units@.len(),
            forall|k: int| 0 <= k < n ==> units@[k] != 0,
        decreases units@.len() - n,
    {
        n = n + 1;
    }
    proof {
        if n < units@.len() {
            assert(units@.contains(0u16));
        } else {
            assert(units@.take(n as int) =~= units@);
        }
    }
    decode_utf16(units.as_slice(), n)
}

/// No unit of a text without U+0000 is zero.
proof fn lemma_encoded_has_no_zero(s: Seq<char>)
    requires
        !s.contains('\u{0}'),
    ensures
        forall|i: int| 0 <= i < utf16_encode(s).len() ==> utf16_encode(s)[i] != 0,
    decreases s.len(),
{
    if s.len() > 0 {
        assert(!s.drop_last().contains('\u{0}')) by {
            if s.drop_last().contains('\u{0}') {
                let k = choose|k: int| 0 <= k < s.len() - 1 && s.drop_last()[k] == '\u{0}';
                assert(s[k] == '\u{0}');
            }
        }
        lemma_encoded_has_no_zero(s.drop_last());
        let c = s.last();
        assert(s[s.len() - 1] != '\u{0}');
        lemma_char_range(c);
        let head = utf16_encode(s.drop_last());
        assert forall|i: int| 0 <= i < utf16_encode(s).len() implies utf16_encode(s)[i] != 0 by {
            if i < head.len() {
                assert(utf16_encode(s)[i] == head[i]);
            } else {
                assert(utf16_encode(s)[i] == utf16_units(c)[i - head.len()]);
            }
        }
    }
}

/// A text without U+0000 survives the trip through a zero-terminated buffer,
/// whatever stands behind the terminator.
pub proof fn law_null_terminated_reads_back(s: Seq<char>, garbage: Seq<u16>)
    requires
        !s.contains('\u{0}'),
    ensures
        utf16_lossy(until_zero(utf16_encode(s).push(0) + garbage)) == s,
{
    let e = utf16_encode(s);
    let b = e.push(0) + garbage;
    lemma_encoded_has_no_zero(s);
    assert(b[e.len() as int] == 0);
    assert(b.contains(0u16));
    b.index_of_first_ensures(0u16);
    assert forall|k: int| 0 <= k < e.len() implies b[k] != 0 by {
        assert(b[k] == e[k]);
    }
    assert(b.take(e.len() as int) =~= e);
    law_utf16_round_trip(s);
}

/// A text without U+0000 that fills its buffer, with no zero behind it, is read whole.
pub proof fn law_unterminated_reads_back(s: Seq<char>)
    requires
        !s.contains('\u{0}'),
    ensures
        utf16_lossy(until_zero(utf16_encode(s))) == s,
{
    let e = utf16_encode(s);
    lemma_encoded_has_no_zero(s);
    e.index_of_first_ensures(0u16);
    law_utf16_round_trip(s);
}

/// Text ahead of other units is read as it is, and the units behind it as if they
/// stood alone.
pub proof fn law_text_is_read_ahead_of_anything(s: Seq<char>, rest: Seq<u16>)
    ensures
        utf16_lossy(utf16_encode(s) + rest) == s + utf16_lossy(rest),
{
    lemma_lossy_of_encoded_prefix(s, rest);
}

/// Half a surrogate pair is read as U+FFFD and costs no other unit: an upper half
/// before anything but a lower half, and a lower half with no upper half before it.
pub proof fn law_lone_surrogates_are_replaced(u: u16, rest: Seq<u16>)
    ensures
        0xDC00 <= u <= 0xDFFF ==> utf16_lossy(seq![u] + rest) == seq!['\u{FFFD}'] + utf16_lossy(
            rest,
        ),
        0xD800 <= u <= 0xDBFF && (rest.len() == 0 || !(0xDC00 <= rest[0] <= 0xDFFF))
            ==> utf16_lossy(seq![u] + rest) == seq!['\u{FFFD}'] + utf16_lossy(rest),
{
    let all = seq![u] + rest;
    assert(all.skip(1) =~= rest);
    if rest.len() > 0 {
        assert(all[1] == rest[0]);
    }
}

/// A character below U+10000 is one unit with its number. Any other is a pair, with
/// ten bits of the number less 0x10000 in each half.
pub proof fn law_units_of_a_character(c: char)
    ensures
        (c as int) < 0x1_0000 ==> utf16_units(c).len() == 1 && utf16_units(c)[0] == c as int,
        (c as int) >= 0x1_0000 ==> {
            &&& utf16_units(c).len() == 2
            &&& 0xD800 <= utf16_units(c)[0] <= 0xDBFF
            &&& 0xDC00 <= utf16_units(c)[1] <= 0xDFFF
            &&& (utf16_units(c)[0] - 0xD800) * 0x400 + (utf16_units(c)[1] - 0xDC00) + 0x1_0000
                == c as int
        },
        utf16_encode(seq![c]) == utf16_units(c),
{
    lemma_char_range(c);
    reveal_with_fuel(utf16_encode, 2);
    assert(seq![c].drop_last() =~= Seq::<char>::empty());
    assert(utf16_encode(seq![c]) =~= utf16_units(c));
}

/// The units of two texts are those of the first and those of the second.
pub proof fn law_texts_are_encoded_one_by_one(s: Seq<char>, t: Seq<char>)
    ensures
        utf16_encode(s + t) == utf16_encode(s) + utf16_encode(t),
    decreases t.len(),
{
    if t.len() == 0 {
        assert(s + t =~= s);
        assert(utf16_encode(s) + utf16_encode(t) =~= utf16_encode(s));
    } else {
        assert((s + t).drop_last() =~= s + t.drop_last());
        law_texts_are_encoded_one_by_one(s, t.drop_last());
        assert(utf16_encode(s + t) =~= utf16_encode(s) + utf16_encode(t));
    }
}

} // verus!
