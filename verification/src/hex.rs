//! Fixed-width hexadecimal numerals: what a digit is worth, what a run of
//! digits denotes, and how a number is written back at a given width.

use vstd::prelude::*;
use vstd::string::StringExecFns;

verus! {

/// Whether `c` is one of `0-9`, `a-f` or `A-F`.
pub open spec fn is_hex_digit(c: char) -> bool {
    ('0' <= c <= '9') || ('a' <= c <= 'f') || ('A' <= c <= 'F')
}

/// The value of a hexadecimal digit; 0 for any other character.
pub open spec fn hex_digit_value(c: char) -> nat {
    if '0' <= c <= '9' {
        (c as nat - '0' as nat) as nat
    } else if 'a' <= c <= 'f' {
        (c as nat - 'a' as nat + 10) as nat
    } else if 'A' <= c <= 'F' {
        (c as nat - 'A' as nat + 10) as nat
    } else {
        0
    }
}

/// Every character of `s` is a hexadecimal digit.
pub open spec fn all_hex_digits(s: Seq<char>) -> bool {
    forall|i: int| 0 <= i < s.len() ==> is_hex_digit(#[trigger] s[i])
}

/// The number that the digits of `s` denote, most significant digit first.
pub open spec fn hex_value(s: Seq<char>) -> nat
    decreases s.len(),
{
    if s.len() == 0 {
        0
    } else {
        16 * hex_value(s.drop_last()) + hex_digit_value(s.last())
    }
}

/// The value of one character as a hexadecimal digit, if it is one.
pub fn hex_digit(c: char) -> (r: Option<u8>)
    ensures
        r is Some <==> is_hex_digit(c),
        r matches Some(v) ==> v == hex_digit_value(c),
{
    if '0' <= c && c <= '9' {
        Some((c as u32 - '0' as u32) as u8)
    } else if 'a' <= c && c <= 'f' {
        Some((c as u32 - 'a' as u32 + 10) as u8)
    } else if 'A' <= c && c <= 'F' {
        Some((c as u32 - 'A' as u32 + 10) as u8)
    } else {
        None
    }
}

/// Sixteen to the power `n`.
pub open spec fn pow16(n: nat) -> nat
    decreases n,
{
    if n == 0 {
        1
    } else {
        16 * pow16((n - 1) as nat)
    }
}

/// A numeral of `n` digits denotes a number below sixteen to the `n`.
pub proof fn lemma_hex_value_bound(s: Seq<char>)
    ensures
        hex_value(s) < pow16(s.len()),
    decreases s.len(),
{
    if s.len() > 0 {
        lemma_hex_value_bound(s.drop_last());
    }
}

/// The first four powers of sixteen.
pub proof fn lemma_pow16_small()
    ensures
        pow16(0) == 1,
        pow16(1) == 16,
        pow16(2) == 256,
        pow16(3) == 4096,
        pow16(4) == 65536,
{
    reveal_with_fuel(pow16, 5);
}

/// Reads the characters `from..to` of `s` as one hexadecimal numeral of at
/// most four digits. Gives `None` exactly when one of them is no digit.
pub fn parse_hex(s: &str, from: usize, to: usize) -> (r: Option<u16>)
    requires
        from <= to <= s@.len(),
        to - from <= 4,
    ensures
        r is Some <==> all_hex_digits(s@.subrange(from as int, to as int)),
        r matches Some(v) ==> v == hex_value(s@.subrange(from as int, to as int)),
{
    let mut acc: u32 = 0;
    let mut i: usize = from;
    while i < to
        invariant
            from <= i <= to <= s@.len(),
            to - from <= 4,
            all_hex_digits(s@.subrange(from as int, i as int)),
            acc == hex_value(s@.subrange(from as int, i as int)),
        decreases to - i,
    {
        let ghost done = s@.subrange(from as int, i as int);
        let ghost next = s@.subrange(from as int, i + 1);
        proof {
            lemma_hex_value_bound(done);
            lemma_pow16_small();
            assert(next.drop_last() =~= done);
            assert(next.last() == s@[i as int]);
        }
        match hex_digit(s.get_char(i)) {
            Some(d) => {
                acc = 16 * acc + d as u32;
            },
            None => {
                proof {
                    let whole = s@.subrange(from as int, to as int);
                    assert(whole[i - from] == s@[i as int]);
                }
                return None;
            },
        }
        i = i + 1;
        proof {
            assert forall|k: int| 0 <= k < next.len() implies is_hex_digit(#[trigger] next[k]) by {
                if k < done.len() {
                    assert(next[k] == done[k]);
                }
            }
        }
    }
    proof {
        lemma_hex_value_bound(s@.subrange(from as int, to as int));
        lemma_pow16_small();
    }
    Some(acc as u16)
}

/// The lower-case digit that stands for `v`, for `v` below sixteen.
pub open spec fn hex_digit_char(v: nat) -> char {
    if v < 10 {
        ('0' as u8 + v) as char
    } else {
        ('a' as u8 + (v - 10)) as char
    }
}

/// `c` in lower case, if it is an upper-case ASCII letter; else `c` itself.
pub open spec fn to_lower(c: char) -> char {
    if 'A' <= c <= 'Z' {
        (c as u8 + 32) as char
    } else {
        c
    }
}

/// `s` with every upper-case ASCII letter in lower case.
pub open spec fn lower(s: Seq<char>) -> Seq<char> {
    Seq::new(s.len(), |i: int| to_lower(s[i]))
}

/// `n` written with exactly `width` lower-case digits, most significant
/// first; digits beyond the width are dropped.
pub open spec fn hex_digits(n: nat, width: nat) -> Seq<char>
    decreases width,
{
    if width == 0 {
        Seq::empty()
    } else {
        hex_digits(n / 16, (width - 1) as nat).push(hex_digit_char(n % 16))
    }
}

/// Case does not change what a character is worth as a digit.
pub proof fn lemma_to_lower_digit(c: char)
    ensures
        is_hex_digit(to_lower(c)) == is_hex_digit(c),
        hex_digit_value(to_lower(c)) == hex_digit_value(c),
        is_hex_digit(c) ==> hex_digit_char(hex_digit_value(c)) == to_lower(c),
{
}

/// Writing a digit's value gives a digit of that value.
pub proof fn lemma_hex_digit_char(v: nat)
    requires
        v < 16,
    ensures
        is_hex_digit(hex_digit_char(v)),
        hex_digit_value(hex_digit_char(v)) == v,
        to_lower(hex_digit_char(v)) == hex_digit_char(v),
{
}

/// Case does not change whether a numeral is well formed, nor its value.
pub proof fn lemma_lower_value(s: Seq<char>)
    ensures
        all_hex_digits(lower(s)) == all_hex_digits(s),
        hex_value(lower(s)) == hex_value(s),
    decreases s.len(),
{
    assert forall|i: int| 0 <= i < s.len() implies is_hex_digit(#[trigger] lower(s)[i])
        == is_hex_digit(s[i]) by {
        lemma_to_lower_digit(s[i]);
    }
    if all_hex_digits(s) {
        assert(all_hex_digits(lower(s)));
    } else {
        let i = choose|i: int| 0 <= i < s.len() && !is_hex_digit(#[trigger] s[i]);
        assert(!is_hex_digit(lower(s)[i]));
    }
    if s.len() > 0 {
        lemma_lower_value(s.drop_last());
        assert(lower(s).drop_last() =~= lower(s.drop_last()));
        lemma_to_lower_digit(s.last());
    }
}

/// Reading a numeral and writing its value at the numeral's own width gives
/// the numeral back, in lower case.
pub proof fn lemma_read_then_write(s: Seq<char>)
    requires
        all_hex_digits(s),
    ensures
        hex_digits(hex_value(s), s.len()) == lower(s),
    decreases s.len(),
{
    if s.len() == 0 {
        assert(hex_digits(hex_value(s), s.len()) =~= lower(s));
    } else {
        let head = s.drop_last();
        let d = hex_digit_value(s.last());
        assert(is_hex_digit(s.last()));
        assert(all_hex_digits(head)) by {
            assert forall|i: int| 0 <= i < head.len() implies is_hex_digit(#[trigger] head[i]) by {
                assert(head[i] == s[i]);
            }
        }
        lemma_read_then_write(head);
        lemma_to_lower_digit(s.last());
        assert(d < 16);
        assert(hex_value(s) == 16 * hex_value(head) + d);
        assert(hex_value(s) / 16 == hex_value(head) && hex_value(s) % 16 == d);
        assert(hex_digits(hex_value(s), s.len()) =~= lower(s));
    }
}

/// Writing a number at a width that holds it and reading the digits gives
/// the number back.
pub proof fn lemma_write_then_read(n: nat, width: nat)
    requires
        n < pow16(width),
    ensures
        hex_digits(n, width).len() == width,
        all_hex_digits(hex_digits(n, width)),
        hex_value(hex_digits(n, width)) == n,
        lower(hex_digits(n, width)) == hex_digits(n, width),
    decreases width,
{
    if width == 0 {
        assert(lower(hex_digits(n, width)) =~= hex_digits(n, width));
    } else {
        let w = (width - 1) as nat;
        let head = hex_digits(n / 16, w);
        let all = hex_digits(n, width);
        assert(n / 16 < pow16(w));
        lemma_write_then_read(n / 16, w);
        lemma_hex_digit_char(n % 16);
        assert(all.drop_last() =~= head);
        assert(all.last() == hex_digit_char(n % 16));
        assert forall|i: int| 0 <= i < all.len() implies is_hex_digit(#[trigger] all[i]) by {
            if i < head.len() {
                assert(all[i] == head[i]);
            }
        }
        assert forall|i: int| 0 <= i < all.len() implies to_lower(#[trigger] all[i]) == all[i] by {
            if i < head.len() {
                assert(all[i] == head[i]);
                assert(lower(head)[i] == to_lower(head[i]));
            }
        }
        assert(lower(all) =~= all);
    }
}

/// The lower-case digit for `v` as a string of one character.
fn digit_str(v: u8) -> (s: &'static str)
    requires
        v < 16,
    ensures
        s@ == seq![hex_digit_char(v as nat)],
{
    proof {
        reveal_strlit("0");
        reveal_strlit("1");
        reveal_strlit("2");
        reveal_strlit("3");
        reveal_strlit("4");
        reveal_strlit("5");
        reveal_strlit("6");
        reveal_strlit("7");
        reveal_strlit("8");
        reveal_strlit("9");
        reveal_strlit("a");
        reveal_strlit("b");
        reveal_strlit("c");
        reveal_strlit("d");
        reveal_strlit("e");
        reveal_strlit("f");
    }
    let s = match v {
        0 => "0",
        1 => "1",
        2 => "2",
        3 => "3",
        4 => "4",
        5 => "5",
        6 => "6",
        7 => "7",
        8 => "8",
        9 => "9",
        10 => "a",
        11 => "b",
        12 => "c",
        13 => "d",
        14 => "e",
        _ => "f",
    };
    assert(s@ =~= seq![hex_digit_char(v as nat)]);
    s
}

/// Appends `n` to `out`, written with exactly `width` lower-case digits.
pub fn append_hex(out: &mut String, n: u16, width: usize)
    ensures
        final(out)@ == old(out)@ + hex_digits(n as nat, width as nat),
    decreases width,
{
    if width > 0 {
        append_hex(out, n / 16, width - 1);
        out.append(digit_str((n % 16) as u8));
        assert(out@ =~= old(out)@ + hex_digits(n as nat, width as nat));
    } else {
        assert(out@ =~= old(out)@ + hex_digits(n as nat, width as nat));
    }
}

} // verus!
