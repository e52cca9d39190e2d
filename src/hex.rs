//! Hexadecimal text of 64-bit words: fixed-width formatting and parsing.
use vstd::prelude::*;

verus! {

/// The lower-case hexadecimal digit of `d < 16`.
pub open spec fn digit_char(d: nat) -> char {
    if d == 0 {
        '0'
    } else if d == 1 {
        '1'
    } else if d == 2 {
        '2'
    } else if d == 3 {
        '3'
    } else if d == 4 {
        '4'
    } else if d == 5 {
        '5'
    } else if d == 6 {
        '6'
    } else if d == 7 {
        '7'
    } else if d == 8 {
        '8'
    } else if d == 9 {
        '9'
    } else if d == 10 {
        'a'
    } else if d == 11 {
        'b'
    } else if d == 12 {
        'c'
    } else if d == 13 {
        'd'
    } else if d == 14 {
        'e'
    } else {
        'f'
    }
}

/// The value of a hexadecimal digit, in either case.
pub open spec fn digit_value(c: char) -> Option<nat> {
    if '0' <= c && c <= '9' {
        Some((c as nat - '0' as nat) as nat)
    } else if 'a' <= c && c <= 'f' {
        Some((c as nat - 'a' as nat + 10) as nat)
    } else if 'A' <= c && c <= 'F' {
        Some((c as nat - 'A' as nat + 10) as nat)
    } else {
        None
    }
}

/// The `k` low hexadecimal digits of `w`, most significant first.
pub open spec fn hex_digits(w: nat, k: nat) -> Seq<char>
    decreases k,
{
    if k == 0 {
        Seq::empty()
    } else {
        hex_digits(w / 16, (k - 1) as nat).push(digit_char(w % 16))
    }
}

/// `w` as `0x` followed by sixteen lower-case hexadecimal digits.
pub open spec fn hex16_spec(w: u64) -> Seq<char> {
    seq!['0', 'x'] + hex_digits(w as nat, 16)
}

fn digit_str(d: u64) -> (r: &'static str)
    requires
        d < 16,
    ensures
        r@ == seq![digit_char(d as nat)],
{
    match d {
        0 => {
            proof {
                reveal_strlit("0");
            }
            "0"
        },
        1 => {
            proof {
                reveal_strlit("1");
            }
            "1"
        },
        2 => {
            proof {
                reveal_strlit("2");
            }
            "2"
        },
        3 => {
            proof {
                reveal_strlit("3");
            }
            "3"
        },
        4 => {
            proof {
                reveal_strlit("4");
            }
            "4"
        },
        5 => {
            proof {
                reveal_strlit("5");
            }
            "5"
        },
        6 => {
            proof {
                reveal_strlit("6");
            }
            "6"
        },
        7 => {
            proof {
                reveal_strlit("7");
            }
            "7"
        },
        8 => {
            proof {
                reveal_strlit("8");
            }
            "8"
        },
        9 => {
            proof {
                reveal_strlit("9");
            }
            "9"
        },
        10 => {
            proof {
                reveal_strlit("a");
            }
            "a"
        },
        11 => {
            proof {
                reveal_strlit("b");
            }
            "b"
        },
        12 => {
            proof {
                reveal_strlit("c");
            }
            "c"
        },
        13 => {
            proof {
                reveal_strlit("d");
            }
            "d"
        },
        14 => {
            proof {
                reveal_strlit("e");
            }
            "e"
        },
        _ => {
            proof {
                reveal_strlit("f");
            }
            "f"
        },
    }
}

fn hex_digits_exec(w: u64, k: u64) -> (r: String)
    ensures
        r@ == hex_digits(w as nat, k as nat),
    decreases k,
{
    if k == 0 {
        String::new()
    } else {
        let mut s = hex_digits_exec(w / 16, k - 1);
        s.append(digit_str(w % 16));
        s
    }
}

/// `w` as `0x` followed by sixteen lower-case hexadecimal digits.
pub fn hex16(w: u64) -> (r: String)
    ensures
        r@ == hex16_spec(w),
{
    proof {
        reveal_strlit("0x");
    }
    let mut s = String::from_str("0x");
    let digits = hex_digits_exec(w, 16);
    s.append(digits.as_str());
    s
}

/// `s` without every leading `0x`, as `str::trim_start_matches("0x")` does.
pub open spec fn strip_hex_prefix(s: Seq<char>) -> Seq<char>
    decreases s.len(),
{
    if s.len() >= 2 && s[0] == '0' && s[1] == 'x' {
        strip_hex_prefix(s.subrange(2, s.len() as int))
    } else {
        s
    }
}

/// Every character of `s` is a hexadecimal digit.
pub open spec fn all_hex_digits(s: Seq<char>) -> bool {
    forall|i: int| 0 <= i < s.len() ==> (#[trigger] digit_value(s[i])) is Some
}

/// The value of a string of hexadecimal digits.
pub open spec fn hex_value(s: Seq<char>) -> nat
    decreases s.len(),
{
    if s.len() == 0 {
        0
    } else {
        hex_value(s.drop_last()) * 16 + digit_value(s.last())->0
    }
}

/// The digits after an optional leading `+`.
pub open spec fn unsigned_digits(s: Seq<char>) -> Seq<char> {
    if s.len() > 0 && s[0] == '+' {
        s.drop_first()
    } else {
        s
    }
}

/// What `u64::from_str_radix(s, 16)` returns: an optional `+`, then at least
/// one hexadecimal digit, of a value below `2^64`.
pub open spec fn parse_hex_spec(s: Seq<char>) -> Option<u64> {
    let t = unsigned_digits(s);
    if t.len() > 0 && all_hex_digits(t) && hex_value(t) <= u64::MAX {
        Some(hex_value(t) as u64)
    } else {
        None
    }
}

proof fn lemma_hex_value_grows(s: Seq<char>, i: int, j: int)
    requires
        0 <= i <= j <= s.len(),
    ensures
        hex_value(s.subrange(0, i)) <= hex_value(s.subrange(0, j)),
    decreases j - i,
{
    if i < j {
        lemma_hex_value_grows(s, i, j - 1);
        assert(s.subrange(0, j).drop_last() =~= s.subrange(0, j - 1));
    }
}

fn strip_prefix_len(s: &str) -> (r: usize)
    ensures
        r <= s@.len(),
        s@.subrange(r as int, s@.len() as int) == strip_hex_prefix(s@),
{
    let n = s.unicode_len();
    let mut i: usize = 0;
    assert(s@.subrange(0, n as int) =~= s@);
    while n - i >= 2 && s.get_char(i) == '0' && s.get_char(i + 1) == 'x'
        invariant
            n == s@.len(),
            i <= n,
            strip_hex_prefix(s@.subrange(i as int, n as int)) == strip_hex_prefix(s@),
        decreases n - i,
    {
        assert(s@.subrange(i as int, n as int).subrange(2, (n - i) as int) =~= s@.subrange(i + 2, n as int));
        i = i + 2;
    }
    assert(s@.subrange(0, n as int) =~= s@);
    i
}

/// Parses hexadecimal text as `u64::from_str_radix(s.trim_start_matches("0x"), 16)`
/// does: every leading `0x` is dropped, then an optional `+` and at least one
/// digit must follow, of a value that fits in 64 bits.
pub fn parse_hex_u64(s: &str) -> (r: Option<u64>)
    ensures
        r == parse_hex_spec(strip_hex_prefix(s@)),
{
    let n = s.unicode_len();
    let mut i = strip_prefix_len(s);
    let ghost stripped = s@.subrange(i as int, n as int);
    if i < n && s.get_char(i) == '+' {
        i = i + 1;
    }
    let ghost t = unsigned_digits(stripped);
    assert(t =~= s@.subrange(i as int, n as int));
    if i == n {
        return None;
    }
    let start = i;
    let mut acc: u64 = 0;
    while i < n
        invariant
            start <= i <= n,
            n == s@.len(),
            t =~= s@.subrange(start as int, n as int),
            t == unsigned_digits(stripped),
            stripped == strip_hex_prefix(s@),
            all_hex_digits(t.subrange(0, i - start)),
            acc == hex_value(t.subrange(0, i - start)),
        decreases n - i,
    {
        let c = s.get_char(i);
        let d: u64 = if '0' <= c && c <= '9' {
            (c as u64) - ('0' as u64)
        } else if 'a' <= c && c <= 'f' {
            (c as u64) - ('a' as u64) + 10
        } else if 'A' <= c && c <= 'F' {
            (c as u64) - ('A' as u64) + 10
        } else {
            assert(t[(i - start) as int] == c);
            assert(digit_value(c) is None);
            assert(!all_hex_digits(t));
            assert(parse_hex_spec(stripped) is None);
            return None;
        };
        let k = i - start;
        assert(t.subrange(0, k + 1).drop_last() =~= t.subrange(0, k as int));
        if acc > (u64::MAX - d) / 16 {
            proof {
                lemma_hex_value_grows(t, k + 1, t.len() as int);
                assert(t.subrange(0, t.len() as int) =~= t);
                assert(acc * 16 + d > u64::MAX) by (nonlinear_arith)
                    requires
                        acc > (u64::MAX - d) / 16,
                        d < 16,
                ;
                assert(digit_value(c) == Some(d as nat));
                assert(hex_value(t.subrange(0, k + 1)) == acc * 16 + d);
                assert(parse_hex_spec(stripped) is None);
            }
            return None;
        }
        acc = acc * 16 + d;
        i = i + 1;
    }
    assert(t.subrange(0, t.len() as int) =~= t);
    Some(acc)
}

/// `16^k`.
pub open spec fn pow16(k: nat) -> nat
    decreases k,
{
    if k == 0 {
        1
    } else {
        16 * pow16((k - 1) as nat)
    }
}

proof fn lemma_digit_char_value(d: nat)
    requires
        d < 16,
    ensures
        digit_value(digit_char(d)) == Some(d),
        digit_char(d) != 'x',
        digit_char(d) != '+',
{
}

proof fn lemma_hex_digits(w: nat, k: nat)
    ensures
        hex_digits(w, k).len() == k,
        all_hex_digits(hex_digits(w, k)),
        forall|i: int| 0 <= i < k ==> #[trigger] hex_digits(w, k)[i] != 'x' && hex_digits(w, k)[i] != '+',
        hex_value(hex_digits(w, k)) == w % pow16(k),
    decreases k,
{
    if k > 0 {
        let d = hex_digits(w, k);
        let prev = hex_digits(w / 16, (k - 1) as nat);
        lemma_hex_digits(w / 16, (k - 1) as nat);
        lemma_digit_char_value(w % 16);
        assert(d.drop_last() =~= prev);
        assert forall|i: int| 0 <= i < k implies (#[trigger] digit_value(d[i])) is Some by {
            if i < k - 1 {
                assert(d[i] == prev[i]);
            }
        }
        assert(pow16((k - 1) as nat) > 0) by {
            lemma_pow16_pos((k - 1) as nat);
        }
        vstd::arithmetic::div_mod::lemma_breakdown(w as int, 16, pow16((k - 1) as nat) as int);
        assert(hex_value(d) == hex_value(prev) * 16 + w % 16);
        assert(hex_value(prev) * 16 == 16 * hex_value(prev)) by (nonlinear_arith);
    } else {
        assert(w % 1 == 0);
    }
}

proof fn lemma_pow16_pos(k: nat)
    ensures
        pow16(k) > 0,
    decreases k,
{
    if k > 0 {
        lemma_pow16_pos((k - 1) as nat);
    }
}

/// Reading back the formatted text of a word gives the word.
pub proof fn lemma_hex16_round_trip(w: u64)
    ensures
        parse_hex_spec(strip_hex_prefix(hex16_spec(w))) == Some(w),
{
    let s = hex16_spec(w);
    let d = hex_digits(w as nat, 16);
    lemma_hex_digits(w as nat, 16);
    assert(s.subrange(2, s.len() as int) =~= d);
    assert(d[1] != 'x');
    assert(strip_hex_prefix(d) == d);
    assert(strip_hex_prefix(s) == d);
    assert(d[0] != '+');
    assert(unsigned_digits(d) == d);
    reveal_with_fuel(pow16, 17);
    assert(pow16(16) == 0x1_0000_0000_0000_0000);
    vstd::arithmetic::div_mod::lemma_small_mod(w as nat, pow16(16));
}

} // verus!
