//! The request identifier: a 128-bit value used as the correlation key
//! between a hook connection and the chat dialog. In chat callback payloads
//! it travels in the canonical 36-character hyphenated hexadecimal form.

use vstd::arithmetic::div_mod::lemma_fundamental_div_mod;
use vstd::arithmetic::div_mod::lemma_fundamental_div_mod_converse_div;
use vstd::arithmetic::div_mod::lemma_fundamental_div_mod_converse_mod;
use vstd::prelude::*;
use vstd::string::StrSliceExecFns;
use vstd::string::StringExecFns;

verus! {

/// The character for one hexadecimal digit, lower case.
pub open spec fn hex_digit(d: int) -> char {
    if d == 0 {
        '0'
    } else if d == 1 {
        '1'
    } else if d == 2 {
        '2'
    } else if d == 3 {
        '3'
    } else if d == 4 {
        '4'
    } else if d == 5 {
        '5'
    } else if d == 6 {
        '6'
    } else if d == 7 {
        '7'
    } else if d == 8 {
        '8'
    } else if d == 9 {
        '9'
    } else if d == 10 {
        'a'
    } else if d == 11 {
        'b'
    } else if d == 12 {
        'c'
    } else if d == 13 {
        'd'
    } else if d == 14 {
        'e'
    } else {
        'f'
    }
}

/// Sixteen to the `n`th power: the number of `n`-digit hexadecimal values.
pub open spec fn pow16(n: nat) -> int
    decreases n,
{
    if n == 0 {
        1
    } else {
        16 * pow16((n - 1) as nat)
    }
}

proof fn lemma_pow16_le(m: nat, n: nat)
    requires
        m <= n,
    ensures
        1 <= pow16(m) <= pow16(n),
    decreases n,
{
    if n > 0 {
        if m == n {
            lemma_pow16_le((m - 1) as nat, (n - 1) as nat);
        } else {
            lemma_pow16_le(m, (n - 1) as nat);
        }
    }
}

/// The `n` low hexadecimal digits of `v`, most significant first.
pub open spec fn hex_rec(v: int, n: nat) -> Seq<int>
    decreases n,
{
    if n == 0 {
        Seq::empty()
    } else {
        hex_rec(v / 16, (n - 1) as nat).push(v % 16)
    }
}

/// Whether position `p` of the canonical form holds a hyphen.
pub open spec fn uuid_hyphen_at(p: int) -> bool {
    p == 8 || p == 13 || p == 18 || p == 23
}

/// Which of the 32 hexadecimal digits stands at position `p`.
pub open spec fn uuid_digit_index(p: int) -> int {
    if p < 8 {
        p
    } else if p < 13 {
        p - 1
    } else if p < 18 {
        p - 2
    } else if p < 23 {
        p - 3
    } else {
        p - 4
    }
}

/// The canonical 36-character hyphenated hexadecimal form of an identifier:
/// 32 lower-case hex digits with hyphens after digits 8, 12, 16 and 20.
pub open spec fn uuid_chars(id: u128) -> Seq<char> {
    Seq::new(
        36,
        |p: int|
            if uuid_hyphen_at(p) {
                '-'
            } else {
                hex_digit(hex_rec(id as int, 32)[uuid_digit_index(p)])
            },
    )
}

proof fn lemma_hex_rec_in_range(v: int, n: nat)
    requires
        v >= 0,
    ensures
        hex_rec(v, n).len() == n,
        forall|j: int| 0 <= j < n ==> 0 <= #[trigger] hex_rec(v, n)[j] < 16,
    decreases n,
{
    if n > 0 {
        lemma_hex_rec_in_range(v / 16, (n - 1) as nat);
    }
}

proof fn lemma_hex_rec_injective(v1: int, v2: int, n: nat)
    requires
        0 <= v1 < pow16(n),
        0 <= v2 < pow16(n),
        hex_rec(v1, n) == hex_rec(v2, n),
    ensures
        v1 == v2,
    decreases n,
{
    if n == 0 {
    } else {
        let m = (n - 1) as nat;
        assert(pow16(n) == 16 * pow16(m));
        lemma_fundamental_div_mod(v1, 16);
        lemma_fundamental_div_mod(v2, 16);
        assert(v1 / 16 < pow16(m)) by {
            if v1 / 16 >= pow16(m) {
                assert(16 * (v1 / 16) >= 16 * pow16(m)) by (nonlinear_arith)
                    requires
                        v1 / 16 >= pow16(m),
                ;
            }
        }
        assert(v2 / 16 < pow16(m)) by {
            if v2 / 16 >= pow16(m) {
                assert(16 * (v2 / 16) >= 16 * pow16(m)) by (nonlinear_arith)
                    requires
                        v2 / 16 >= pow16(m),
                ;
            }
        }
        assert(hex_rec(v1, n).last() == v1 % 16);
        assert(hex_rec(v1, n).drop_last() =~= hex_rec(v1 / 16, m));
        assert(hex_rec(v2, n).drop_last() =~= hex_rec(v2 / 16, m));
        lemma_hex_rec_injective(v1 / 16, v2 / 16, m);
    }
}

/// Two identifiers with the same canonical form are the same identifier:
/// the canonical form is a faithful name for the correlation key.
pub proof fn lemma_uuid_chars_injective(id1: u128, id2: u128)
    requires
        uuid_chars(id1) == uuid_chars(id2),
    ensures
        id1 == id2,
{
    assert(pow16(32) == 0x100000000000000000000000000000000) by {
        reveal_with_fuel(pow16, 33);
    }
    lemma_hex_rec_in_range(id1 as int, 32);
    lemma_hex_rec_in_range(id2 as int, 32);
    assert(hex_rec(id1 as int, 32) =~= hex_rec(id2 as int, 32)) by {
        assert(forall|j: int|
            0 <= j < 32 ==> #[trigger] hex_rec(id1 as int, 32)[j] == hex_rec(id2 as int, 32)[j])
            by {
            assert forall|j: int| 0 <= j < 32 implies #[trigger] hex_rec(id1 as int, 32)[j]
                == hex_rec(id2 as int, 32)[j] by {
                let p = if j < 8 {
                    j
                } else if j < 12 {
                    j + 1
                } else if j < 16 {
                    j + 2
                } else if j < 20 {
                    j + 3
                } else {
                    j + 4
                };
                assert(!uuid_hyphen_at(p) && uuid_digit_index(p) == j);
                let d1 = hex_rec(id1 as int, 32)[j];
                let d2 = hex_rec(id2 as int, 32)[j];
                assert(uuid_chars(id1)[p] == hex_digit(d1));
                assert(uuid_chars(id2)[p] == hex_digit(d2));
                assert(0 <= d1 < 16 && 0 <= d2 < 16);
                assert(d1 == d2);
            }
        }
    }
    lemma_hex_rec_injective(id1 as int, id2 as int, 32);
}

fn hex_digits_of(v: u128, n: usize) -> (r: Vec<u8>)
    ensures
        r@.len() == n,
        forall|j: int| 0 <= j < n ==> #[trigger] r@[j] as int == hex_rec(v as int, n as nat)[j],
    decreases n,
{
    if n == 0 {
        Vec::new()
    } else {
        let mut r = hex_digits_of(v / 16, n - 1);
        let ghost r0 = r@;
        r.push((v % 16) as u8);
        proof {
            lemma_hex_rec_in_range(v as int / 16, (n - 1) as nat);
            assert forall|j: int| 0 <= j < n implies #[trigger] r@[j] as int == hex_rec(
                v as int,
                n as nat,
            )[j] by {
                assert(hex_rec(v as int, n as nat) == hex_rec(v as int / 16, (n - 1) as nat).push(
                    v as int % 16,
                ));
                assert((v / 16) as int == v as int / 16);
                if j < n - 1 {
                    assert(r@[j] == r0[j]);
                    assert(r0[j] as int == hex_rec((v / 16) as int, (n - 1) as nat)[j]);
                } else {
                    assert(r@[j] as int == v as int % 16);
                }
            }
        }
        r
    }
}

/// Relies on uuid::Uuid::new_v4, read out with uuid::Uuid::as_u128: a fresh
/// random version-4 identifier. Of a random value nothing more is promised.
#[verifier::external_body]
pub fn fresh_request_id() -> u128 {
    uuid::Uuid::new_v4().as_u128()
}

pub(crate) fn hex_char_of(d: u8) -> (r: &'static str)
    requires
        d < 16,
    ensures
        r@ == seq![hex_digit(d as int)],
{
    let r: &'static str = if d == 0 {
        proof {
            reveal_strlit("0");
        }
        "0"
    } else if d == 1 {
        proof {
            reveal_strlit("1");
        }
        "1"
    } else if d == 2 {
        proof {
            reveal_strlit("2");
        }
        "2"
    } else if d == 3 {
        proof {
            reveal_strlit("3");
        }
        "3"
    } else if d == 4 {
        proof {
            reveal_strlit("4");
        }
        "4"
    } else if d == 5 {
        proof {
            reveal_strlit("5");
        }
        "5"
    } else if d == 6 {
        proof {
            reveal_strlit("6");
        }
        "6"
    } else if d == 7 {
        proof {
            reveal_strlit("7");
        }
        "7"
    } else if d == 8 {
        proof {
            reveal_strlit("8");
        }
        "8"
    } else if d == 9 {
        proof {
            reveal_strlit("9");
        }
        "9"
    } else if d == 10 {
        proof {
            reveal_strlit("a");
        }
        "a"
    } else if d == 11 {
        proof {
            reveal_strlit("b");
        }
        "b"
    } else if d == 12 {
        proof {
            reveal_strlit("c");
        }
        "c"
    } else if d == 13 {
        proof {
            reveal_strlit("d");
        }
        "d"
    } else if d == 14 {
        proof {
            reveal_strlit("e");
        }
        "e"
    } else {
        proof {
            reveal_strlit("f");
        }
        "f"
    };
    proof {
        assert(r@ =~= seq![hex_digit(d as int)]);
    }
    r
}

/// Renders an identifier in its canonical 36-character hyphenated form,
/// the shape embedded in chat callback payloads.
pub fn format_request_id(id: u128) -> (r: String)
    ensures
        r@ == uuid_chars(id),
        r@.len() == 36,
{
    let digits = hex_digits_of(id, 32);
    proof {
        lemma_hex_rec_in_range(id as int, 32);
    }
    let mut r = String::new();
    let mut p: usize = 0;
    while p < 36
        invariant
            0 <= p <= 36,
            digits@.len() == 32,
            forall|j: int|
                0 <= j < 32 ==> #[trigger] digits@[j] as int == hex_rec(id as int, 32 as nat)[j],
            forall|j: int| 0 <= j < 32 ==> 0 <= #[trigger] hex_rec(id as int, 32 as nat)[j] < 16,
            r@ == uuid_chars(id).take(p as int),
        decreases 36 - p,
    {
        if p == 8 || p == 13 || p == 18 || p == 23 {
            r.append("-");
            proof {
                reveal_strlit("-");
                assert("-"@ =~= seq!['-']);
            }
        } else {
            let di = if p < 8 {
                p
            } else if p < 13 {
                p - 1
            } else if p < 18 {
                p - 2
            } else if p < 23 {
                p - 3
            } else {
                p - 4
            };
            let c = hex_char_of(digits[di]);
            r.append(c);
        }
        proof {
            assert(uuid_chars(id).take(p as int + 1) =~= uuid_chars(id).take(p as int) + seq![
                uuid_chars(id)[p as int],
            ]);
        }
        p = p + 1;
    }
    proof {
        assert(uuid_chars(id).take(36) =~= uuid_chars(id));
    }
    r
}

fn hex_val(c: char) -> (r: Option<u8>)
    ensures
        match r {
            Some(d) => d < 16 && hex_digit(d as int) == c,
            None => forall|d: int| 0 <= d < 16 ==> hex_digit(d) != c,
        },
{
    if c == '0' {
        Some(0)
    } else if c == '1' {
        Some(1)
    } else if c == '2' {
        Some(2)
    } else if c == '3' {
        Some(3)
    } else if c == '4' {
        Some(4)
    } else if c == '5' {
        Some(5)
    } else if c == '6' {
        Some(6)
    } else if c == '7' {
        Some(7)
    } else if c == '8' {
        Some(8)
    } else if c == '9' {
        Some(9)
    } else if c == 'a' {
        Some(10)
    } else if c == 'b' {
        Some(11)
    } else if c == 'c' {
        Some(12)
    } else if c == 'd' {
        Some(13)
    } else if c == 'e' {
        Some(14)
    } else if c == 'f' {
        Some(15)
    } else {
        None
    }
}

/// Reads an identifier from its canonical 36-character hyphenated form.
/// Returns the identifier exactly when the text is such a form, and
/// nothing on any other text.
pub fn parse_request_id(s: &str) -> (r: Option<u128>)
    ensures
        match r {
            Some(id) => s@ == uuid_chars(id),
            None => forall|id: u128| s@ != uuid_chars(id),
        },
{
    let n = s.unicode_len();
    if n != 36 {
        proof {
            assert(forall|id: u128| #[trigger] uuid_chars(id).len() == 36);
        }
        return None;
    }
    let mut v: u128 = 0;
    let mut p: usize = 0;
    let mut k: usize = 0;
    proof {
        assert(pow16(32) == 0x100000000000000000000000000000000) by {
            reveal_with_fuel(pow16, 33);
        }
    }
    loop
        invariant
            s@.len() == 36,
            0 <= p <= 36,
            k == (if p <= 8 {
                p as int
            } else if p <= 13 {
                p - 1
            } else if p <= 18 {
                p - 2
            } else if p <= 23 {
                p - 3
            } else {
                p - 4
            }),
            0 <= k <= 32,
            v < pow16(k as nat),
            pow16(32) == 0x100000000000000000000000000000000,
            hex_rec(v as int, k as nat).len() == k,
            forall|q: int| 0 <= q < p && !uuid_hyphen_at(q) ==> uuid_digit_index(q) < k,
            forall|q: int|
                0 <= q < p ==> (if uuid_hyphen_at(q) {
                    s@[q] == '-'
                } else {
                    s@[q] == hex_digit(hex_rec(v as int, k as nat)[uuid_digit_index(q)])
                }),
        ensures
            p == 36,
            k == 32,
            forall|q: int|
                0 <= q < 36 ==> (if uuid_hyphen_at(q) {
                    s@[q] == '-'
                } else {
                    s@[q] == hex_digit(hex_rec(v as int, 32)[uuid_digit_index(q)])
                }),
        decreases 36 - p,
    {
        if p == 36 {
            break;
        }
        let c = s.get_char(p);
        if p == 8 || p == 13 || p == 18 || p == 23 {
            if c != '-' {
                proof {
                    assert forall|id: u128| s@ != uuid_chars(id) by {
                        assert(uuid_chars(id)[p as int] == '-');
                    }
                }
                return None;
            }
        } else {
            let d = match hex_val(c) {
                Some(d) => d,
                None => {
                    proof {
                        assert forall|id: u128| s@ != uuid_chars(id) by {
                            lemma_hex_rec_in_range(id as int, 32);
                            assert(uuid_chars(id)[p as int] == hex_digit(
                                hex_rec(id as int, 32)[uuid_digit_index(p as int)],
                            ));
                        }
                    }
                    return None;
                },
            };
            proof {
                assert(pow16((k + 1) as nat) == 16 * pow16(k as nat));
                assert(v * 16 + d < 16 * pow16(k as nat)) by (nonlinear_arith)
                    requires
                        v < pow16(k as nat),
                        d < 16,
                        v >= 0,
                ;
                assert(16 * pow16(k as nat) <= pow16(32)) by {
                    lemma_pow16_le((k + 1) as nat, 32);
                }
            }
            let ghost old_v = v as int;
            let ghost old_k = k as nat;
            v = v * 16 + (d as u128);
            k = k + 1;
            proof {
                lemma_fundamental_div_mod_converse_div(v as int, 16, old_v, d as int);
                lemma_fundamental_div_mod_converse_mod(v as int, 16, old_v, d as int);
                assert(hex_rec(v as int, k as nat) =~= hex_rec(old_v, old_k).push(d as int));
                assert(forall|j: int|
                    0 <= j < old_k ==> #[trigger] hex_rec(v as int, k as nat)[j] == hex_rec(
                        old_v,
                        old_k,
                    )[j]);
            }
        }
        p = p + 1;
    }
    proof {
        assert(s@ =~= uuid_chars(v));
    }
    Some(v)
}

} // verus!
