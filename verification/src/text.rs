//! Text rules shared by the chat formatter and the hook: byte-bounded
//! truncation on character boundaries, HTML escaping, and human-readable
//! byte sizes.

use vstd::prelude::*;
use vstd::string::StrSliceExecFns;
use vstd::string::StringExecFns;
use vstd::utf8::encode_scalar;
use vstd::utf8::encode_utf8;

verus! {

/// Byte budget for the assistant-context excerpt shown inline in the chat.
pub const MAX_ASSISTANT_CONTEXT_CHARS: usize = 500;

/// How many bytes the UTF-8 encoding of one character takes.
pub open spec fn char_bytes(c: char) -> int {
    encode_scalar(c as u32).len() as int
}

/// How many bytes the UTF-8 encoding of a character sequence takes.
pub open spec fn utf8_len(cs: Seq<char>) -> int {
    encode_utf8(cs).len() as int
}

/// The longest character prefix of `cs` whose UTF-8 encoding fits in `max`
/// bytes; this is the character index of the floor byte boundary at `max`.
pub open spec fn fit_len(cs: Seq<char>, max: int) -> int
    decreases cs.len(),
{
    if utf8_len(cs) <= max {
        cs.len() as int
    } else if cs.len() == 0 {
        0
    } else {
        fit_len(cs.drop_last(), max)
    }
}

/// Truncation keeps the text whole when its UTF-8 form fits in `max` bytes;
/// otherwise it keeps the longest fitting character prefix and appends the
/// suffix. The cut always falls on a character boundary.
pub open spec fn spec_truncate(cs: Seq<char>, max: int, suffix: Seq<char>) -> Seq<char> {
    if utf8_len(cs) <= max {
        cs
    } else {
        cs.take(fit_len(cs, max)) + suffix
    }
}

proof fn lemma_encode_concat(a: Seq<char>, b: Seq<char>)
    ensures
        encode_utf8(a + b) == encode_utf8(a) + encode_utf8(b),
    decreases a.len(),
{
    if a.len() == 0 {
        assert(a + b =~= b);
        assert(encode_utf8(a) + encode_utf8(b) =~= encode_utf8(b));
    } else {
        assert((a + b).drop_first() =~= a.drop_first() + b);
        lemma_encode_concat(a.drop_first(), b);
        assert(encode_utf8(a + b) =~= encode_utf8(a) + encode_utf8(b));
    }
}

proof fn lemma_utf8_take_step(cs: Seq<char>, k: int)
    requires
        0 <= k < cs.len(),
    ensures
        utf8_len(cs.take(k + 1)) == utf8_len(cs.take(k)) + char_bytes(cs[k]),
{
    assert(cs.take(k + 1) =~= cs.take(k) + seq![cs[k]]);
    lemma_encode_concat(cs.take(k), seq![cs[k]]);
    assert(encode_utf8(seq![cs[k]]) =~= encode_scalar(cs[k] as u32) + encode_utf8(
        seq![cs[k]].drop_first(),
    ));
    assert(seq![cs[k]].drop_first() =~= Seq::<char>::empty());
}

proof fn lemma_char_bytes_bounds(c: char)
    ensures
        1 <= char_bytes(c) <= 4,
{
}

proof fn lemma_utf8_take_monotone(cs: Seq<char>, j: int, k: int)
    requires
        0 <= j <= k <= cs.len(),
    ensures
        utf8_len(cs.take(j)) <= utf8_len(cs.take(k)),
    decreases k - j,
{
    if j < k {
        lemma_utf8_take_step(cs, k - 1);
        lemma_char_bytes_bounds(cs[k - 1]);
        lemma_utf8_take_monotone(cs, j, k - 1);
    }
}

proof fn lemma_fit_len_props(cs: Seq<char>, max: int)
    requires
        max >= 0,
    ensures
        0 <= fit_len(cs, max) <= cs.len(),
        utf8_len(cs.take(fit_len(cs, max))) <= max,
        fit_len(cs, max) < cs.len() ==> utf8_len(cs.take(fit_len(cs, max) + 1)) > max,
    decreases cs.len(),
{
    if utf8_len(cs) <= max {
        assert(cs.take(cs.len() as int) =~= cs);
    } else if cs.len() == 0 {
        assert(cs.take(0) =~= Seq::<char>::empty());
    } else {
        lemma_fit_len_props(cs.drop_last(), max);
        let f = fit_len(cs.drop_last(), max);
        assert(cs.drop_last().take(f) =~= cs.take(f));
        if f < cs.len() - 1 {
            assert(cs.drop_last().take(f + 1) =~= cs.take(f + 1));
        } else {
            assert(cs.take(f + 1) =~= cs);
        }
    }
}

proof fn lemma_fit_len_unique(cs: Seq<char>, max: int, k: int)
    requires
        max >= 0,
        0 <= k <= cs.len(),
        utf8_len(cs.take(k)) <= max,
        k < cs.len() ==> utf8_len(cs.take(k + 1)) > max,
    ensures
        k == fit_len(cs, max),
{
    lemma_fit_len_props(cs, max);
    let f = fit_len(cs, max);
    if k < f {
        lemma_utf8_take_monotone(cs, k + 1, f);
    } else if f < k {
        lemma_utf8_take_monotone(cs, f + 1, k);
        assert(cs.take(cs.len() as int) =~= cs);
    }
}

/// The UTF-8 byte width of one character, computed from its scalar value.
pub fn char_utf8_len(c: char) -> (n: usize)
    ensures
        n == char_bytes(c),
{
    proof {
        vstd::utf8::char_is_scalar(c);
    }
    let u = c as u32;
    if u < 0x80 {
        1
    } else if u < 0x800 {
        2
    } else if u < 0x10000 {
        3
    } else {
        4
    }
}

fn truncate_to(s: &str, max: usize, suffix: &str) -> (r: String)
    ensures
        r@ == spec_truncate(s@, max as int, suffix@),
{
    let n = s.unicode_len();
    let mut k: usize = 0;
    let mut b: usize = 0;
    proof {
        assert(s@.take(0) =~= Seq::<char>::empty());
    }
    loop
        invariant
            0 <= k <= n,
            n == s@.len(),
            b == utf8_len(s@.take(k as int)),
            b <= max,
        ensures
            0 <= k <= n,
            n == s@.len(),
            utf8_len(s@.take(k as int)) <= max,
            k < n ==> utf8_len(s@.take(k as int + 1)) > max,
        decreases n - k,
    {
        if k == n {
            break;
        }
        let c = s.get_char(k);
        let cb = char_utf8_len(c);
        proof {
            lemma_utf8_take_step(s@, k as int);
        }
        if cb > max - b {
            break;
        }
        b = b + cb;
        k = k + 1;
    }
    if k == n {
        let mut r = String::new();
        r.append(s);
        proof {
            assert(s@.take(n as int) =~= s@);
            assert(r@ =~= s@);
        }
        return r;
    }
    proof {
        lemma_utf8_take_monotone(s@, k as int + 1, s@.len() as int);
        assert(s@.take(s@.len() as int) =~= s@);
        lemma_fit_len_unique(s@, max as int, k as int);
    }
    let prefix = s.substring_char(0, k);
    let mut r = String::new();
    r.append(prefix);
    r.append(suffix);
    proof {
        assert(s@.subrange(0, k as int) =~= s@.take(k as int));
        assert(Seq::<char>::empty() + s@.take(k as int) =~= s@.take(k as int));
    }
    r
}

/// Bounds a piece of text to `max` bytes of UTF-8; longer text is cut on a
/// character boundary and marked with the `"... (truncated)"` suffix.
pub fn truncate(s: &str, max: usize) -> (r: String)
    ensures
        r@ == spec_truncate(s@, max as int, "... (truncated)"@),
{
    truncate_to(s, max, "... (truncated)")
}

/// Bounds the assistant-context excerpt to its byte budget; longer text is
/// cut on a character boundary and marked with a short `"..."` suffix, since
/// it is shown inline in the chat message.
pub fn truncate_assistant_context(s: &str) -> (r: String)
    ensures
        r@ == spec_truncate(s@, MAX_ASSISTANT_CONTEXT_CHARS as int, "..."@),
{
    truncate_to(s, MAX_ASSISTANT_CONTEXT_CHARS, "...")
}

/// What one character contributes to the HTML-escaped form of a text.
pub open spec fn escape_char(c: char) -> Seq<char> {
    if c == '&' {
        seq!['&', 'a', 'm', 'p', ';']
    } else if c == '<' {
        seq!['&', 'l', 't', ';']
    } else if c == '>' {
        seq!['&', 'g', 't', ';']
    } else {
        seq![c]
    }
}

/// The HTML-escaped form of a text: `&`, `<` and `>` become entities,
/// every other character is kept as it is.
pub open spec fn escape_html_spec(cs: Seq<char>) -> Seq<char>
    decreases cs.len(),
{
    if cs.len() == 0 {
        Seq::empty()
    } else {
        escape_char(cs[0]) + escape_html_spec(cs.drop_first())
    }
}

proof fn lemma_escape_snoc(cs: Seq<char>, k: int)
    requires
        0 <= k < cs.len(),
    ensures
        escape_html_spec(cs.take(k + 1)) == escape_html_spec(cs.take(k)) + escape_char(cs[k]),
    decreases k,
{
    if k == 0 {
        assert(cs.take(1) =~= seq![cs[0]]);
        assert(seq![cs[0]].drop_first() =~= Seq::<char>::empty());
        assert(escape_html_spec(seq![cs[0]]) == escape_char(cs[0]) + escape_html_spec(
            Seq::<char>::empty(),
        ));
        assert(escape_char(cs[0]) + escape_html_spec(Seq::<char>::empty()) =~= escape_char(cs[0]));
        assert(cs.take(0) =~= Seq::<char>::empty());
        assert(escape_html_spec(cs.take(0)) + escape_char(cs[0]) =~= escape_char(cs[0]));
    } else {
        lemma_escape_snoc(cs.drop_first(), k - 1);
        assert(cs.take(k + 1).drop_first() =~= cs.drop_first().take(k));
        assert(cs.take(k).drop_first() =~= cs.drop_first().take(k - 1));
        assert(cs.drop_first()[k - 1] == cs[k]);
        assert(escape_html_spec(cs.take(k + 1)) =~= escape_char(cs[0]) + escape_html_spec(
            cs.drop_first().take(k),
        ));
        assert(escape_char(cs[0]) + (escape_html_spec(cs.drop_first().take(k - 1)) + escape_char(
            cs[k],
        )) =~= (escape_char(cs[0]) + escape_html_spec(cs.drop_first().take(k - 1))) + escape_char(
            cs[k],
        ));
        assert(escape_html_spec(cs.take(k)) =~= escape_char(cs[0]) + escape_html_spec(
            cs.drop_first().take(k - 1),
        ));
    }
}

/// Escapes the HTML special characters `&`, `<` and `>` so that
/// user-controlled text can be embedded in an HTML-formatted chat message.
pub fn escape_html(s: &str) -> (r: String)
    ensures
        r@ == escape_html_spec(s@),
{
    let n = s.unicode_len();
    let mut r = String::new();
    let mut i: usize = 0;
    proof {
        assert(s@.take(0) =~= Seq::<char>::empty());
        assert(escape_html_spec(s@.take(0)) =~= Seq::<char>::empty());
    }
    while i < n
        invariant
            0 <= i <= n,
            n == s@.len(),
            r@ == escape_html_spec(s@.take(i as int)),
        decreases n - i,
    {
        let c = s.get_char(i);
        proof {
            lemma_escape_snoc(s@, i as int);
        }
        if c == '&' {
            r.append("&amp;");
            proof {
                reveal_strlit("&amp;");
                assert("&amp;"@ =~= seq!['&', 'a', 'm', 'p', ';']);
            }
        } else if c == '<' {
            r.append("&lt;");
            proof {
                reveal_strlit("&lt;");
                assert("&lt;"@ =~= seq!['&', 'l', 't', ';']);
            }
        } else if c == '>' {
            r.append("&gt;");
            proof {
                reveal_strlit("&gt;");
                assert("&gt;"@ =~= seq!['&', 'g', 't', ';']);
            }
        } else {
            let one = s.substring_char(i, i + 1);
            r.append(one);
            proof {
                assert(s@.subrange(i as int, i + 1) =~= seq![s@[i as int]]);
            }
        }
        i = i + 1;
    }
    proof {
        assert(s@.take(n as int) =~= s@);
    }
    r
}

/// The character for one decimal digit.
pub open spec fn dec_digit(d: int) -> char {
    if d == 0 {
        '0'
    } else if d == 1 {
        '1'
    } else if d == 2 {
        '2'
    } else if d == 3 {
        '3'
    } else if d == 4 {
        '4'
    } else if d == 5 {
        '5'
    } else if d == 6 {
        '6'
    } else if d == 7 {
        '7'
    } else if d == 8 {
        '8'
    } else {
        '9'
    }
}

/// The decimal rendering of a non-negative integer, without leading zeros.
pub open spec fn dec_spec(n: int) -> Seq<char>
    recommends
        n >= 0,
    decreases n,
{
    if n < 10 {
        seq![dec_digit(n)]
    } else {
        dec_spec(n / 10).push(dec_digit(n % 10))
    }
}

fn digit_str(d: u64) -> (r: String)
    requires
        d < 10,
    ensures
        r@ == seq![dec_digit(d as int)],
{
    let r = if d == 0 {
        let s = String::from_str("0");
        proof {
            reveal_strlit("0");
        }
        s
    } else if d == 1 {
        let s = String::from_str("1");
        proof {
            reveal_strlit("1");
        }
        s
    } else if d == 2 {
        let s = String::from_str("2");
        proof {
            reveal_strlit("2");
        }
        s
    } else if d == 3 {
        let s = String::from_str("3");
        proof {
            reveal_strlit("3");
        }
        s
    } else if d == 4 {
        let s = String::from_str("4");
        proof {
            reveal_strlit("4");
        }
        s
    } else if d == 5 {
        let s = String::from_str("5");
        proof {
            reveal_strlit("5");
        }
        s
    } else if d == 6 {
        let s = String::from_str("6");
        proof {
            reveal_strlit("6");
        }
        s
    } else if d == 7 {
        let s = String::from_str("7");
        proof {
            reveal_strlit("7");
        }
        s
    } else if d == 8 {
        let s = String::from_str("8");
        proof {
            reveal_strlit("8");
        }
        s
    } else {
        let s = String::from_str("9");
        proof {
            reveal_strlit("9");
        }
        s
    };
    proof {
        assert(r@ =~= seq![dec_digit(d as int)]);
    }
    r
}

/// Renders a number in decimal, digit by digit.
pub fn u64_to_dec(n: u64) -> (r: String)
    ensures
        r@ == dec_spec(n as int),
    decreases n,
{
    if n < 10 {
        digit_str(n)
    } else {
        let mut r = u64_to_dec(n / 10);
        let d = digit_str(n % 10);
        r.append(d.as_str());
        proof {
            assert(dec_spec(n as int / 10).push(dec_digit(n as int % 10)) =~= dec_spec(
                n as int / 10,
            ) + seq![dec_digit(n as int % 10)]);
        }
        r
    }
}

/// A size quotient scaled to tenths and rounded to the nearest tenth,
/// ties to even; this matches how the runtime renders a binary float that
/// is an exact multiple of a negative power of two to one decimal place.
pub open spec fn rounded_tenths(b: int, unit: int) -> int {
    let q = b * 10 / unit;
    let r = b * 10 % unit;
    if 2 * r > unit || (2 * r == unit && q % 2 == 1) {
        q + 1
    } else {
        q
    }
}

/// A human-readable byte size: plain bytes below one KiB, otherwise KiB or
/// MiB with one decimal place.
pub open spec fn spec_format_size(b: int) -> Seq<char> {
    if b < 1024 {
        dec_spec(b) + seq![' ', 'B']
    } else if b < 1048576 {
        let t = rounded_tenths(b, 1024);
        dec_spec(t / 10) + seq!['.'] + dec_spec(t % 10) + seq![' ', 'K', 'B']
    } else {
        let t = rounded_tenths(b, 1048576);
        dec_spec(t / 10) + seq!['.'] + dec_spec(t % 10) + seq![' ', 'M', 'B']
    }
}

fn scaled_tenths(bytes: usize, unit: u64) -> (t: u64)
    requires
        unit == 1024 || unit == 1048576,
        unit == 1024 ==> bytes < 1048576,
    ensures
        t == rounded_tenths(bytes as int, unit as int),
{
    let t10: u128 = (bytes as u128) * 10;
    let q: u128 = t10 / (unit as u128);
    let r: u128 = t10 % (unit as u128);
    proof {
        vstd::arithmetic::div_mod::lemma_fundamental_div_mod(t10 as int, unit as int);
        assert(q < 0x10000000000000000u128) by (nonlinear_arith)
            requires
                (unit as int) * (q as int) + (r as int) == t10 as int,
                0 <= r as int,
                (unit as int) >= 1024,
                q as int >= 0,
                t10 as int <= 0xffffffffffffffffu64 as int * 10,
        ;
    }
    let rounded: u128 = if 2 * r > (unit as u128) || (2 * r == (unit as u128) && q % 2 == 1) {
        q + 1
    } else {
        q
    };
    rounded as u64
}

/// Renders a byte count the way a person reads it: `512 B`, `1.5 KB`,
/// `5.0 MB`. Fractions are rounded to the nearest tenth, ties to even.
pub fn format_size(bytes: usize) -> (r: String)
    ensures
        r@ == spec_format_size(bytes as int),
{
    if bytes < 1024 {
        let mut r = u64_to_dec(bytes as u64);
        r.append(" B");
        proof {
            reveal_strlit(" B");
            assert(" B"@ =~= seq![' ', 'B']);
        }
        r
    } else if bytes < 1048576 {
        let t = scaled_tenths(bytes, 1024);
        let mut r = u64_to_dec(t / 10);
        r.append(".");
        let frac = u64_to_dec(t % 10);
        r.append(frac.as_str());
        r.append(" KB");
        proof {
            reveal_strlit(".");
            reveal_strlit(" KB");
            assert("."@ =~= seq!['.']);
            assert(" KB"@ =~= seq![' ', 'K', 'B']);
        }
        r
    } else {
        let t = scaled_tenths(bytes, 1048576);
        let mut r = u64_to_dec(t / 10);
        r.append(".");
        let frac = u64_to_dec(t % 10);
        r.append(frac.as_str());
        r.append(" MB");
        proof {
            reveal_strlit(".");
            reveal_strlit(" MB");
            assert("."@ =~= seq!['.']);
            assert(" MB"@ =~= seq![' ', 'M', 'B']);
        }
        r
    }
}


/// The whitespace characters the broker strips from a free-text reply.
pub open spec fn is_ws(c: char) -> bool {
    c == ' ' || c == '\t' || c == '\n' || c == '\r'
}

/// The text without leading whitespace.
pub open spec fn trim_front(cs: Seq<char>) -> Seq<char>
    decreases cs.len(),
{
    if cs.len() > 0 && is_ws(cs[0]) {
        trim_front(cs.drop_first())
    } else {
        cs
    }
}

/// The text without trailing whitespace.
pub open spec fn trim_back(cs: Seq<char>) -> Seq<char>
    decreases cs.len(),
{
    if cs.len() > 0 && is_ws(cs.last()) {
        trim_back(cs.drop_last())
    } else {
        cs
    }
}

/// The text without leading or trailing whitespace.
pub open spec fn trim_spec(cs: Seq<char>) -> Seq<char> {
    trim_back(trim_front(cs))
}

proof fn lemma_trim_front_skip(cs: Seq<char>, a: int)
    requires
        0 <= a <= cs.len(),
        forall|j: int| 0 <= j < a ==> is_ws(cs[j]),
        a < cs.len() ==> !is_ws(cs[a]),
    ensures
        trim_front(cs) == cs.skip(a),
    decreases a,
{
    if a == 0 {
        assert(cs.skip(0) =~= cs);
    } else {
        assert(is_ws(cs[0]));
        lemma_trim_front_skip(cs.drop_first(), a - 1);
        assert(cs.drop_first().skip(a - 1) =~= cs.skip(a));
    }
}

proof fn lemma_trim_back_take(cs: Seq<char>, b: int)
    requires
        0 <= b <= cs.len(),
        forall|j: int| b <= j < cs.len() ==> is_ws(cs[j]),
        b > 0 ==> !is_ws(cs[b - 1]),
    ensures
        trim_back(cs) == cs.take(b),
    decreases cs.len() - b,
{
    if b == cs.len() {
        assert(cs.take(b) =~= cs);
    } else {
        assert(is_ws(cs.last()));
        lemma_trim_back_take(cs.drop_last(), b);
        assert(cs.drop_last().take(b) =~= cs.take(b));
    }
}

fn is_ws_char(c: char) -> (r: bool)
    ensures
        r == is_ws(c),
{
    c == ' ' || c == '\t' || c == '\n' || c == '\r'
}

/// Strips leading and trailing whitespace from a free-text reply.
pub fn trim_text(s: &str) -> (r: String)
    ensures
        r@ == trim_spec(s@),
{
    let n = s.unicode_len();
    let mut a: usize = 0;
    loop
        invariant
            0 <= a <= n,
            n == s@.len(),
            forall|j: int| 0 <= j < a ==> is_ws(s@[j]),
        ensures
            0 <= a <= n,
            forall|j: int| 0 <= j < a ==> is_ws(s@[j]),
            a < n ==> !is_ws(s@[a as int]),
        decreases n - a,
    {
        if a == n {
            break;
        }
        if !is_ws_char(s.get_char(a)) {
            break;
        }
        a = a + 1;
    }
    let mut b: usize = n;
    loop
        invariant
            a <= b <= n,
            n == s@.len(),
            forall|j: int| b <= j < n ==> is_ws(s@[j]),
        ensures
            a <= b <= n,
            forall|j: int| b <= j < n ==> is_ws(s@[j]),
            b > a ==> !is_ws(s@[b - 1]),
        decreases b,
    {
        if b == a {
            break;
        }
        if !is_ws_char(s.get_char(b - 1)) {
            break;
        }
        b = b - 1;
    }
    proof {
        lemma_trim_front_skip(s@, a as int);
        if b == a {
            assert(trim_front(s@).len() == 0 || !is_ws(trim_front(s@)[0]));
            lemma_trim_back_take(s@.skip(a as int), 0);
        } else {
            lemma_trim_back_take(s@.skip(a as int), b - a);
        }
    }
    let body = s.substring_char(a, b);
    let mut r = String::new();
    r.append(body);
    proof {
        assert(r@ =~= s@.subrange(a as int, b as int));
        assert(s@.skip(a as int).take(b - a) =~= s@.subrange(a as int, b as int));
    }
    r
}

/// A status line appended under the original notification text, separated
/// by one blank line.
pub fn status_annotated_text(original: &str, status: &str) -> (r: String)
    ensures
        r@ == original@ + seq!['\n', '\n'] + status@,
{
    let mut r = String::new();
    r.append(original);
    r.append("\n\n");
    r.append(status);
    proof {
        reveal_strlit("\n\n");
        assert("\n\n"@ =~= seq!['\n', '\n']);
        assert(r@ =~= original@ + seq!['\n', '\n'] + status@);
    }
    r
}

} // verus!
