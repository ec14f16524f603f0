use vstd::prelude::*;
use vstd::utf8::*;
use vstd::string::StringSliceAdditionalSpecFns;
use crate::order::{compare_bytes, ByteOrder};

verus! {

/// Whether a character has the Unicode `White_Space` property, the set of
/// characters that `str::trim` removes.
pub open spec fn is_white_space(c: char) -> bool {
    let u = c as u32;
    ||| 0x9 <= u <= 0xD
    ||| u == 0x20
    ||| u == 0x85
    ||| u == 0xA0
    ||| u == 0x1680
    ||| 0x2000 <= u <= 0x200A
    ||| u == 0x2028
    ||| u == 0x2029
    ||| u == 0x202F
    ||| u == 0x205F
    ||| u == 0x3000
}

/// Whether a character has the Unicode `White_Space` property.
pub fn white_space(c: char) -> (r: bool)
    ensures
        r == is_white_space(c),
{
    let u = c as u32;
    (0x9 <= u && u <= 0xD) || u == 0x20 || u == 0x85 || u == 0xA0 || u == 0x1680 || (0x2000 <= u
        && u <= 0x200A) || u == 0x2028 || u == 0x2029 || u == 0x202F || u == 0x205F || u == 0x3000
}

/// The characters that remain once the white space at the start is removed.
pub open spec fn trim_start(s: Seq<char>) -> Seq<char>
    decreases s.len(),
{
    if s.len() > 0 && is_white_space(s[0]) {
        trim_start(s.drop_first())
    } else {
        s
    }
}

/// The characters that remain once the white space at the end is removed.
pub open spec fn trim_end(s: Seq<char>) -> Seq<char>
    decreases s.len(),
{
    if s.len() > 0 && is_white_space(s.last()) {
        trim_end(s.drop_last())
    } else {
        s
    }
}

/// The characters that remain once the white space at both ends is removed,
/// as `str::trim` does.
pub open spec fn trim(s: Seq<char>) -> Seq<char> {
    trim_end(trim_start(s))
}

/// Whether a string holds nothing but white space.
pub open spec fn is_blank(s: Seq<char>) -> bool {
    trim(s).len() == 0
}

/// The number of bytes of the UTF-8 encoding of a character.
pub open spec fn utf8_width(c: char) -> nat {
    encode_scalar(c as u32).len()
}

/// The characters of a string slice, in order.
pub fn chars_of(s: &str) -> (v: Vec<char>)
    ensures
        v@ == s@,
{
    let mut v: Vec<char> = Vec::new();
    for c in it: s.chars()
        invariant
            v@ == it.seq().take(it.index() as int),
    {
        v.push(c);
    }
    v
}

/// The UTF-8 encoding of two character sequences one after the other is the
/// encoding of the first followed by that of the second.
pub proof fn lemma_encode_utf8_concat(a: Seq<char>, b: Seq<char>)
    ensures
        encode_utf8(a + b) == encode_utf8(a) + encode_utf8(b),
    decreases a.len(),
{
    if a.len() == 0 {
        assert(a + b =~= b);
        assert(encode_utf8(a) + encode_utf8(b) =~= encode_utf8(b));
    } else {
        assert((a + b).drop_first() =~= a.drop_first() + b);
        lemma_encode_utf8_concat(a.drop_first(), b);
        assert((a + b)[0] == a[0]);
        assert(encode_utf8(a + b) =~= encode_utf8(a) + encode_utf8(b));
    }
}

/// The encoding of a one-character sequence is the encoding of the character.
pub proof fn lemma_encode_utf8_single(c: char)
    ensures
        encode_utf8(seq![c]) == encode_scalar(c as u32),
{
    let s = seq![c];
    assert(s.drop_first() =~= Seq::<char>::empty());
    assert(s[0] == c);
    assert(encode_utf8(Seq::<char>::empty()) =~= Seq::<u8>::empty());
    assert(encode_utf8(s) == encode_scalar(c as u32) + encode_utf8(s.drop_first()));
    assert(encode_scalar(c as u32) + Seq::<u8>::empty() =~= encode_scalar(c as u32));
}

/// Splitting a character sequence at `i` splits its encoding.
pub proof fn lemma_encode_utf8_split(s: Seq<char>, i: int)
    requires
        0 <= i <= s.len(),
    ensures
        encode_utf8(s) == encode_utf8(s.take(i)) + encode_utf8(s.skip(i)),
{
    assert(s =~= s.take(i) + s.skip(i));
    lemma_encode_utf8_concat(s.take(i), s.skip(i));
}

/// Taking one more character adds the bytes of that character.
pub proof fn lemma_encode_utf8_take_next(s: Seq<char>, i: int)
    requires
        0 <= i < s.len(),
    ensures
        encode_utf8(s.take(i + 1)) == encode_utf8(s.take(i)) + encode_scalar(s[i] as u32),
        encode_utf8(s.take(i + 1)).len() == encode_utf8(s.take(i)).len() + utf8_width(s[i]),
{
    assert(s.take(i + 1) =~= s.take(i) + seq![s[i]]);
    lemma_encode_utf8_concat(s.take(i), seq![s[i]]);
    lemma_encode_utf8_single(s[i]);
}

/// The number of bytes of the UTF-8 encoding of a character.
pub fn width_of(c: char) -> (w: usize)
    ensures
        w == utf8_width(c),
        1 <= w <= 4,
{
    let u = c as u32;
    proof {
        char_is_scalar(c);
    }
    if u <= 0x7F {
        1
    } else if u <= 0x7FF {
        2
    } else if u <= 0xFFFF {
        3
    } else {
        4
    }
}

/// The number of bytes that the UTF-8 encoding of `v[from..to]` takes, where
/// all of `v` is known to take `total` bytes.
pub fn encoded_len(v: &Vec<char>, from: usize, to: usize, Ghost(total): Ghost<nat>) -> (n: usize)
    requires
        from <= to <= v.len(),
        encode_utf8(v@).len() == total,
        total <= usize::MAX,
    ensures
        n == encode_utf8(v@.subrange(from as int, to as int)).len(),
{
    let ghost part = v@.subrange(from as int, to as int);
    proof {
        assert(v@ =~= v@.take(from as int) + part + v@.skip(to as int));
        lemma_encode_utf8_concat(v@.take(from as int) + part, v@.skip(to as int));
        lemma_encode_utf8_concat(v@.take(from as int), part);
    }
    let mut n: usize = 0;
    let mut i: usize = from;
    while i < to
        invariant
            from <= i <= to <= v.len(),
            part == v@.subrange(from as int, to as int),
            encode_utf8(part).len() <= total <= usize::MAX,
            n == encode_utf8(part.take(i - from)).len(),
        decreases to - i,
    {
        proof {
            lemma_encode_utf8_take_next(part, i - from);
            lemma_encode_utf8_split(part, i - from + 1);
            assert(part[i - from] == v@[i as int]);
        }
        let w = width_of(v[i]);
        n = n + w;
        i = i + 1;
    }
    proof {
        assert(part.take(to - from) =~= part);
    }
    n
}

/// The bounds `k..e` of what remains of `v` once the white space at both
/// ends is removed.
pub fn trim_bounds(v: &Vec<char>) -> (r: (usize, usize))
    ensures
        r.0 <= r.1 <= v.len(),
        trim(v@) == v@.subrange(r.0 as int, r.1 as int),
        trim_start(v@) == v@.subrange(r.0 as int, v.len() as int),
{
    let n = v.len();
    let mut k: usize = 0;
    assert(v@.subrange(0, n as int) =~= v@);
    while k < n && white_space(v[k])
        invariant
            k <= n == v.len(),
            trim_start(v@) == trim_start(v@.subrange(k as int, n as int)),
        decreases n - k,
    {
        proof {
            let t = v@.subrange(k as int, n as int);
            assert(t.drop_first() =~= v@.subrange(k + 1, n as int));
        }
        k = k + 1;
    }
    let ghost ts = v@.subrange(k as int, n as int);
    assert(trim_start(v@) == ts);
    let mut e: usize = n;
    while e > k && white_space(v[e - 1])
        invariant
            k <= e <= n == v.len(),
            ts == v@.subrange(k as int, n as int),
            trim_end(ts) == trim_end(v@.subrange(k as int, e as int)),
        decreases e,
    {
        proof {
            let t = v@.subrange(k as int, e as int);
            assert(t.drop_last() =~= v@.subrange(k as int, e - 1));
        }
        e = e - 1;
    }
    (k, e)
}

/// Whether a string holds nothing but white space, as `s.trim().is_empty()`.
pub fn blank(s: &str) -> (r: bool)
    ensures
        r == is_blank(s@),
{
    let v = chars_of(s);
    let (k, e) = trim_bounds(&v);
    k == e
}

/// The character of a decimal digit.
pub open spec fn digit_char(d: nat) -> char {
    (0x30 + d) as char
}

/// The decimal digits of a number, without leading zeros.
pub open spec fn decimal(n: nat) -> Seq<char>
    decreases n,
{
    if n < 10 {
        seq![digit_char(n)]
    } else {
        decimal(n / 10).push(digit_char(n % 10))
    }
}

/// A number written with at least two digits, as `{:02}` writes it.
pub open spec fn two_digits(n: nat) -> Seq<char> {
    if n < 10 {
        seq!['0'] + decimal(n)
    } else {
        decimal(n)
    }
}

/// The one-character string of a decimal digit.
pub fn digit_str(d: u32) -> (r: &'static str)
    requires
        d < 10,
    ensures
        r@ == seq![digit_char(d as nat)],
{
    let r = match d {
        0 => "0",
        1 => "1",
        2 => "2",
        3 => "3",
        4 => "4",
        5 => "5",
        6 => "6",
        7 => "7",
        8 => "8",
        _ => "9",
    };
    proof {
        reveal_strlit("0");
        reveal_strlit("1");
        reveal_strlit("2");
        reveal_strlit("3");
        reveal_strlit("4");
        reveal_strlit("5");
        reveal_strlit("6");
        reveal_strlit("7");
        reveal_strlit("8");
        reveal_strlit("9");
        assert(r@ =~= seq![digit_char(d as nat)]);
    }
    r
}

/// Appends the decimal digits of `n` to `s`.
pub fn push_decimal(s: &mut String, n: u32)
    ensures
        final(s)@ == old(s)@ + decimal(n as nat),
    decreases n,
{
    if n >= 10 {
        push_decimal(s, n / 10);
    }
    s.append(digit_str(n % 10));
    proof {
        if n >= 10 {
            assert(decimal(n as nat) == decimal((n / 10) as nat).push(digit_char((n % 10) as nat)));
        }
    }
    assert(s@ =~= old(s)@ + decimal(n as nat));
}

/// Appends `n` written with at least two digits to `s`.
pub fn push_two_digits(s: &mut String, n: u32)
    ensures
        final(s)@ == old(s)@ + two_digits(n as nat),
{
    if n < 10 {
        let z = "0";
        proof {
            reveal_strlit("0");
        }
        s.append(z);
    }
    push_decimal(s, n);
    assert(s@ =~= old(s)@ + two_digits(n as nat));
}

/// The lowercase form of a string under the Unicode rules of
/// `str::to_lowercase`.
pub uninterp spec fn lowercase(s: Seq<char>) -> Seq<char>;

/// The lowercase form of a string: calls `str::to_lowercase`, whose result
/// depends on the string alone. The contract names the result `lowercase`
/// and states one fact of it, that the empty string stays empty (the result
/// maps each character of the string); the Unicode case tables that it
/// applies are not restated here.
#[verifier::external_body]
pub fn to_lowercase(s: &str) -> (r: String)
    ensures
        r@ == lowercase(s@),
        s@.len() == 0 ==> r@.len() == 0,
{
    s.to_lowercase()
}

/// Whether `needle` occurs in `hay` as a contiguous run of bytes.
pub open spec fn contains_bytes(hay: Seq<u8>, needle: Seq<u8>) -> bool {
    exists|i: int|
        0 <= i && i + needle.len() <= hay.len() && #[trigger] hay.subrange(i, i + needle.len())
            == needle
}

/// Whether `needle` occurs in `hay`, as `str::contains` with a string
/// pattern finds it.
pub fn contains_str(hay: &str, needle: &str) -> (r: bool)
    ensures
        r == contains_bytes(hay.spec_bytes(), needle.spec_bytes()),
{
    let h = hay.as_bytes();
    let n = needle.as_bytes();
    let hl = h.len();
    let nl = n.len();
    if nl > hl {
        return false;
    }
    let mut i: usize = 0;
    while i <= hl - nl
        invariant
            h@ == hay.spec_bytes(),
            n@ == needle.spec_bytes(),
            hl == h@.len(),
            nl == n@.len(),
            nl <= hl,
            forall|j: int| 0 <= j < i ==> #[trigger] h@.subrange(j, j + nl) != n@,
        decreases hl - nl + 1 - i,
    {
        let mut k: usize = 0;
        while k < nl && h[i + k] == n[k]
            invariant
                i + nl <= hl == h@.len(),
                nl == n@.len(),
                k <= nl,
                forall|x: int| 0 <= x < k ==> h@[i + x] == n@[x],
            decreases nl - k,
        {
            k = k + 1;
        }
        if k == nl {
            assert(h@.subrange(i as int, i + nl) =~= n@);
            return true;
        }
        assert(h@.subrange(i as int, i + nl)[k as int] != n@[k as int]);
        i = i + 1;
    }
    false
}

/// Whether two strings are equal.
pub fn str_equal(a: &str, b: &str) -> (r: bool)
    ensures
        r == (a@ == b@),
{
    let r = compare_bytes(a.as_bytes(), b.as_bytes()) == ByteOrder::Equal;
    proof {
        broadcast use encode_utf8_decode_utf8;

        if encode_utf8(a@) == encode_utf8(b@) {
            assert(decode_utf8(encode_utf8(a@)) == decode_utf8(encode_utf8(b@)));
        }
    }
    r
}

/// Whether every character of a string is white space.
pub open spec fn all_white(s: Seq<char>) -> bool {
    forall|i: int| 0 <= i < s.len() ==> is_white_space(#[trigger] s[i])
}

/// White space in front changes nothing once the start is trimmed.
pub proof fn lemma_trim_start_white_prefix(a: Seq<char>, b: Seq<char>)
    requires
        all_white(a),
    ensures
        trim_start(a + b) == trim_start(b),
    decreases a.len(),
{
    if a.len() == 0 {
        assert(a + b =~= b);
    } else {
        assert((a + b)[0] == a[0]);
        assert((a + b).drop_first() =~= a.drop_first() + b);
        assert forall|i: int| 0 <= i < a.drop_first().len() implies is_white_space(
            #[trigger] a.drop_first()[i],
        ) by {
            assert(a.drop_first()[i] == a[i + 1]);
        }
        lemma_trim_start_white_prefix(a.drop_first(), b);
    }
}

/// Trimming the start of a string that is not all white space leaves what
/// follows it untouched.
pub proof fn lemma_trim_start_concat(a: Seq<char>, b: Seq<char>)
    requires
        trim_start(a).len() > 0,
    ensures
        trim_start(a + b) == trim_start(a) + b,
    decreases a.len(),
{
    assert(a.len() > 0);
    assert((a + b)[0] == a[0]);
    if is_white_space(a[0]) {
        assert((a + b).drop_first() =~= a.drop_first() + b);
        lemma_trim_start_concat(a.drop_first(), b);
    }
}

/// A string whose trimmed start is empty is all white space.
pub proof fn lemma_trim_start_empty(a: Seq<char>)
    requires
        trim_start(a).len() == 0,
    ensures
        all_white(a),
    decreases a.len(),
{
    if a.len() > 0 {
        assert(is_white_space(a[0]));
        lemma_trim_start_empty(a.drop_first());
        assert forall|i: int| 0 <= i < a.len() implies is_white_space(#[trigger] a[i]) by {
            if i > 0 {
                assert(a[i] == a.drop_first()[i - 1]);
            }
        }
    }
}

/// White space behind changes nothing once the end is trimmed.
pub proof fn lemma_trim_end_white_suffix(a: Seq<char>, b: Seq<char>)
    requires
        all_white(b),
    ensures
        trim_end(a + b) == trim_end(a),
    decreases b.len(),
{
    if b.len() == 0 {
        assert(a + b =~= a);
    } else {
        assert((a + b).last() == b.last());
        assert((a + b).drop_last() =~= a + b.drop_last());
        assert forall|i: int| 0 <= i < b.drop_last().len() implies is_white_space(
            #[trigger] b.drop_last()[i],
        ) by {
            assert(b.drop_last()[i] == b[i]);
        }
        lemma_trim_end_white_suffix(a, b.drop_last());
    }
}

/// Trimming a string with white space added around it gives what trimming
/// the string gives.
pub proof fn lemma_trim_white_around(pre: Seq<char>, s: Seq<char>, post: Seq<char>)
    requires
        all_white(pre),
        all_white(post),
    ensures
        trim(pre + s + post) == trim(s),
{
    assert(pre + s + post =~= pre + (s + post));
    lemma_trim_start_white_prefix(pre, s + post);
    if trim_start(s).len() > 0 {
        lemma_trim_start_concat(s, post);
        lemma_trim_end_white_suffix(trim_start(s), post);
    } else {
        lemma_trim_start_empty(s);
        assert(all_white(s + post)) by {
            assert forall|i: int| 0 <= i < (s + post).len() implies is_white_space(
                #[trigger] (s + post)[i],
            ) by {
                if i < s.len() {
                    assert((s + post)[i] == s[i]);
                } else {
                    assert((s + post)[i] == post[i - s.len()]);
                }
            }
        }
        lemma_trim_start_white_prefix(s + post, Seq::<char>::empty());
        assert(s + post + Seq::<char>::empty() =~= s + post);
        assert(trim_start(Seq::<char>::empty()) =~= Seq::<char>::empty());
        assert(trim_start(s + post).len() == 0);
        assert(trim_start(s + post) =~= trim_start(s));
    }
}

} // verus!
