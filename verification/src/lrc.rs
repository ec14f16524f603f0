use vstd::prelude::*;
use vstd::utf8::*;
use vstd::string::StringSliceAdditionalSpecFns;
use crate::text::{chars_of, encoded_len, lemma_encode_utf8_concat, trim, trim_bounds};

verus! {

/// Whether a byte is an ASCII digit `0`..`9`.
pub open spec fn is_ascii_digit(b: u8) -> bool {
    0x30 <= b <= 0x39
}

/// Whether the bytes of a line open with an LRC time mark: `[`, a digit, and
/// a `:` at one of the byte positions 2, 3 or 4.
pub open spec fn has_time_mark(b: Seq<u8>) -> bool {
    &&& b.len() > 0 && b[0] == 0x5B  // '['
    &&& b.len() > 1 && is_ascii_digit(b[1])
    &&& {
        ||| b.len() > 3 && b[3] == 0x3A  // ':'
        ||| b.len() > 2 && b[2] == 0x3A
        ||| b.len() > 4 && b[4] == 0x3A
    }
}

/// Whether a lyrics line carries a timestamp: once trimmed of white space,
/// its UTF-8 bytes open with a time mark.
pub open spec fn spec_line_is_synced(line: Seq<char>) -> bool {
    has_time_mark(encode_utf8(trim(line)))
}

/// Whether a lyrics line carries a timestamp, such as `[01:23.45] text`.
pub fn line_is_synced(line: &str) -> (r: bool)
    ensures
        r == spec_line_is_synced(line@),
{
    let v = chars_of(line);
    let (k, e) = trim_bounds(&v);
    let bytes = line.as_bytes();
    let ghost total: nat = bytes.len() as nat;
    let ghost t = v@.subrange(k as int, e as int);
    let off = encoded_len(&v, 0, k, Ghost(total));
    let tlen = encoded_len(&v, k, e, Ghost(total));
    proof {
        assert(v@ =~= v@.subrange(0, k as int) + t + v@.skip(e as int));
        lemma_encode_utf8_concat(v@.subrange(0, k as int) + t, v@.skip(e as int));
        lemma_encode_utf8_concat(v@.subrange(0, k as int), t);
        assert(bytes@.subrange(off as int, off + tlen) =~= encode_utf8(t));
    }
    let ghost tb = encode_utf8(t);
    if tlen == 0 || bytes[off] != 0x5B {
        return false;
    }
    if tlen <= 1 || !(0x30 <= bytes[off + 1] && bytes[off + 1] <= 0x39) {
        return false;
    }
    assert(tb[0] == bytes@[off as int] && tb[1] == bytes@[off + 1]);
    let c3 = tlen > 3 && bytes[off + 3] == 0x3A;
    let c2 = tlen > 2 && bytes[off + 2] == 0x3A;
    let c4 = tlen > 4 && bytes[off + 4] == 0x3A;
    assert(tlen > 2 ==> tb[2] == bytes@[off + 2]);
    assert(tlen > 3 ==> tb[3] == bytes@[off + 3]);
    assert(tlen > 4 ==> tb[4] == bytes@[off + 4]);
    c3 || c2 || c4
}

/// Whether some line of a lyrics file carries a timestamp.
pub open spec fn spec_lines_are_synced(lines: Seq<String>) -> bool {
    exists|i: int| 0 <= i < lines.len() && spec_line_is_synced(#[trigger] lines[i]@)
}

/// Whether the lyrics whose lines are given are synced: whether some line
/// carries a timestamp.
pub fn lines_are_synced(lines: &Vec<String>) -> (r: bool)
    ensures
        r == spec_lines_are_synced(lines@),
        forall|i: int| 0 <= i < lines@.len() && spec_line_is_synced(#[trigger] lines@[i]@) ==> r,
{
    let n = lines.len();
    for i in 0..n
        invariant
            n == lines.len(),
            forall|j: int| 0 <= j < i ==> !spec_line_is_synced(#[trigger] lines@[j]@),
    {
        if line_is_synced(lines[i].as_str()) {
            return true;
        }
    }
    false
}

/// Where the parts of a leading `[minutes:seconds]` tag stand in a line, as
/// byte offsets: the `:` and the `]`.
#[derive(Clone, Copy, Debug, PartialEq, Eq, Structural)]
pub struct TimestampTag {
    pub colon: usize,
    pub close: usize,
}

/// Whether the bytes `b` of a line open with `[`, whose first `]` stands at
/// `close`, with exactly one `:` between them, at `colon`.
pub open spec fn is_tag_at(b: Seq<u8>, colon: int, close: int) -> bool {
    &&& b.len() > 0 && b[0] == 0x5B  // '['
    &&& 1 <= colon < close < b.len()
    &&& b[close] == 0x5D  // ']'
    &&& forall|j: int| 0 <= j < close ==> b[j] != 0x5D
    &&& b[colon] == 0x3A  // ':'
    &&& forall|j: int| 1 <= j < close && j != colon ==> b[j] != 0x3A
}

/// The leading `[minutes:seconds]` tag of a line: the line starts with `[`,
/// and the text up to its first `]` splits at `:` into exactly two parts.
/// The parts are `line[1..colon]` and `line[colon + 1..close]`, the rest of
/// the line is `line[close + 1..]`.
pub fn timestamp_tag(line: &str) -> (r: Option<TimestampTag>)
    ensures
        r matches Some(t) ==> is_tag_at(line.spec_bytes(), t.colon as int, t.close as int),
        r is None ==> forall|c: int, e: int| !is_tag_at(line.spec_bytes(), c, e),
{
    let b = line.as_bytes();
    let n = b.len();
    if n == 0 || b[0] != 0x5B {
        return None;
    }
    let mut close: usize = 0;
    while close < n && b[close] != 0x5D
        invariant
            close <= n == b@.len(),
            b@ == line.spec_bytes(),
            forall|j: int| 0 <= j < close ==> b@[j] != 0x5D,
        decreases n - close,
    {
        close = close + 1;
    }
    if close == n {
        return None;
    }
    let mut colon: usize = 0;
    let mut count: usize = 0;
    let mut j: usize = 1;
    while j < close
        invariant
            1 <= j <= close < n == b@.len(),
            b@ == line.spec_bytes(),
            count <= 2,
            count == 0 ==> forall|i: int| 1 <= i < j ==> b@[i] != 0x3A,
            count == 1 ==> 1 <= colon < j && b@[colon as int] == 0x3A && forall|i: int|
                1 <= i < j && i != colon ==> b@[i] != 0x3A,
            count == 2 ==> exists|p: int, q: int|
                1 <= p < q < close && b@[p] == 0x3A && b@[q] == 0x3A,
        decreases close - j,
    {
        if b[j] == 0x3A {
            if count == 0 {
                colon = j;
                count = 1;
            } else if count == 1 {
                assert(b@[colon as int] == 0x3A && b@[j as int] == 0x3A);
                count = 2;
            }
        }
        j = j + 1;
    }
    if count == 1 {
        Some(TimestampTag { colon, close })
    } else {
        proof {
            assert forall|c: int, e: int| !is_tag_at(line.spec_bytes(), c, e) by {
                if is_tag_at(line.spec_bytes(), c, e) {
                    if e != close as int {
                        if e < close {
                            assert(b@[e] != 0x5D);
                        } else {
                            assert(b@[close as int] == 0x5D);
                        }
                    }
                    if count == 2 {
                        let (p, q) = choose|p: int, q: int|
                            1 <= p < q < close && b@[p] == 0x3A && b@[q] == 0x3A;
                        assert(p == c || b@[p] != 0x3A);
                        assert(q == c || b@[q] != 0x3A);
                    }
                }
            }
        }
        None
    }
}

/// The text of a file made of the given lines, each ended by a newline.
pub open spec fn lines_text(lines: Seq<Seq<char>>) -> Seq<char>
    decreases lines.len(),
{
    if lines.len() == 0 {
        Seq::empty()
    } else {
        lines_text(lines.drop_last()) + lines.last() + seq!['\n']
    }
}

/// The text of a file made of the given lines, each ended by a newline.
pub fn join_lines(lines: &Vec<String>) -> (r: String)
    ensures
        r@ == lines_text(lines@.map_values(|s: String| s@)),
{
    let ghost views = lines@.map_values(|s: String| s@);
    let mut r = String::new();
    let nl = "\n";
    proof {
        reveal_strlit("\n");
    }
    let n = lines.len();
    for i in 0..n
        invariant
            n == lines.len(),
            views == lines@.map_values(|s: String| s@),
            nl@ == seq!['\n'],
            r@ == lines_text(views.take(i as int)),
    {
        r.append(lines[i].as_str());
        r.append(nl);
        proof {
            assert(views.take(i + 1).drop_last() =~= views.take(i as int));
            assert(views.take(i + 1).last() == lines@[i as int]@);
        }
    }
    proof {
        assert(views.take(n as int) =~= views);
    }
    r
}

} // verus!
