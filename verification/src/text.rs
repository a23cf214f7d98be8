//! String helpers shared by the rest of the library.
//!
//! Strings are modelled by their characters (`Seq<char>`). Ordering follows the
//! UTF-8 bytes, which is how `str` itself is ordered.

use vstd::prelude::*;
use vstd::string::StringSliceAdditionalSpecFns;
use vstd::utf8::encode_utf8;

verus! {

/// Collects the characters of `s`.
pub fn chars_of(s: &str) -> (r: Vec<char>)
    ensures
        r@ == s@,
{
    let mut v: Vec<char> = Vec::new();
    for c in it: s.chars()
        invariant
            v@ == it.seq().take(it.index() as int),
            it.seq() == s@,
    {
        v.push(c);
    }
    v
}

/// Whether two string slices hold the same characters.
pub fn str_eq(a: &str, b: &str) -> (r: bool)
    ensures
        r == (a@ == b@),
{
    let ab = a.as_bytes();
    let bb = b.as_bytes();
    proof {
        vstd::utf8::encode_utf8_decode_utf8(a@);
        vstd::utf8::encode_utf8_decode_utf8(b@);
    }
    if ab.len() != bb.len() {
        return false;
    }
    let mut i: usize = 0;
    while i < ab.len()
        invariant
            i <= ab.len(),
            ab.len() == bb.len(),
            ab@ == a.spec_bytes(),
            bb@ == b.spec_bytes(),
            forall|j: int| 0 <= j < i ==> ab@[j] == bb@[j],
        decreases ab.len() - i,
    {
        if ab[i] != bb[i] {
            return false;
        }
        i += 1;
    }
    assert(ab@ =~= bb@);
    true
}

/// The view of an optional string.
pub open spec fn opt_text(o: Option<String>) -> Option<Seq<char>> {
    match o {
        Some(s) => Some(s@),
        None => None,
    }
}

/// Whether an optional string holds exactly `b`.
pub fn opt_str_is(a: &Option<String>, b: &str) -> (r: bool)
    ensures
        r == (opt_text(*a) == Some(b@)),
{
    match a {
        Some(s) => str_eq(s.as_str(), b),
        None => false,
    }
}

/// A copy of an optional string.
pub fn clone_opt(a: &Option<String>) -> (r: Option<String>)
    ensures
        opt_text(r) == opt_text(*a),
{
    match a {
        Some(s) => Some(s.clone()),
        None => None,
    }
}

/// `a` followed by `b`.
pub fn concat2(a: &str, b: &str) -> (r: String)
    ensures
        r@ == a@ + b@,
{
    let mut s = String::from_str(a);
    s.append(b);
    s
}

/// `a`, `b` and `c` in a row.
pub fn concat3(a: &str, b: &str, c: &str) -> (r: String)
    ensures
        r@ == a@ + b@ + c@,
{
    let mut s = String::from_str(a);
    s.append(b);
    s.append(c);
    s
}

/// `a`, `b`, `c` and `d` in a row.
pub fn concat4(a: &str, b: &str, c: &str, d: &str) -> (r: String)
    ensures
        r@ == a@ + b@ + c@ + d@,
{
    let mut s = String::from_str(a);
    s.append(b);
    s.append(c);
    s.append(d);
    s
}

/// Byte-wise lexicographic order: `a` sorts strictly before `b`.
pub open spec fn bytes_lt(a: Seq<u8>, b: Seq<u8>) -> bool {
    exists|k: int| differs_first_at(a, b, k)
}

/// `a` and `b` agree on their first `k` bytes, and at position `k` either `a`
/// ends while `b` goes on, or `a` holds the smaller byte.
pub open spec fn differs_first_at(a: Seq<u8>, b: Seq<u8>, k: int) -> bool {
    &&& 0 <= k <= a.len()
    &&& k <= b.len()
    &&& a.take(k) == b.take(k)
    &&& if k == a.len() {
        k < b.len()
    } else {
        k < b.len() && a[k] < b[k]
    }
}

/// The order of `str`: lexicographic on the UTF-8 encoding.
pub open spec fn text_lt(a: Seq<char>, b: Seq<char>) -> bool {
    bytes_lt(encode_utf8(a), encode_utf8(b))
}

/// Whether `a` sorts strictly before `b`.
pub fn str_lt(a: &str, b: &str) -> (r: bool)
    ensures
        r == text_lt(a@, b@),
{
    let ab = a.as_bytes();
    let bb = b.as_bytes();
    let mut i: usize = 0;
    while i < ab.len() && i < bb.len()
        invariant
            i <= ab.len(),
            i <= bb.len(),
            ab@ == a.spec_bytes(),
            bb@ == b.spec_bytes(),
            ab@.take(i as int) == bb@.take(i as int),
        decreases ab.len() - i,
    {
        if ab[i] != bb[i] {
            let lower = ab[i] < bb[i];
            proof {
                if lower {
                    assert(differs_first_at(ab@, bb@, i as int));
                } else {
                    assert forall|k: int| !differs_first_at(ab@, bb@, k) by {
                        lemma_take_agree(ab@, bb@, i as int, k);
                    }
                }
            }
            return lower;
        }
        proof {
            assert(ab@.take(i + 1) =~= ab@.take(i as int).push(ab@[i as int]));
            assert(bb@.take(i + 1) =~= bb@.take(i as int).push(bb@[i as int]));
        }
        i += 1;
    }
    let shorter = ab.len() < bb.len();
    proof {
        if shorter {
            assert(differs_first_at(ab@, bb@, i as int));
        } else {
            assert forall|k: int| !differs_first_at(ab@, bb@, k) by {
                lemma_take_agree(ab@, bb@, i as int, k);
            }
        }
    }
    shorter
}

/// Two sequences that agree on their first `i` items agree on every item
/// before `i`, and on every shorter prefix; a longer common prefix forces
/// agreement at `i`.
proof fn lemma_take_agree(a: Seq<u8>, b: Seq<u8>, i: int, k: int)
    requires
        0 <= i <= a.len(),
        i <= b.len(),
        a.take(i) == b.take(i),
    ensures
        0 <= k < i && k < a.len() && k < b.len() ==> a[k] == b[k],
        i < k <= a.len() && k <= b.len() && a.take(k) == b.take(k) ==> a[i] == b[i],
{
    if 0 <= k < i && k < a.len() && k < b.len() {
        assert(a.take(i)[k] == a[k]);
        assert(b.take(i)[k] == b[k]);
    }
    if i < k <= a.len() && k <= b.len() && a.take(k) == b.take(k) {
        assert(a.take(k)[i] == a[i]);
        assert(b.take(k)[i] == b[i]);
    }
}

/// Sequences that agree on a prefix agree on every shorter prefix.
proof fn lemma_take_shorter(a: Seq<u8>, b: Seq<u8>, i: int, k: int)
    requires
        0 <= k <= i <= a.len(),
        i <= b.len(),
        a.take(i) == b.take(i),
    ensures
        a.take(k) == b.take(k),
{
    assert forall|j: int| 0 <= j < k implies a.take(k)[j] == b.take(k)[j] by {
        lemma_take_agree(a, b, i, j);
    }
    assert(a.take(k) =~= b.take(k));
}

/// The byte order is transitive.
pub proof fn lemma_bytes_lt_transitive(a: Seq<u8>, b: Seq<u8>, c: Seq<u8>)
    requires
        bytes_lt(a, b),
        bytes_lt(b, c),
    ensures
        bytes_lt(a, c),
{
    let k1 = choose|k: int| differs_first_at(a, b, k);
    let k2 = choose|k: int| differs_first_at(b, c, k);
    let k = if k1 <= k2 {
        k1
    } else {
        k2
    };
    lemma_take_shorter(a, b, k1, k);
    lemma_take_shorter(b, c, k2, k);
    if k1 < k2 {
        lemma_take_agree(b, c, k2, k1);
    } else if k2 < k1 {
        lemma_take_agree(a, b, k1, k2);
    }
    assert(differs_first_at(a, c, k));
}

/// Two byte sequences that agree up to place `k` sort one before the other,
/// or are the same.
proof fn lemma_bytes_compare_from(a: Seq<u8>, b: Seq<u8>, k: int)
    requires
        0 <= k <= a.len(),
        k <= b.len(),
        a.take(k) == b.take(k),
    ensures
        bytes_lt(a, b) || bytes_lt(b, a) || a == b,
    decreases a.len() - k,
{
    if k == a.len() || k == b.len() {
        if a.len() < b.len() {
            assert(differs_first_at(a, b, k));
        } else if b.len() < a.len() {
            assert(differs_first_at(b, a, k));
        } else {
            assert(a.take(k) =~= a);
            assert(b.take(k) =~= b);
        }
    } else if a[k] < b[k] {
        assert(differs_first_at(a, b, k));
    } else if b[k] < a[k] {
        assert(differs_first_at(b, a, k));
    } else {
        assert(a.take(k + 1) =~= a.take(k).push(a[k]));
        assert(b.take(k + 1) =~= b.take(k).push(b[k]));
        lemma_bytes_compare_from(a, b, k + 1);
    }
}

/// Of two texts one sorts before the other, or they sort alike.
pub proof fn lemma_text_lt_total(a: Seq<char>, b: Seq<char>)
    ensures
        text_lt(a, b) || text_lt(b, a) || encode_utf8(a) == encode_utf8(b),
{
    assert(encode_utf8(a).take(0) =~= encode_utf8(b).take(0));
    lemma_bytes_compare_from(encode_utf8(a), encode_utf8(b), 0);
}

/// What sorts before a text sorts before every text that does not sort
/// before that text.
pub proof fn lemma_text_lt_below(a: Seq<char>, b: Seq<char>, c: Seq<char>)
    requires
        text_lt(a, b),
        !text_lt(c, b),
    ensures
        text_lt(a, c),
{
    lemma_text_lt_total(b, c);
    if text_lt(b, c) {
        lemma_text_lt_transitive(a, b, c);
    }
}

/// The order of texts is transitive.
pub proof fn lemma_text_lt_transitive(a: Seq<char>, b: Seq<char>, c: Seq<char>)
    requires
        text_lt(a, b),
        text_lt(b, c),
    ensures
        text_lt(a, c),
{
    lemma_bytes_lt_transitive(encode_utf8(a), encode_utf8(b), encode_utf8(c));
}

/// `needle` stands in `hay` at position `i`.
pub open spec fn occurs_at(hay: Seq<char>, needle: Seq<char>, i: int) -> bool {
    &&& 0 <= i
    &&& i + needle.len() <= hay.len()
    &&& hay.subrange(i, i + needle.len()) == needle
}

/// `needle` stands somewhere in `hay`.
pub open spec fn has_substring(hay: Seq<char>, needle: Seq<char>) -> bool {
    exists|i: int| occurs_at(hay, needle, i)
}

/// The first position at or after `from` where `needle` stands in `hay`.
pub open spec fn find_from(hay: Seq<char>, needle: Seq<char>, from: int) -> Option<int>
    decreases hay.len() - from + 1,
{
    if from < 0 || from + needle.len() > hay.len() {
        None
    } else if occurs_at(hay, needle, from) {
        Some(from)
    } else {
        find_from(hay, needle, from + 1)
    }
}

/// `find_from` returns the least position, and finds one whenever there is one.
pub proof fn lemma_find_from(hay: Seq<char>, needle: Seq<char>, from: int)
    requires
        0 <= from,
    ensures
        match find_from(hay, needle, from) {
            Some(i) => from <= i && occurs_at(hay, needle, i) && forall|j: int|
                from <= j < i ==> !occurs_at(hay, needle, j),
            None => forall|j: int| from <= j ==> !occurs_at(hay, needle, j),
        },
    decreases hay.len() - from + 1,
{
    if from + needle.len() > hay.len() {
    } else if occurs_at(hay, needle, from) {
    } else {
        lemma_find_from(hay, needle, from + 1);
    }
}

/// Searching from the start decides `has_substring`.
pub proof fn lemma_find_decides(hay: Seq<char>, needle: Seq<char>)
    ensures
        find_from(hay, needle, 0) is Some <==> has_substring(hay, needle),
{
    lemma_find_from(hay, needle, 0);
}

/// Whether `needle` stands in `hay` at position `i`.
pub fn matches_at(hay: &Vec<char>, needle: &Vec<char>, i: usize) -> (r: bool)
    ensures
        r == occurs_at(hay@, needle@, i as int),
{
    if needle.len() > hay.len() || i > hay.len() - needle.len() {
        return false;
    }
    let mut j: usize = 0;
    while j < needle.len()
        invariant
            j <= needle.len(),
            i + needle.len() <= hay.len(),
            forall|k: int| 0 <= k < j ==> hay@[i + k] == needle@[k],
        decreases needle.len() - j,
    {
        if hay[i + j] != needle[j] {
            assert(hay@.subrange(i as int, i + needle.len())[j as int] != needle@[j as int]);
            return false;
        }
        j += 1;
    }
    assert(hay@.subrange(i as int, i + needle.len()) =~= needle@);
    true
}

/// The first position at or after `from` where `needle` stands in `hay`,
/// counted in characters.
pub fn find_in(hay: &Vec<char>, needle: &Vec<char>, from: usize) -> (r: Option<usize>)
    ensures
        match r {
            Some(i) => find_from(hay@, needle@, from as int) == Some(i as int),
            None => find_from(hay@, needle@, from as int) is None,
        },
{
    let mut i: usize = from;
    while i <= hay.len() && needle.len() <= hay.len() - i
        invariant
            from <= i,
            find_from(hay@, needle@, from as int) == find_from(hay@, needle@, i as int),
        decreases hay.len() + 1 - i,
    {
        if matches_at(hay, needle, i) {
            return Some(i);
        }
        proof {
            if i == hay.len() {
                assert(hay@.subrange(i as int, i + needle@.len()) =~= needle@);
            }
        }
        i += 1;
    }
    None
}

/// Whether `needle` stands somewhere in `hay`.
pub fn contains(hay: &str, needle: &str) -> (r: bool)
    ensures
        r == has_substring(hay@, needle@),
{
    let h = chars_of(hay);
    let n = chars_of(needle);
    proof {
        lemma_find_decides(hay@, needle@);
    }
    find_in(&h, &n, 0).is_some()
}

/// `s` begins with `prefix`.
pub open spec fn has_prefix(s: Seq<char>, prefix: Seq<char>) -> bool {
    occurs_at(s, prefix, 0)
}

/// Whether `s` begins with `prefix`.
pub fn starts_with(s: &str, prefix: &str) -> (r: bool)
    ensures
        r == has_prefix(s@, prefix@),
{
    let h = chars_of(s);
    let n = chars_of(prefix);
    matches_at(&h, &n, 0)
}

/// What follows `prefix` in `s`, if `s` begins with it.
pub fn strip_prefix<'a>(s: &'a str, prefix: &str) -> (r: Option<&'a str>)
    ensures
        r is Some == has_prefix(s@, prefix@),
        r matches Some(rest) ==> rest@ == s@.skip(prefix@.len() as int),
{
    let h = chars_of(s);
    let n = chars_of(prefix);
    if matches_at(&h, &n, 0) {
        Some(s.substring_char(n.len(), h.len()))
    } else {
        None
    }
}

/// The parts of `s` before and after the first `sep`.
pub open spec fn split_once_spec(s: Seq<char>, sep: Seq<char>) -> Option<(Seq<char>, Seq<char>)> {
    match find_from(s, sep, 0) {
        Some(i) => Some((s.take(i), s.skip(i + sep.len()))),
        None => None,
    }
}

/// Splits `s` at the first `sep`, which is left out of both parts.
pub fn split_once<'a>(s: &'a str, sep: &str) -> (r: Option<(&'a str, &'a str)>)
    ensures
        match r {
            Some((a, b)) => split_once_spec(s@, sep@) == Some((a@, b@)),
            None => split_once_spec(s@, sep@) is None,
        },
{
    let h = chars_of(s);
    let n = chars_of(sep);
    match find_in(&h, &n, 0) {
        Some(i) => {
            proof {
                lemma_find_from(s@, sep@, 0);
                assert(occurs_at(s@, sep@, i as int));
                assert(i + n.len() <= h.len());
            }
            let a = s.substring_char(0, i);
            let b = s.substring_char(i + n.len(), h.len());
            Some((a, b))
        },
        None => None,
    }
}

/// Whether a character has the Unicode property White_Space: the controls
/// from tab to carriage return, the space, next line, the no-break spaces,
/// the ogham space mark, the spaces of fixed width, the line and paragraph
/// separators, the medium mathematical space and the ideographic space.
pub open spec fn white_space(c: char) -> bool {
    let n = c as u32;
    ||| 0x09 <= n <= 0x0D
    ||| n == 0x20
    ||| n == 0x85
    ||| n == 0xA0
    ||| n == 0x1680
    ||| 0x2000 <= n <= 0x200A
    ||| n == 0x2028
    ||| n == 0x2029
    ||| n == 0x202F
    ||| n == 0x205F
    ||| n == 0x3000
}

/// Whether `c` has the Unicode property White_Space, as `char::is_whitespace`
/// tells.
pub fn is_whitespace(c: char) -> (r: bool)
    ensures
        r == white_space(c),
{
    let n: u32 = c as u32;
    (0x09 <= n && n <= 0x0D) || n == 0x20 || n == 0x85 || n == 0xA0 || n == 0x1680 || (0x2000 <= n
        && n <= 0x200A) || n == 0x2028 || n == 0x2029 || n == 0x202F || n == 0x205F || n == 0x3000
}

/// `s` without its leading white space.
pub open spec fn trim_start_spec(s: Seq<char>) -> Seq<char>
    decreases s.len(),
{
    if s.len() > 0 && white_space(s.first()) {
        trim_start_spec(s.drop_first())
    } else {
        s
    }
}

/// `s` without its trailing white space.
pub open spec fn trim_end_spec(s: Seq<char>) -> Seq<char>
    decreases s.len(),
{
    if s.len() > 0 && white_space(s.last()) {
        trim_end_spec(s.drop_last())
    } else {
        s
    }
}

/// `s` without leading and trailing white space.
pub open spec fn trimmed(s: Seq<char>) -> Seq<char> {
    trim_end_spec(trim_start_spec(s))
}

proof fn lemma_trim_start(s: Seq<char>, lo: int)
    requires
        0 <= lo <= s.len(),
        forall|k: int| 0 <= k < lo ==> white_space(s[k]),
        lo < s.len() ==> !white_space(s[lo]),
    ensures
        trim_start_spec(s) == s.skip(lo),
    decreases lo,
{
    if lo == 0 {
        assert(s.skip(0) =~= s);
    } else {
        let t = s.drop_first();
        assert forall|k: int| 0 <= k < lo - 1 implies white_space(t[k]) by {
            assert(t[k] == s[k + 1]);
        }
        lemma_trim_start(t, lo - 1);
        assert(t.skip(lo - 1) =~= s.skip(lo));
    }
}

proof fn lemma_trim_end(s: Seq<char>, hi: int)
    requires
        0 <= hi <= s.len(),
        forall|k: int| hi <= k < s.len() ==> white_space(s[k]),
        hi > 0 ==> !white_space(s[hi - 1]),
    ensures
        trim_end_spec(s) == s.take(hi),
    decreases s.len() - hi,
{
    if hi == s.len() {
        assert(s.take(hi) =~= s);
    } else {
        let t = s.drop_last();
        lemma_trim_end(t, hi);
        assert(t.take(hi) =~= s.take(hi));
    }
}

/// What is left of a text without its leading white space is empty or
/// begins with a character that is none.
proof fn lemma_trim_start_shape(s: Seq<char>)
    ensures
        trim_start_spec(s).len() > 0 ==> !white_space(trim_start_spec(s).first()),
    decreases s.len(),
{
    if s.len() > 0 && white_space(s.first()) {
        lemma_trim_start_shape(s.drop_first());
    }
}

/// What is left of a text without its trailing white space is a prefix of
/// the text, and is empty or ends with a character that is none.
proof fn lemma_trim_end_shape(s: Seq<char>)
    ensures
        trim_end_spec(s).len() <= s.len(),
        trim_end_spec(s) == s.take(trim_end_spec(s).len() as int),
        trim_end_spec(s).len() > 0 ==> !white_space(trim_end_spec(s).last()),
    decreases s.len(),
{
    if s.len() > 0 && white_space(s.last()) {
        let t = s.drop_last();
        lemma_trim_end_shape(t);
        assert(t.take(trim_end_spec(t).len() as int) =~= s.take(trim_end_spec(t).len() as int));
    } else {
        assert(s.take(s.len() as int) =~= s);
    }
}

/// A trimmed text is empty, or begins and ends with a character that is no
/// white space.
pub proof fn lemma_trimmed_ends(s: Seq<char>)
    ensures
        trimmed(s).len() > 0 ==> !white_space(trimmed(s).first()) && !white_space(
            trimmed(s).last(),
        ),
{
    let u = trim_start_spec(s);
    lemma_trim_start_shape(s);
    lemma_trim_end_shape(u);
    if trimmed(s).len() > 0 {
        assert(trimmed(s).first() == u.take(trimmed(s).len() as int)[0]);
    }
}

/// A text that is empty, or begins and ends with a character that is no
/// white space, is its own trimmed text.
pub proof fn lemma_trimmed_fixed(t: Seq<char>)
    requires
        t.len() > 0 ==> !white_space(t.first()) && !white_space(t.last()),
    ensures
        trimmed(t) == t,
{
}

/// Trimming a trimmed text changes nothing.
pub proof fn law_trim_twice(s: Seq<char>)
    ensures
        trimmed(trimmed(s)) == trimmed(s),
{
    lemma_trimmed_ends(s);
    lemma_trimmed_fixed(trimmed(s));
}

/// `s` without leading and trailing white space (`str::trim`).
pub fn trim(s: &str) -> (r: &str)
    ensures
        r@ == trimmed(s@),
{
    let h = chars_of(s);
    let mut lo: usize = 0;
    while lo < h.len() && is_whitespace(h[lo])
        invariant
            lo <= h.len(),
            forall|k: int| 0 <= k < lo ==> white_space(h@[k]),
        decreases h.len() - lo,
    {
        lo += 1;
    }
    let mut hi: usize = h.len();
    while hi > lo && is_whitespace(h[hi - 1])
        invariant
            lo <= hi <= h.len(),
            forall|k: int| hi <= k < h.len() ==> white_space(h@[k]),
        decreases hi,
    {
        hi -= 1;
    }
    proof {
        lemma_trim_start(s@, lo as int);
        let t = s@.skip(lo as int);
        assert forall|k: int| hi - lo <= k < t.len() implies white_space(t[k]) by {
            assert(t[k] == s@[k + lo]);
        }
        lemma_trim_end(t, hi - lo);
        assert(t.take(hi - lo) =~= s@.subrange(lo as int, hi as int));
    }
    s.substring_char(lo, hi)
}

/// The length of the first line of `s`, its line ending not counted.
pub open spec fn line_len(s: Seq<char>) -> int
    decreases s.len(),
{
    if s.len() == 0 || s.first() == '\n' {
        0
    } else {
        1 + line_len(s.drop_first())
    }
}

/// The lines of `s` (`str::lines`): a line ends at `\n` or `\r\n`, which are
/// left out; the last line needs no line ending, and keeps a bare `\r`.
pub open spec fn lines_of(s: Seq<char>) -> Seq<Seq<char>>
    decreases s.len(),
{
    if s.len() == 0 {
        Seq::empty()
    } else {
        let n = line_len(s);
        if 0 <= n < s.len() {
            let raw = s.take(n);
            let line = if raw.len() > 0 && raw.last() == '\r' {
                raw.drop_last()
            } else {
                raw
            };
            seq![line] + lines_of(s.skip(n + 1))
        } else {
            seq![s]
        }
    }
}

proof fn lemma_line_len(s: Seq<char>, n: int)
    requires
        0 <= n <= s.len(),
        forall|k: int| 0 <= k < n ==> s[k] != '\n',
        n < s.len() ==> s[n] == '\n',
    ensures
        line_len(s) == n,
    decreases n,
{
    if n > 0 {
        let t = s.drop_first();
        assert forall|k: int| 0 <= k < n - 1 implies t[k] != '\n' by {
            assert(t[k] == s[k + 1]);
        }
        lemma_line_len(t, n - 1);
    }
}

/// The lines of `s`, as `str::lines` yields them.
pub fn lines(s: &str) -> (r: Vec<&str>)
    ensures
        r@.len() == lines_of(s@).len(),
        forall|i: int| 0 <= i < r@.len() ==> (#[trigger] r@[i])@ == lines_of(s@)[i],
{
    let h = chars_of(s);
    let mut out: Vec<&str> = Vec::new();
    let mut start: usize = 0;
    let ghost mut done: Seq<Seq<char>> = Seq::empty();
    proof {
        assert(s@.skip(0) =~= s@);
        assert(done + lines_of(s@) =~= lines_of(s@));
    }
    while start < h.len()
        invariant
            start <= h.len(),
            h@ == s@,
            out@.len() == done.len(),
            forall|i: int| 0 <= i < out@.len() ==> (#[trigger] out@[i])@ == done[i],
            lines_of(s@) == done + lines_of(s@.skip(start as int)),
        decreases h.len() - start,
    {
        let mut end: usize = start;
        while end < h.len() && h[end] != '\n'
            invariant
                start <= end <= h.len(),
                forall|k: int| start <= k < end ==> h@[k] != '\n',
            decreases h.len() - end,
        {
            end += 1;
        }
        let ghost rest = s@.skip(start as int);
        proof {
            assert forall|k: int| 0 <= k < end - start implies rest[k] != '\n' by {
                assert(rest[k] == h@[k + start]);
            }
            lemma_line_len(rest, end - start);
        }
        if end < h.len() {
            let cut = if end > start && h[end - 1] == '\r' {
                end - 1
            } else {
                end
            };
            let line = s.substring_char(start, cut);
            proof {
                let raw = rest.take(end - start);
                assert(raw =~= s@.subrange(start as int, end as int));
                if raw.len() > 0 && raw.last() == '\r' {
                    assert(raw.drop_last() =~= s@.subrange(start as int, cut as int));
                }
                assert(rest.skip(end - start + 1) =~= s@.skip(end + 1));
                assert(done.push(line@) + lines_of(s@.skip(end + 1)) =~= done + (seq![line@]
                    + lines_of(s@.skip(end + 1))));
                done = done.push(line@);
            }
            out.push(line);
            start = end + 1;
        } else {
            let line = s.substring_char(start, end);
            proof {
                assert(rest =~= s@.subrange(start as int, end as int));
                assert(s@.skip(end as int) =~= Seq::<char>::empty());
                assert(done.push(line@) + lines_of(s@.skip(end as int)) =~= done + seq![rest]);
                done = done.push(line@);
            }
            out.push(line);
            start = end;
        }
    }
    proof {
        assert(s@.skip(start as int) =~= Seq::<char>::empty());
        assert(done + Seq::<Seq<char>>::empty() =~= done);
    }
    out
}

/// What a decimal text means as an `i64` (`str::parse::<i64>`), if it is one.
pub uninterp spec fn decimal_i64(text: Seq<char>) -> Option<i64>;

/// What a decimal text means as a `u64` (`str::parse::<u64>`), if it is one.
pub uninterp spec fn decimal_u64(text: Seq<char>) -> Option<u64>;

/// `str::parse::<i64>`: the number that `text` spells, or `None`.
#[verifier::external_body]
pub(crate) fn parse_i64(text: &str) -> (r: Option<i64>)
    ensures
        r == decimal_i64(text@),
{
    text.parse::<i64>().ok()
}

/// `str::parse::<u64>`: the number that `text` spells, or `None`.
#[verifier::external_body]
pub(crate) fn parse_u64(text: &str) -> (r: Option<u64>)
    ensures
        r == decimal_u64(text@),
{
    text.parse::<u64>().ok()
}

/// The character of a decimal digit.
pub open spec fn digit_char(d: int) -> char {
    if d == 0 {
        '0'
    } else if d == 1 {
        '1'
    } else if d == 2 {
        '2'
    } else if d == 3 {
        '3'
    } else if d == 4 {
        '4'
    } else if d == 5 {
        '5'
    } else if d == 6 {
        '6'
    } else if d == 7 {
        '7'
    } else if d == 8 {
        '8'
    } else {
        '9'
    }
}

/// The decimal text of a natural number: no leading zeros, and `0` for nought.
pub open spec fn nat_text(n: nat) -> Seq<char>
    decreases n,
{
    if n < 10 {
        seq![digit_char(n as int)]
    } else {
        nat_text(n / 10).push(digit_char((n % 10) as int))
    }
}

/// The decimal text of an integer: a minus sign before a negative number.
pub open spec fn i64_text(n: i64) -> Seq<char> {
    if n < 0 {
        seq!['-'] + nat_text((-n) as nat)
    } else {
        nat_text(n as nat)
    }
}

/// The characters of digits that were collected from the last one on.
pub open spec fn digits_back(digits: Seq<u8>) -> Seq<char> {
    Seq::new(digits.len(), |i: int| digit_char(digits[digits.len() - 1 - i] as int))
}

/// The text of a decimal digit.
fn digit_str(d: u8) -> (r: &'static str)
    requires
        d < 10,
    ensures
        r@ == seq![digit_char(d as int)],
{
    proof {
        reveal_strlit("0");
        reveal_strlit("1");
        reveal_strlit("2");
        reveal_strlit("3");
        reveal_strlit("4");
        reveal_strlit("5");
        reveal_strlit("6");
        reveal_strlit("7");
        reveal_strlit("8");
        reveal_strlit("9");
    }
    let r = if d == 0 {
        "0"
    } else if d == 1 {
        "1"
    } else if d == 2 {
        "2"
    } else if d == 3 {
        "3"
    } else if d == 4 {
        "4"
    } else if d == 5 {
        "5"
    } else if d == 6 {
        "6"
    } else if d == 7 {
        "7"
    } else if d == 8 {
        "8"
    } else {
        "9"
    };
    assert(r@ =~= seq![digit_char(d as int)]);
    r
}

/// The decimal text of `n`, as `i64::to_string` writes it.
pub fn i64_to_string(n: i64) -> (r: String)
    ensures
        r@ == i64_text(n),
{
    let mut rest: u64 = if n < 0 {
        (-(n as i128)) as u64
    } else {
        n as u64
    };
    let ghost all: nat = rest as nat;
    let mut digits: Vec<u8> = Vec::new();
    proof {
        assert(nat_text(all) + digits_back(digits@) =~= nat_text(all));
    }
    while rest >= 10
        invariant
            nat_text(all) == nat_text(rest as nat) + digits_back(digits@),
            forall|k: int| 0 <= k < digits@.len() ==> digits@[k] < 10,
        decreases rest,
    {
        let ghost before = digits@;
        let d: u8 = (rest % 10) as u8;
        digits.push(d);
        proof {
            assert(digits_back(digits@) =~= seq![digit_char(d as int)] + digits_back(before));
            assert(nat_text(rest as nat) == nat_text((rest / 10) as nat).push(digit_char(d as int)));
            assert(nat_text((rest / 10) as nat).push(digit_char(d as int)) + digits_back(before)
                =~= nat_text((rest / 10) as nat) + (seq![digit_char(d as int)] + digits_back(
                before,
            )));
        }
        rest = rest / 10;
    }
    let ghost before = digits@;
    digits.push(rest as u8);
    proof {
        assert(digits_back(digits@) =~= seq![digit_char(rest as int)] + digits_back(before));
        assert(nat_text(all) == digits_back(digits@));
    }
    let mut out = String::from_str(
        if n < 0 {
            "-"
        } else {
            ""
        },
    );
    let ghost sign = out@;
    proof {
        reveal_strlit("-");
        reveal_strlit("");
        assert(sign =~= if n < 0 {
            seq!['-']
        } else {
            Seq::<char>::empty()
        });
    }
    let mut left: usize = digits.len();
    proof {
        assert(sign + digits_back(digits@).take(0) =~= sign);
    }
    while left > 0
        invariant
            left <= digits@.len(),
            forall|k: int| 0 <= k < digits@.len() ==> digits@[k] < 10,
            out@ == sign + digits_back(digits@).take(digits@.len() - left),
        decreases left,
    {
        left -= 1;
        let ghost shown = out@;
        out.append(digit_str(digits[left]));
        proof {
            let done = digits@.len() - left - 1;
            assert(digits_back(digits@).take(done + 1) =~= digits_back(digits@).take(done).push(
                digit_char(digits@[left as int] as int),
            ));
            assert(out@ =~= sign + digits_back(digits@).take(done + 1));
        }
    }
    proof {
        assert(digits_back(digits@).take(digits@.len() as int) =~= digits_back(digits@));
        assert(Seq::<char>::empty() + nat_text(all) =~= nat_text(all));
    }
    out
}

} // verus!
