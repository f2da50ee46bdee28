//! Text functions over character sequences.
//!
//! Each function is stated on the sequence of characters that a string holds,
//! by a spec function of its own, and proved against it.

use vstd::prelude::*;
use vstd::string::*;

verus! {

// ---------------------------------------------------------------------------
// Characters
// ---------------------------------------------------------------------------

/// The code points with the Unicode `White_Space` property.
pub open spec fn is_white_space(c: char) -> bool {
    let n = c as u32;
    ||| 0x9 <= n <= 0xd
    ||| n == 0x20
    ||| n == 0x85
    ||| n == 0xa0
    ||| n == 0x1680
    ||| 0x2000 <= n <= 0x200a
    ||| n == 0x2028
    ||| n == 0x2029
    ||| n == 0x202f
    ||| n == 0x205f
    ||| n == 0x3000
}

/// `char::is_whitespace` tests the `White_Space` property of the Unicode
/// Character Database, which holds of the code points that `is_white_space`
/// lists.
pub assume_specification[ char::is_whitespace ](c: char) -> (r: bool)
    ensures
        r == is_white_space(c),
;

/// Whether a character is alphabetic or numeric in the sense of Unicode: the
/// result of `char::is_alphanumeric`.
pub uninterp spec fn alphanumeric(c: char) -> bool;

/// Whether a character is an ASCII letter or digit.
pub open spec fn ascii_alphanumeric(c: char) -> bool {
    ||| '0' <= c <= '9'
    ||| 'A' <= c <= 'Z'
    ||| 'a' <= c <= 'z'
}

/// An invisible mark that sets the direction of writing.
pub open spec fn bidi_mark(c: char) -> bool {
    let n = c as u32;
    ||| n == 0x200e
    ||| n == 0x200f
    ||| 0x202a <= n <= 0x202e
    ||| 0x2066 <= n <= 0x2069
    ||| n == 0xfeff
}

/// `char::is_alphanumeric` depends on the character alone. Among the ASCII
/// characters the letters and the digits are alphanumeric, and no others. White
/// space and marks of direction, which Unicode counts among the separators, the
/// controls and the format characters, are neither alphabetic nor numeric.
pub assume_specification[ char::is_alphanumeric ](c: char) -> (r: bool)
    ensures
        r == alphanumeric(c),
        (c as u32) < 128 ==> r == ascii_alphanumeric(c),
        is_white_space(c) || bidi_mark(c) ==> !r,
;

/// Whether a character is a letter or a digit: an ASCII one, or one in the sense
/// of Unicode. White space and marks of direction are none.
pub open spec fn letter_or_digit(c: char) -> bool {
    if (c as u32) < 128 {
        ascii_alphanumeric(c)
    } else {
        !is_white_space(c) && !bidi_mark(c) && alphanumeric(c)
    }
}

/// The lower-case form of an ASCII character.
pub open spec fn ascii_lowered(c: char) -> char {
    if 'A' <= c <= 'Z' {
        ((c as u32) + 32) as char
    } else {
        c
    }
}

/// The lower-case mapping of one character: the characters that
/// `char::to_lowercase` yields.
pub uninterp spec fn lowercase_char(c: char) -> Seq<char>;

/// A character in lower case.
pub open spec fn lowered_char(c: char) -> Seq<char> {
    if (c as u32) < 128 {
        seq![ascii_lowered(c)]
    } else {
        lowercase_char(c)
    }
}

/// `char::to_lowercase` yields the Unicode lower-case mapping of one
/// character, which depends on the character alone. An ASCII character is
/// mapped to its ASCII lower-case form.
#[verifier::external_body]
pub(crate) fn char_to_lowercase(c: char) -> (r: String)
    ensures
        r@ == lowercase_char(c),
        (c as u32) < 128 ==> r@ == seq![ascii_lowered(c)],
{
    c.to_lowercase().to_string()
}

/// The lower-case form of a text: the result of `str::to_lowercase`.
pub uninterp spec fn lowercase(s: Seq<char>) -> Seq<char>;

/// A text in lower case.
pub open spec fn lowered(s: Seq<char>) -> Seq<char> {
    if vstd::utf8::is_ascii_chars(s) {
        s.map_values(|c: char| ascii_lowered(c))
    } else {
        lowercase(s)
    }
}

/// `str::to_lowercase` depends on the text alone. An ASCII text is mapped
/// character by character to ASCII lower case.
pub assume_specification[ str::to_lowercase ](s: &str) -> (r: String)
    ensures
        r@ == lowercase(s@),
        vstd::utf8::is_ascii_chars(s@) ==> r@ == s@.map_values(|c: char| ascii_lowered(c)),
;

/// `String::push` appends the character to the end of the string.
pub assume_specification[ String::push ](s: &mut String, c: char)
    ensures
        final(s)@ == old(s)@.push(c),
;

// ---------------------------------------------------------------------------
// Strings and character vectors
// ---------------------------------------------------------------------------

/// The texts that a sequence of strings holds.
pub open spec fn texts(v: Seq<String>) -> Seq<Seq<char>> {
    v.map_values(|s: String| s@)
}

/// The text that an optional string holds.
pub open spec fn opt_text(o: Option<String>) -> Option<Seq<char>> {
    match o {
        Some(s) => Some(s@),
        None => None,
    }
}

/// The characters of a string.
pub fn chars_of(s: &str) -> (r: Vec<char>)
    ensures
        r@ == s@,
{
    let mut out: Vec<char> = Vec::new();
    for c in it: s.chars()
        invariant
            it.seq() == s@,
            out@ == s@.take(it.index()),
    {
        out.push(c);
    }
    out
}

/// The string of the characters from `lo` up to `hi`.
pub fn string_of(chars: &Vec<char>, lo: usize, hi: usize) -> (r: String)
    requires
        lo <= hi <= chars@.len(),
    ensures
        r@ == chars@.subrange(lo as int, hi as int),
{
    let mut out = String::new();
    for i in lo..hi
        invariant
            lo <= i <= hi <= chars@.len(),
            out@ == chars@.subrange(lo as int, i as int),
    {
        out.push(chars[i]);
    }
    out
}

/// Whether two texts are the same.
pub fn same(a: &str, b: &str) -> (r: bool)
    ensures
        r == (a@ == b@),
{
    let x = chars_of(a);
    let y = chars_of(b);
    if x.len() != y.len() {
        return false;
    }
    for i in 0..x.len()
        invariant
            x@ == a@,
            y@ == b@,
            x@.len() == y@.len(),
            forall|j: int| 0 <= j < i ==> x@[j] == y@[j],
    {
        if x[i] != y[i] {
            return false;
        }
    }
    assert(a@ =~= b@);
    true
}

/// An owned copy of an optional string.
pub fn copy_opt(o: &Option<String>) -> (r: Option<String>)
    ensures
        opt_text(r) == opt_text(*o),
{
    match o {
        Some(s) => Some(s.clone()),
        None => None,
    }
}

// ---------------------------------------------------------------------------
// Trimming
// ---------------------------------------------------------------------------

/// A text without its leading white space.
pub open spec fn trimmed_start(s: Seq<char>) -> Seq<char>
    decreases s.len(),
{
    if s.len() > 0 && is_white_space(s[0]) {
        trimmed_start(s.drop_first())
    } else {
        s
    }
}

/// A text without its trailing white space.
pub open spec fn trimmed_end(s: Seq<char>) -> Seq<char>
    decreases s.len(),
{
    if s.len() > 0 && is_white_space(s.last()) {
        trimmed_end(s.drop_last())
    } else {
        s
    }
}

/// A text without its leading and trailing white space.
pub open spec fn trimmed(s: Seq<char>) -> Seq<char> {
    trimmed_end(trimmed_start(s))
}

/// Removes leading white space.
pub fn trim_start(s: &str) -> (r: String)
    ensures
        r@ == trimmed_start(s@),
{
    let chars = chars_of(s);
    let n: usize = chars.len();
    let mut lo: usize = 0;
    assert(s@.skip(0) =~= s@);
    while lo < n && chars[lo].is_whitespace()
        invariant
            chars@ == s@,
            n == s@.len(),
            lo <= n,
            trimmed_start(s@) == trimmed_start(s@.skip(lo as int)),
        decreases n - lo,
    {
        assert(s@.skip(lo as int).drop_first() =~= s@.skip(lo + 1));
        lo = lo + 1;
    }
    assert(s@.skip(lo as int) =~= s@.subrange(lo as int, n as int));
    string_of(&chars, lo, n)
}

/// Removes leading and trailing white space.
pub fn trim(s: &str) -> (r: String)
    ensures
        r@ == trimmed(s@),
{
    let chars = chars_of(s);
    let n: usize = chars.len();
    let mut lo: usize = 0;
    assert(s@.skip(0) =~= s@);
    while lo < n && chars[lo].is_whitespace()
        invariant
            chars@ == s@,
            n == s@.len(),
            lo <= n,
            trimmed_start(s@) == trimmed_start(s@.skip(lo as int)),
        decreases n - lo,
    {
        assert(s@.skip(lo as int).drop_first() =~= s@.skip(lo + 1));
        lo = lo + 1;
    }
    let mut hi: usize = n;
    assert(s@.skip(lo as int) =~= s@.subrange(lo as int, n as int));
    while lo < hi && chars[hi - 1].is_whitespace()
        invariant
            chars@ == s@,
            lo <= hi <= s@.len(),
            trimmed(s@) == trimmed_end(s@.subrange(lo as int, hi as int)),
        decreases hi - lo,
    {
        assert(s@.subrange(lo as int, hi as int).drop_last() =~= s@.subrange(lo as int, hi - 1));
        hi = hi - 1;
    }
    string_of(&chars, lo, hi)
}

/// Trimming the start leaves no more than there was.
proof fn lemma_trimmed_start_len(s: Seq<char>)
    ensures
        trimmed_start(s).len() <= s.len(),
        s.len() > 0 && is_white_space(s[0]) ==> trimmed_start(s).len() < s.len(),
    decreases s.len(),
{
    if s.len() > 0 && is_white_space(s[0]) {
        lemma_trimmed_start_len(s.drop_first());
    }
}

/// Trimming the end leaves no more than there was.
proof fn lemma_trimmed_end_len(s: Seq<char>)
    ensures
        trimmed_end(s).len() <= s.len(),
        s.len() > 0 && is_white_space(s.last()) ==> trimmed_end(s).len() < s.len(),
    decreases s.len(),
{
    if s.len() > 0 && is_white_space(s.last()) {
        lemma_trimmed_end_len(s.drop_last());
    }
}

/// A text that trimming leaves alone is one without white space at its ends.
pub proof fn lemma_trimmed_is_same(s: Seq<char>)
    ensures
        trimmed(s) == s <==> (s.len() > 0 ==> !is_white_space(s[0]) && !is_white_space(s.last())),
{
    lemma_trimmed_start_len(s);
    lemma_trimmed_end_len(trimmed_start(s));
}

// ---------------------------------------------------------------------------
// Searching
// ---------------------------------------------------------------------------

/// The index of the first `c` in `s`, or the length of `s` where there is none.
pub open spec fn first_index(s: Seq<char>, c: char) -> int
    decreases s.len(),
{
    if s.len() == 0 || s[0] == c {
        0
    } else {
        1 + first_index(s.drop_first(), c)
    }
}

/// The index that `first_index` gives is the first one.
pub proof fn lemma_first_index(s: Seq<char>, c: char)
    ensures
        0 <= first_index(s, c) <= s.len(),
        first_index(s, c) < s.len() ==> s[first_index(s, c)] == c,
        forall|i: int| 0 <= i < first_index(s, c) ==> s[i] != c,
    decreases s.len(),
{
    if s.len() > 0 && s[0] != c {
        lemma_first_index(s.drop_first(), c);
        assert forall|i: int| 0 <= i < first_index(s, c) implies s[i] != c by {
            if i > 0 {
                assert(s[i] == s.drop_first()[i - 1]);
            }
        }
    }
}

/// An index that is the first one is what `first_index` gives.
pub proof fn lemma_first_index_is(s: Seq<char>, c: char, k: int)
    requires
        0 <= k <= s.len(),
        k < s.len() ==> s[k] == c,
        forall|i: int| 0 <= i < k ==> s[i] != c,
    ensures
        first_index(s, c) == k,
{
    lemma_first_index(s, c);
}

/// The first index of `c` at or behind `from`, or the length.
pub fn index_from(chars: &Vec<char>, c: char, from: usize) -> (r: usize)
    requires
        from <= chars@.len(),
    ensures
        from <= r <= chars@.len(),
        r == from + first_index(chars@.skip(from as int), c),
        r < chars@.len() ==> chars@[r as int] == c,
{
    let mut i: usize = from;
    while i < chars.len() && chars[i] != c
        invariant
            from <= i <= chars@.len(),
            forall|j: int| from <= j < i ==> chars@[j] != c,
        decreases chars@.len() - i,
    {
        i = i + 1;
    }
    proof {
        lemma_first_index_is(chars@.skip(from as int), c, i - from);
    }
    i
}

/// Whether `pat` stands at the start of `s`.
pub open spec fn begins_with(s: Seq<char>, pat: Seq<char>) -> bool {
    pat.len() <= s.len() && s.take(pat.len() as int) == pat
}

/// Whether `pat` stands somewhere in `s`.
pub open spec fn occurs_in(pat: Seq<char>, s: Seq<char>) -> bool {
    exists|i: int| 0 <= i <= s.len() && #[trigger] begins_with(s.skip(i), pat)
}

fn begins_at(chars: &Vec<char>, pat: &Vec<char>, at: usize) -> (r: bool)
    requires
        at <= chars@.len(),
    ensures
        r == begins_with(chars@.skip(at as int), pat@),
{
    if pat.len() > chars.len() - at {
        return false;
    }
    let n: usize = chars.len();
    for i in 0..pat.len()
        invariant
            n == chars@.len(),
            at + pat@.len() <= n,
            forall|j: int| 0 <= j < i ==> chars@[at + j] == pat@[j],
    {
        if chars[at + i] != pat[i] {
            assert(chars@.skip(at as int).take(pat@.len() as int)[i as int] != pat@[i as int]);
            return false;
        }
    }
    assert(chars@.skip(at as int).take(pat@.len() as int) =~= pat@);
    true
}

/// Whether `s` starts with `pat`.
pub fn starts_with(s: &str, pat: &str) -> (r: bool)
    ensures
        r == begins_with(s@, pat@),
{
    let chars = chars_of(s);
    let p = chars_of(pat);
    assert(s@.skip(0) =~= s@);
    begins_at(&chars, &p, 0)
}

/// What follows `pat` in `s`, where `s` starts with `pat`.
pub fn strip_prefix(s: &str, pat: &str) -> (r: Option<String>)
    ensures
        opt_text(r) == (if begins_with(s@, pat@) {
            Some(s@.skip(pat@.len() as int))
        } else {
            None
        }),
{
    let chars = chars_of(s);
    let p = chars_of(pat);
    assert(s@.skip(0) =~= s@);
    if begins_at(&chars, &p, 0) {
        assert(s@.skip(pat@.len() as int) =~= s@.subrange(pat@.len() as int, s@.len() as int));
        Some(string_of(&chars, p.len(), chars.len()))
    } else {
        None
    }
}

/// Whether `pat` stands somewhere in `s`.
pub fn contains(s: &str, pat: &str) -> (r: bool)
    ensures
        r == occurs_in(pat@, s@),
{
    let chars = chars_of(s);
    let p = chars_of(pat);
    let n: usize = chars.len();
    let mut i: usize = 0;
    while i < n
        invariant
            chars@ == s@,
            p@ == pat@,
            n == s@.len(),
            i <= n,
            forall|j: int| 0 <= j < i ==> !#[trigger] begins_with(s@.skip(j), pat@),
        decreases n - i,
    {
        if begins_at(&chars, &p, i) {
            return true;
        }
        i = i + 1;
    }
    begins_at(&chars, &p, n)
}

// ---------------------------------------------------------------------------
// Splitting and joining
// ---------------------------------------------------------------------------

/// What stands before and behind the first `c`, where there is one.
pub open spec fn cut_once(s: Seq<char>, c: char) -> Option<(Seq<char>, Seq<char>)> {
    let i = first_index(s, c);
    if i < s.len() {
        Some((s.take(i), s.skip(i + 1)))
    } else {
        None
    }
}

/// The pieces of `s` between the occurrences of `c`.
pub open spec fn pieces(s: Seq<char>, c: char) -> Seq<Seq<char>>
    decreases s.len(),
    via pieces_decreases
{
    let i = first_index(s, c);
    if i < s.len() {
        seq![s.take(i)] + pieces(s.skip(i + 1), c)
    } else {
        seq![s]
    }
}

#[via_fn]
proof fn pieces_decreases(s: Seq<char>, c: char) {
    lemma_first_index(s, c);
}

/// The parts one behind another, with `sep` between each two.
pub open spec fn joined(parts: Seq<Seq<char>>, sep: Seq<char>) -> Seq<char>
    decreases parts.len(),
{
    if parts.len() == 0 {
        Seq::empty()
    } else if parts.len() == 1 {
        parts[0]
    } else {
        joined(parts.drop_last(), sep) + sep + parts.last()
    }
}

/// Joining from the front: the first part, then the rest.
pub proof fn lemma_joined_front(parts: Seq<Seq<char>>, sep: Seq<char>)
    requires
        parts.len() >= 2,
    ensures
        joined(parts, sep) == parts[0] + sep + joined(parts.drop_first(), sep),
    decreases parts.len(),
{
    let front = parts.drop_last();
    if parts.len() == 2 {
        assert(parts.drop_first() =~= seq![parts[1]]);
        assert(front =~= seq![parts[0]]);
        assert(joined(front, sep) == parts[0]);
        assert(joined(parts.drop_first(), sep) == parts[1]);
    } else {
        lemma_joined_front(front, sep);
        assert(parts.drop_first().drop_last() =~= front.drop_first());
        assert(joined(parts, sep) =~= parts[0] + sep + joined(parts.drop_first(), sep));
    }
}

/// Splitting gives at least one piece, and none that holds the separator.
pub proof fn lemma_pieces(s: Seq<char>, c: char)
    ensures
        pieces(s, c).len() > 0,
        forall|i: int| 0 <= i < pieces(s, c).len() ==> !(#[trigger] pieces(s, c)[i]).contains(c),
    decreases s.len(),
{
    let i = first_index(s, c);
    lemma_first_index(s, c);
    if i < s.len() {
        lemma_pieces(s.skip(i + 1), c);
        assert forall|j: int| 0 <= j < pieces(s, c).len() implies !(#[trigger] pieces(
            s,
            c,
        )[j]).contains(c) by {
            if j > 0 {
                assert(pieces(s, c)[j] == pieces(s.skip(i + 1), c)[j - 1]);
            }
        }
    }
}

/// Joining what a text was split into gives the text back.
pub proof fn lemma_join_undoes_split(s: Seq<char>, c: char)
    ensures
        joined(pieces(s, c), seq![c]) == s,
    decreases s.len(),
{
    let i = first_index(s, c);
    lemma_first_index(s, c);
    if i < s.len() {
        let rest = s.skip(i + 1);
        lemma_join_undoes_split(rest, c);
        lemma_pieces(rest, c);
        lemma_joined_front(pieces(s, c), seq![c]);
        assert(pieces(s, c).drop_first() =~= pieces(rest, c));
        assert(s =~= s.take(i) + seq![c] + rest);
    }
}

/// Splitting what parts without the separator were joined to gives the parts
/// back.
pub proof fn lemma_split_undoes_join(parts: Seq<Seq<char>>, c: char)
    requires
        parts.len() > 0,
        forall|i: int| 0 <= i < parts.len() ==> !(#[trigger] parts[i]).contains(c),
    ensures
        pieces(joined(parts, seq![c]), c) == parts,
    decreases parts.len(),
{
    let s = joined(parts, seq![c]);
    assert(!parts[0].contains(c));
    if parts.len() == 1 {
        assert forall|i: int| 0 <= i < s.len() implies s[i] != c by {
            assert(parts[0].contains(s[i]));
        }
        lemma_first_index_is(s, c, s.len() as int);
        assert(parts =~= seq![s]);
    } else {
        let rest = parts.drop_first();
        lemma_joined_front(parts, seq![c]);
        let k = parts[0].len() as int;
        assert forall|i: int| 0 <= i < k implies s[i] != c by {
            assert(s[i] == parts[0][i]);
            assert(parts[0].contains(s[i]));
        }
        lemma_first_index_is(s, c, k);
        assert(s.take(k) =~= parts[0]);
        assert(s.skip(k + 1) =~= joined(rest, seq![c]));
        assert forall|i: int| 0 <= i < rest.len() implies !(#[trigger] rest[i]).contains(c) by {
            assert(rest[i] == parts[i + 1]);
        }
        lemma_split_undoes_join(rest, c);
        assert(parts =~= seq![parts[0]] + rest);
    }
}

/// Cutting a text that was put together from a start without `c`, a `c`, and
/// an end gives the start and the end.
pub proof fn lemma_cut_once(a: Seq<char>, c: char, b: Seq<char>)
    requires
        !a.contains(c),
    ensures
        cut_once(a + seq![c] + b, c) == Some((a, b)),
{
    let s = a + seq![c] + b;
    assert forall|i: int| 0 <= i < a.len() implies s[i] != c by {
        assert(s[i] == a[i]);
        assert(a.contains(s[i]));
    }
    lemma_first_index_is(s, c, a.len() as int);
    assert(s.take(a.len() as int) =~= a);
    assert(s.skip(a.len() as int + 1) =~= b);
}

/// What stands before the cut holds no separator, and the two sides make up
/// the text.
pub proof fn lemma_cut_once_parts(s: Seq<char>, c: char)
    ensures
        cut_once(s, c) matches Some((a, b)) ==> !a.contains(c) && s == a + seq![c] + b,
        cut_once(s, c) is None <==> !s.contains(c),
{
    lemma_first_index(s, c);
    let i = first_index(s, c);
    if i < s.len() {
        assert(s[i] == c);
        assert(s =~= s.take(i) + seq![c] + s.skip(i + 1));
    }
}

/// Splits at the first `c`.
pub fn split_once(s: &str, c: char) -> (r: Option<(String, String)>)
    ensures
        match r {
            Some((a, b)) => cut_once(s@, c) == Some((a@, b@)),
            None => cut_once(s@, c) is None,
        },
{
    let chars = chars_of(s);
    assert(s@.skip(0) =~= s@);
    let i: usize = index_from(&chars, c, 0);
    if i < chars.len() {
        let a = string_of(&chars, 0, i);
        let b = string_of(&chars, i + 1, chars.len());
        assert(a@ =~= s@.take(i as int));
        assert(b@ =~= s@.skip(i + 1));
        Some((a, b))
    } else {
        None
    }
}

/// Splits at each `c`.
pub fn split(s: &str, c: char) -> (r: Vec<String>)
    ensures
        texts(r@) == pieces(s@, c),
{
    let chars = chars_of(s);
    let mut out: Vec<String> = Vec::new();
    let mut pos: usize = 0;
    assert(s@.skip(0) =~= s@);
    assert(texts(out@) + pieces(s@, c) =~= pieces(s@, c));
    loop
        invariant
            chars@ == s@,
            pos <= s@.len(),
            texts(out@) + pieces(s@.skip(pos as int), c) == pieces(s@, c),
        decreases s@.len() - pos,
    {
        let i: usize = index_from(&chars, c, pos);
        let piece = string_of(&chars, pos, i);
        let ghost rest = s@.skip(pos as int);
        let ghost before = texts(out@);
        out.push(piece);
        assert(piece@ =~= rest.take(i - pos));
        assert(texts(out@) =~= before.push(piece@));
        if i < chars.len() {
            assert(rest.skip(i - pos + 1) =~= s@.skip(i + 1));
            assert(before + pieces(rest, c) =~= texts(out@) + pieces(s@.skip(i + 1), c));
            pos = i + 1;
        } else {
            assert(rest.take(i - pos) =~= rest);
            assert(before + pieces(rest, c) =~= texts(out@));
            return out;
        }
    }
}

/// Joins the parts with `sep` between each two.
pub fn join(parts: &Vec<String>, sep: &str) -> (r: String)
    ensures
        r@ == joined(texts(parts@), sep@),
{
    let mut out = String::new();
    let ghost all = texts(parts@);
    for i in 0..parts.len()
        invariant
            all == texts(parts@),
            out@ == joined(all.take(i as int), sep@),
    {
        assert(all.take(i + 1).drop_last() =~= all.take(i as int));
        if i > 0 {
            out.append(sep);
        }
        out.append(parts[i].as_str());
        if i == 0 {
            assert(out@ =~= all[0]);
        }
    }
    assert(all.take(parts@.len() as int) =~= all);
    out
}

/// A line without the carriage return at its end.
pub open spec fn without_return(s: Seq<char>) -> Seq<char> {
    if s.len() > 0 && s.last() == '\r' {
        s.drop_last()
    } else {
        s
    }
}

/// The lines of a text. A line ends at a line feed, or at a carriage return
/// and a line feed; behind the last line feed there is one more line unless
/// nothing is left.
pub open spec fn line_seq(s: Seq<char>) -> Seq<Seq<char>>
    decreases s.len(),
    via line_seq_decreases
{
    let i = first_index(s, '\n');
    if s.len() == 0 {
        Seq::empty()
    } else if i < s.len() {
        seq![without_return(s.take(i))] + line_seq(s.skip(i + 1))
    } else {
        seq![s]
    }
}

#[via_fn]
proof fn line_seq_decreases(s: Seq<char>) {
    lemma_first_index(s, '\n');
}

/// Splits a text into its lines.
pub fn lines(s: &str) -> (r: Vec<String>)
    ensures
        texts(r@) == line_seq(s@),
{
    let chars = chars_of(s);
    let n: usize = chars.len();
    let mut out: Vec<String> = Vec::new();
    let mut pos: usize = 0;
    assert(s@.skip(0) =~= s@);
    assert(texts(out@) + line_seq(s@) =~= line_seq(s@));
    while pos < n
        invariant
            chars@ == s@,
            n == s@.len(),
            pos <= n,
            texts(out@) + line_seq(s@.skip(pos as int)) == line_seq(s@),
        decreases n - pos,
    {
        let i: usize = index_from(&chars, '\n', pos);
        let ghost rest = s@.skip(pos as int);
        let ghost before = texts(out@);
        let end: usize = if i < n && i > pos && chars[i - 1] == '\r' {
            i - 1
        } else {
            i
        };
        let line = string_of(&chars, pos, end);
        out.push(line);
        assert(texts(out@) =~= before.push(line@));
        if i < n {
            assert(line@ =~= without_return(rest.take(i - pos)));
            assert(rest.skip(i - pos + 1) =~= s@.skip(i + 1));
            assert(before + line_seq(rest) =~= texts(out@) + line_seq(s@.skip(i + 1)));
            pos = i + 1;
        } else {
            assert(line@ =~= rest);
            assert(before + line_seq(rest) =~= texts(out@));
            assert(texts(out@) + line_seq(s@.skip(n as int)) =~= texts(out@));
            pos = n;
        }
    }
    assert(texts(out@) + line_seq(s@.skip(n as int)) =~= texts(out@));
    out
}

/// Rows without line breaks, none of them empty, are the lines of the text that
/// they are joined to.
pub proof fn lemma_lines_undo_join(rows: Seq<Seq<char>>)
    requires
        forall|i: int|
            0 <= i < rows.len() ==> (#[trigger] rows[i]).len() > 0 && !rows[i].contains('\n')
                && rows[i].last() != '\r',
    ensures
        line_seq(joined(rows, seq!['\n'])) == rows,
    decreases rows.len(),
{
    let s = joined(rows, seq!['\n']);
    if rows.len() == 0 {
        assert(line_seq(s) =~= rows);
    } else if rows.len() == 1 {
        assert forall|i: int| 0 <= i < s.len() implies s[i] != '\n' by {
            assert(rows[0].contains(s[i]));
        }
        lemma_first_index_is(s, '\n', s.len() as int);
        assert(rows =~= seq![s]);
    } else {
        let rest = rows.drop_first();
        lemma_joined_front(rows, seq!['\n']);
        let k = rows[0].len() as int;
        assert forall|i: int| 0 <= i < k implies s[i] != '\n' by {
            assert(s[i] == rows[0][i]);
            assert(rows[0].contains(s[i]));
        }
        lemma_first_index_is(s, '\n', k);
        assert(s.take(k) =~= rows[0]);
        assert(s.skip(k + 1) =~= joined(rest, seq!['\n']));
        assert forall|i: int| 0 <= i < rest.len() implies (#[trigger] rest[i]).len() > 0
            && !rest[i].contains('\n') && rest[i].last() != '\r' by {
            assert(rest[i] == rows[i + 1]);
        }
        lemma_lines_undo_join(rest);
        assert(rows =~= seq![rows[0]] + rest);
    }
}

// ---------------------------------------------------------------------------
// Numbers
// ---------------------------------------------------------------------------

/// The decimal digit of a number below ten.
pub open spec fn digit(d: nat) -> char {
    (('0' as u32) + d) as char
}

/// The decimal digits of a number, without leading zeros.
pub open spec fn decimal(n: nat) -> Seq<char>
    decreases n,
{
    if n < 10 {
        seq![digit(n)]
    } else {
        decimal(n / 10).push(digit(n % 10))
    }
}

/// The decimal form of a signed number.
pub open spec fn signed_decimal(n: int) -> Seq<char> {
    if n < 0 {
        seq!['-'] + decimal((-n) as nat)
    } else {
        decimal(n as nat)
    }
}

/// Writes a number in decimal.
pub fn decimal_text(n: u64) -> (r: String)
    ensures
        r@ == decimal(n as nat),
    decreases n,
{
    let d: u8 = (n % 10) as u8;
    let c: char = (48u8 + d) as char;
    if n < 10 {
        let mut out = String::new();
        out.push(c);
        assert(out@ =~= seq![digit(n as nat)]);
        out
    } else {
        let mut out = decimal_text(n / 10);
        out.push(c);
        out
    }
}

/// Writes a signed number in decimal.
pub fn signed_decimal_text(n: i32) -> (r: String)
    ensures
        r@ == signed_decimal(n as int),
{
    if n < 0 {
        let mut out = String::new();
        out.push('-');
        let wide: i64 = n as i64;
        let digits = decimal_text((-wide) as u64);
        out.append(digits.as_str());
        assert(out@ =~= seq!['-'] + digits@);
        out
    } else {
        decimal_text(n as u64)
    }
}

/// Whether a text is one or more decimal digits.
pub open spec fn all_digits(s: Seq<char>) -> bool {
    s.len() > 0 && forall|i: int| 0 <= i < s.len() ==> '0' <= #[trigger] s[i] <= '9'
}

/// The number that a row of decimal digits writes.
pub open spec fn digits_value(s: Seq<char>) -> nat
    decreases s.len(),
{
    if s.len() == 0 {
        0
    } else {
        10 * digits_value(s.drop_last()) + ((s.last() as u32) - ('0' as u32)) as nat
    }
}

/// The number that a text writes: a sign or none, then one or more decimal
/// digits, with a value that 32 bits can hold.
pub open spec fn parsed_i32(s: Seq<char>) -> Option<int> {
    let signed = s.len() > 0 && (s[0] == '-' || s[0] == '+');
    let body = if signed {
        s.drop_first()
    } else {
        s
    };
    let value: int = if s.len() > 0 && s[0] == '-' {
        -(digits_value(body) as int)
    } else {
        digits_value(body) as int
    };
    if all_digits(body) && i32::MIN <= value <= i32::MAX {
        Some(value)
    } else {
        None
    }
}

/// A row of digits writes no smaller number than its start does.
proof fn lemma_digits_value_grows(s: Seq<char>, k: int)
    requires
        0 <= k <= s.len(),
        forall|i: int| 0 <= i < s.len() ==> '0' <= #[trigger] s[i] <= '9',
    ensures
        digits_value(s.take(k)) <= digits_value(s),
    decreases s.len() - k,
{
    if k < s.len() {
        lemma_digits_value_grows(s, k + 1);
        assert(s.take(k + 1).drop_last() =~= s.take(k));
        assert('0' <= s[k] <= '9');
    } else {
        assert(s.take(k) =~= s);
    }
}

/// Reads a signed decimal number.
pub fn parse_i32(s: &str) -> (r: Option<i32>)
    ensures
        match r {
            Some(n) => parsed_i32(s@) == Some(n as int),
            None => parsed_i32(s@) is None,
        },
{
    let chars = chars_of(s);
    let n: usize = chars.len();
    let negative: bool = n > 0 && chars[0] == '-';
    let start: usize = if n > 0 && (chars[0] == '-' || chars[0] == '+') {
        1
    } else {
        0
    };
    let ghost body = s@.skip(start as int);
    assert(start == 1 ==> body =~= s@.drop_first());
    assert(start == 0 ==> body =~= s@);
    if start == n {
        return None;
    }
    let mut value: i64 = 0;
    let mut i: usize = start;
    assert(body.take(0) =~= Seq::empty());
    while i < n
        invariant
            chars@ == s@,
            n == s@.len(),
            start <= i <= n,
            start <= 1,
            body == s@.skip(start as int),
            start == 1 ==> body == s@.drop_first(),
            start == 0 ==> body == s@,
            (start == 1) == (n > 0 && (s@[0] == '-' || s@[0] == '+')),
            negative == (n > 0 && s@[0] == '-'),
            0 <= value <= 2147483648,
            value == digits_value(body.take(i - start)),
            forall|j: int| 0 <= j < i - start ==> '0' <= #[trigger] body[j] <= '9',
        decreases n - i,
    {
        let c: char = chars[i];
        assert(body[i - start] == c);
        if c < '0' || c > '9' {
            assert(!all_digits(body));
            return None;
        }
        let d: i64 = (c as u32 - '0' as u32) as i64;
        value = value * 10 + d;
        assert(body.take(i + 1 - start).drop_last() =~= body.take(i - start));
        if value > 2147483648 {
            proof {
                if all_digits(body) {
                    lemma_digits_value_grows(body, i + 1 - start);
                }
            }
            return None;
        }
        i = i + 1;
    }
    assert(body.take(n - start) =~= body);
    assert(all_digits(body));
    if negative {
        Some((-value) as i32)
    } else if value <= 2147483647 {
        Some(value as i32)
    } else {
        None
    }
}

/// `unit` written `n` times.
pub open spec fn repeated(unit: Seq<char>, n: nat) -> Seq<char>
    decreases n,
{
    if n == 0 {
        Seq::empty()
    } else {
        repeated(unit, (n - 1) as nat) + unit
    }
}

/// Writes `unit` `n` times.
pub fn repeat(unit: &str, n: usize) -> (r: String)
    ensures
        r@ == repeated(unit@, n as nat),
{
    let mut out = String::new();
    for i in 0..n
        invariant
            out@ == repeated(unit@, i as nat),
    {
        out.append(unit);
    }
    out
}

// ---------------------------------------------------------------------------
// Laws
// ---------------------------------------------------------------------------

/// Whether a text is white space alone.
pub open spec fn blank(s: Seq<char>) -> bool {
    forall|i: int| 0 <= i < s.len() ==> is_white_space(#[trigger] s[i])
}

/// Whether a text has no white space at its start.
pub open spec fn starts_dense(s: Seq<char>) -> bool {
    s.len() > 0 ==> !is_white_space(s[0])
}

/// Whether a text has no white space at its end.
pub open spec fn ends_dense(s: Seq<char>) -> bool {
    s.len() > 0 ==> !is_white_space(s.last())
}

/// White space before a text that starts with none is what trimming the start
/// takes away, and all that it takes away.
pub proof fn law_trimming_the_start(before: Seq<char>, kept: Seq<char>)
    requires
        blank(before),
        starts_dense(kept),
    ensures
        trimmed_start(before + kept) == kept,
    decreases before.len(),
{
    let s = before + kept;
    if before.len() == 0 {
        assert(s =~= kept);
    } else {
        assert(s[0] == before[0]);
        let rest = before.drop_first();
        assert forall|i: int| 0 <= i < rest.len() implies is_white_space(#[trigger] rest[i]) by {
            assert(rest[i] == before[i + 1]);
        }
        assert(s.drop_first() =~= rest + kept);
        law_trimming_the_start(rest, kept);
    }
}

proof fn lemma_trimming_the_end(kept: Seq<char>, behind: Seq<char>)
    requires
        blank(behind),
        ends_dense(kept),
    ensures
        trimmed_end(kept + behind) == kept,
    decreases behind.len(),
{
    let s = kept + behind;
    if behind.len() == 0 {
        assert(s =~= kept);
    } else {
        assert(s.last() == behind[behind.len() - 1]);
        let rest = behind.drop_last();
        assert forall|i: int| 0 <= i < rest.len() implies is_white_space(#[trigger] rest[i]) by {
            assert(rest[i] == behind[i]);
        }
        assert(s.drop_last() =~= kept + rest);
        lemma_trimming_the_end(kept, rest);
    }
}

/// White space around a text that has none at its ends is what trimming takes
/// away, and all that it takes away.
pub proof fn law_trimming(before: Seq<char>, kept: Seq<char>, behind: Seq<char>)
    requires
        blank(before),
        blank(behind),
        starts_dense(kept),
        ends_dense(kept),
    ensures
        trimmed(before + kept + behind) == kept,
{
    if kept.len() == 0 {
        let s = before + kept + behind;
        assert forall|i: int| 0 <= i < s.len() implies is_white_space(#[trigger] s[i]) by {
            if i < before.len() {
                assert(s[i] == before[i]);
            } else {
                assert(s[i] == behind[i - before.len()]);
            }
        }
        let none: Seq<char> = Seq::empty();
        assert(s + none =~= s);
        law_trimming_the_start(s, none);
        assert(kept =~= none);
    } else {
        assert(before + kept + behind =~= before + (kept + behind));
        assert((kept + behind)[0] == kept[0]);
        law_trimming_the_start(before, kept + behind);
        lemma_trimming_the_end(kept, behind);
    }
}

proof fn lemma_trimmed_start_parts(s: Seq<char>) -> (lo: int)
    ensures
        0 <= lo <= s.len(),
        trimmed_start(s) == s.skip(lo),
        blank(s.take(lo)),
        starts_dense(s.skip(lo)),
    decreases s.len(),
{
    if s.len() > 0 && is_white_space(s[0]) {
        let rest = s.drop_first();
        let k = lemma_trimmed_start_parts(rest);
        assert(rest.skip(k) =~= s.skip(k + 1));
        assert forall|i: int| 0 <= i < k + 1 implies is_white_space(#[trigger] s.take(k + 1)[i]) by {
            if i > 0 {
                assert(rest.take(k)[i - 1] == s[i]);
            }
        }
        k + 1
    } else {
        assert(s.skip(0) =~= s);
        0
    }
}

/// What trimming the end leaves of a text is its start, up to white space alone.
pub proof fn lemma_trimmed_end_parts(s: Seq<char>) -> (hi: int)
    ensures
        0 <= hi <= s.len(),
        trimmed_end(s) == s.take(hi),
        blank(s.skip(hi)),
        ends_dense(s.take(hi)),
    decreases s.len(),
{
    let n = s.len() as int;
    if n > 0 && is_white_space(s.last()) {
        let rest = s.drop_last();
        let k = lemma_trimmed_end_parts(rest);
        assert(rest.take(k) =~= s.take(k));
        assert forall|i: int| 0 <= i < n - k implies is_white_space(#[trigger] s.skip(k)[i]) by {
            if i < n - k - 1 {
                assert(rest.skip(k)[i] == s[i + k]);
            }
        }
        k
    } else {
        assert(s.take(n) =~= s);
        n
    }
}

/// Every text is white space, what trimming leaves of it, and white space.
pub proof fn law_trimming_takes_white_space_only(s: Seq<char>) -> (parts: (Seq<char>, Seq<char>))
    ensures
        s == parts.0 + trimmed(s) + parts.1,
        blank(parts.0),
        blank(parts.1),
        starts_dense(trimmed(s)),
        ends_dense(trimmed(s)),
        trimmed(s).len() == 0 <==> blank(s),
{
    let lo = lemma_trimmed_start_parts(s);
    let middle = s.skip(lo);
    let hi = lemma_trimmed_end_parts(middle);
    let parts = (s.take(lo), middle.skip(hi));
    assert(s =~= parts.0 + trimmed(s) + parts.1);
    if hi > 0 {
        assert(middle.take(hi)[0] == middle[0]);
        assert(s[lo] == middle[0]);
    } else if middle.len() > 0 {
        assert(middle.skip(hi)[0] == middle[0]);
    }
    if trimmed(s).len() == 0 {
        assert forall|i: int| 0 <= i < s.len() implies is_white_space(#[trigger] s[i]) by {
            if i < lo {
                assert(parts.0[i] == s[i]);
            } else {
                assert(parts.1[i - lo] == s[i]);
            }
        }
    }
    parts
}

/// Trimming what is trimmed changes nothing.
pub proof fn law_trimming_twice_changes_nothing(s: Seq<char>)
    ensures
        trimmed(trimmed(s)) == trimmed(s),
{
    let _ = law_trimming_takes_white_space_only(s);
    lemma_trimmed_is_same(trimmed(s));
}

/// The parts of a joined text stand in it one behind another: a part more at
/// the end adds the separator and the part.
pub proof fn law_joining_adds_parts_in_order(
    parts: Seq<Seq<char>>,
    part: Seq<char>,
    sep: Seq<char>,
)
    ensures
        joined(Seq::<Seq<char>>::empty(), sep) == Seq::<char>::empty(),
        joined(seq![part], sep) == part,
        parts.len() > 0 ==> joined(parts.push(part), sep) == joined(parts, sep) + sep + part,
{
    assert(parts.push(part).drop_last() =~= parts);
}

/// A text stands in another exactly where something can be put before and
/// behind it to make that one up.
pub proof fn law_found_text_is_surrounded(before: Seq<char>, pat: Seq<char>, behind: Seq<char>)
    ensures
        occurs_in(pat, before + pat + behind),
        begins_with(pat + behind, pat),
{
    let s = before + pat + behind;
    assert((pat + behind).take(pat.len() as int) =~= pat);
    assert(s.skip(before.len() as int) =~= pat + behind);
    assert(begins_with(s.skip(before.len() as int), pat));
}

/// See [`law_found_text_is_surrounded`].
pub proof fn law_text_is_found_only_where_it_stands(pat: Seq<char>, s: Seq<char>) -> (parts: (
    Seq<char>,
    Seq<char>,
))
    requires
        occurs_in(pat, s),
    ensures
        s == parts.0 + pat + parts.1,
{
    let i = choose|i: int| 0 <= i <= s.len() && #[trigger] begins_with(s.skip(i), pat);
    let parts = (s.take(i), s.skip(i).skip(pat.len() as int));
    assert(s.skip(i) =~= pat + parts.1) by {
        assert(s.skip(i) =~= s.skip(i).take(pat.len() as int) + parts.1);
    }
    assert(s =~= s.take(i) + s.skip(i));
    assert(s =~= parts.0 + pat + parts.1);
    parts
}

/// A line feed ends a line, with a carriage return before it or without one. A
/// text without a line feed is one line, and nothing at all is none.
pub proof fn law_lines_end_at_line_feeds(line: Seq<char>, rest: Seq<char>)
    requires
        !line.contains('\n'),
    ensures
        line.len() > 0 ==> line_seq(line) == seq![line],
        line_seq(Seq::<char>::empty()) == Seq::<Seq<char>>::empty(),
        line.len() == 0 || line.last() != '\r' ==> line_seq(line + seq!['\n'] + rest) == seq![line]
            + line_seq(rest),
        line_seq(line + seq!['\r'] + seq!['\n'] + rest) == seq![line] + line_seq(rest),
{
    assert forall|i: int| 0 <= i < line.len() implies line[i] != '\n' by {
        assert(line.contains(line[i]));
    }
    lemma_first_index_is(line, '\n', line.len() as int);
    let plain = line + seq!['\n'] + rest;
    lemma_first_index_is(plain, '\n', line.len() as int);
    assert(plain.take(line.len() as int) =~= line);
    assert(plain.skip(line.len() as int + 1) =~= rest);
    let returned = line + seq!['\r'] + seq!['\n'] + rest;
    lemma_first_index_is(returned, '\n', line.len() as int + 1);
    assert(returned.take(line.len() as int + 1) =~= line.push('\r'));
    assert(line.push('\r').drop_last() =~= line);
    assert(returned.skip(line.len() as int + 2) =~= rest);
}

/// The digits of a number write that number, the first of them is no zero
/// unless the number is zero, and there is nothing but digits.
pub proof fn law_decimals_write_the_number(n: nat)
    ensures
        digits_value(decimal(n)) == n,
        all_digits(decimal(n)),
        decimal(n)[0] == '0' <==> n == 0,
        n == 0 ==> decimal(n).len() == 1,
    decreases n,
{
    let last = digit(n % 10);
    assert('0' <= last <= '9' && (last as u32) - ('0' as u32) == n % 10);
    if n < 10 {
        assert(decimal(n).drop_last() =~= Seq::empty());
        assert(digits_value(decimal(n).drop_last()) == 0);
    } else {
        law_decimals_write_the_number(n / 10);
        assert(decimal(n).drop_last() =~= decimal(n / 10));
        assert(decimal(n)[0] == decimal(n / 10)[0]);
        assert forall|i: int| 0 <= i < decimal(n).len() implies '0' <= #[trigger] decimal(n)[i]
            <= '9' by {
            if i < decimal(n / 10).len() {
                assert(decimal(n)[i] == decimal(n / 10)[i]);
            }
        }
    }
}

/// Reading back a number that was written gives the number, with a plus sign
/// before it too where it is not negative.
pub proof fn law_written_numbers_are_read_back(n: i32)
    ensures
        parsed_i32(signed_decimal(n as int)) == Some(n as int),
        n >= 0 ==> parsed_i32(seq!['+'] + signed_decimal(n as int)) == Some(n as int),
{
    let size: nat = (if n < 0 {
        -(n as int)
    } else {
        n as int
    }) as nat;
    law_decimals_write_the_number(size);
    assert('0' <= decimal(size)[0] <= '9');
    assert((seq!['-'] + decimal(size)).drop_first() =~= decimal(size));
    assert((seq!['+'] + decimal(size)).drop_first() =~= decimal(size));
}

/// What is read as a number is digits, with a sign before them or none, and
/// writes no number but the one that is read.
pub proof fn law_only_numbers_are_read(s: Seq<char>)
    ensures
        parsed_i32(s) matches Some(n) ==> {
            ||| all_digits(s) && n == digits_value(s)
            ||| s.len() > 1 && s[0] == '+' && all_digits(s.drop_first()) && n == digits_value(
                s.drop_first(),
            )
            ||| s.len() > 1 && s[0] == '-' && all_digits(s.drop_first()) && -n == digits_value(
                s.drop_first(),
            )
        },
        parsed_i32(s) matches Some(n) ==> i32::MIN <= n <= i32::MAX,
        all_digits(s) && digits_value(s) <= i32::MAX ==> parsed_i32(s) is Some,
{
}

/// Writing a unit some times and then some more times is writing it that many
/// times in all.
pub proof fn law_repetitions_add_up(unit: Seq<char>, a: nat, b: nat)
    ensures
        repeated(unit, 0) == Seq::<char>::empty(),
        repeated(unit, 1) == unit,
        repeated(unit, a + b) == repeated(unit, a) + repeated(unit, b),
    decreases b,
{
    assert(repeated(unit, 1) =~= repeated(unit, 0) + unit);
    if b == 0 {
        assert(repeated(unit, a) + repeated(unit, 0) =~= repeated(unit, a));
    } else {
        law_repetitions_add_up(unit, a, (b - 1) as nat);
        assert(repeated(unit, a) + repeated(unit, b) =~= repeated(unit, a) + repeated(
            unit,
            (b - 1) as nat,
        ) + unit);
    }
}

/// A text begins with another exactly where it is that one with something, or
/// nothing, behind it.
pub proof fn law_beginnings_are_followed_by_the_rest(s: Seq<char>, pat: Seq<char>)
    ensures
        begins_with(s, pat) ==> s == pat + s.skip(pat.len() as int),
        begins_with(s, Seq::empty()),
        begins_with(s, s),
        begins_with(s, pat) && begins_with(pat, s) ==> s == pat,
{
    if begins_with(s, pat) {
        assert(s =~= s.take(pat.len() as int) + s.skip(pat.len() as int));
        if begins_with(pat, s) {
            assert(s.take(s.len() as int) =~= s);
        }
    }
    assert(s.take(0) =~= Seq::empty());
    assert(s.take(s.len() as int) =~= s);
}

/// The texts of a row of strings are what the strings hold, in their order.
pub proof fn law_texts_are_what_strings_hold(v: Seq<String>, o: Option<String>)
    ensures
        texts(v).len() == v.len(),
        forall|i: int| 0 <= i < v.len() ==> #[trigger] texts(v)[i] == v[i]@,
        opt_text(o) is Some <==> o is Some,
        o matches Some(s) ==> opt_text(o) == Some(s@),
{
}

} // verus!
