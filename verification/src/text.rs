//! Character-level text operations.
//!
//! Every string of the library is viewed as its sequence of Unicode scalar
//! values. The functions of this module scan such sequences; what they compute
//! is stated over `Seq<char>`.

use vstd::prelude::*;
use vstd::utf8::{decode_utf8, encode_utf8, encode_utf8_decode_utf8, valid_utf8};

verus! {

/// `String::push` appends one character at the end of the string.
pub assume_specification[ std::string::String::push ](s: &mut std::string::String, c: char)
    ensures
        final(s)@ == old(s)@.push(c),
;

/// The text that `String::from_utf8_lossy` reads from `bytes`: what is
/// valid UTF-8 as it is, with U+FFFD in place of what is not.
pub uninterp spec fn utf8_lossy(bytes: Seq<u8>) -> Seq<char>;

/// Reads bytes as text with `String::from_utf8`, which accepts exactly the
/// valid UTF-8 sequences and gives the string that is made of these bytes.
#[verifier::external_body]
pub(crate) fn text_from_utf8(bytes: &Vec<u8>) -> (r: Option<String>)
    ensures
        r is Some <==> valid_utf8(bytes@),
        r matches Some(s) ==> encode_utf8(s@) == bytes@,
{
    String::from_utf8(bytes.clone()).ok()
}

/// Reads bytes as text with `String::from_utf8_lossy`, which never fails:
/// valid UTF-8 gives the string that is made of these bytes, anything else
/// is replaced by U+FFFD.
#[verifier::external_body]
pub(crate) fn text_from_utf8_lossy(bytes: &Vec<u8>) -> (r: String)
    ensures
        r@ == utf8_lossy(bytes@),
        valid_utf8(bytes@) ==> encode_utf8(r@) == bytes@,
{
    String::from_utf8_lossy(bytes).into_owned()
}

/// The text that `bytes` encode in UTF-8, or `None` where they are not
/// valid UTF-8.
pub fn utf8_text(bytes: &Vec<u8>) -> (r: Option<String>)
    ensures
        r is Some <==> valid_utf8(bytes@),
        r matches Some(s) ==> s@ == decode_utf8(bytes@),
{
    let r = text_from_utf8(bytes);
    proof {
        if r is Some {
            encode_utf8_decode_utf8(r->0@);
        }
    }
    r
}

/// A set of characters that a scan tests for.
#[derive(Clone, Copy, Debug)]
pub enum CharSet {
    /// The characters with the Unicode property `White_Space`.
    Whitespace,
    /// One character.
    Only(char),
    /// Two characters.
    Either(char, char),
}

/// The characters with the Unicode property `White_Space`.
pub open spec fn is_whitespace(c: char) -> bool {
    let n = c as u32;
    ||| (0x09 <= n && n <= 0x0D)
    ||| n == 0x20
    ||| n == 0x85
    ||| n == 0xA0
    ||| n == 0x1680
    ||| (0x2000 <= n && n <= 0x200A)
    ||| n == 0x2028
    ||| n == 0x2029
    ||| n == 0x202F
    ||| n == 0x205F
    ||| n == 0x3000
}

impl CharSet {
    /// Whether `c` belongs to the set.
    pub open spec fn has(self, c: char) -> bool {
        match self {
            CharSet::Whitespace => is_whitespace(c),
            CharSet::Only(a) => c == a,
            CharSet::Either(a, b) => c == a || c == b,
        }
    }

    /// Tests whether `c` belongs to the set.
    pub fn contains(&self, c: char) -> (r: bool)
        ensures
            r == self.has(c),
    {
        match self {
            CharSet::Whitespace => {
                let n: u32 = c as u32;
                (0x09 <= n && n <= 0x0D) || n == 0x20 || n == 0x85 || n == 0xA0 || n == 0x1680 || (
                0x2000 <= n && n <= 0x200A) || n == 0x2028 || n == 0x2029 || n == 0x202F || n
                    == 0x205F || n == 0x3000
            },
            CharSet::Only(a) => c == *a,
            CharSet::Either(a, b) => c == *a || c == *b,
        }
    }
}

/// `s` without its longest prefix of characters in `set`.
pub open spec fn strip_start(s: Seq<char>, set: CharSet) -> Seq<char>
    decreases s.len(),
{
    if s.len() > 0 && set.has(s[0]) {
        strip_start(s.skip(1), set)
    } else {
        s
    }
}

/// `s` without its longest suffix of characters in `set`.
pub open spec fn strip_end(s: Seq<char>, set: CharSet) -> Seq<char>
    decreases s.len(),
{
    if s.len() > 0 && set.has(s.last()) {
        strip_end(s.drop_last(), set)
    } else {
        s
    }
}

/// `s` without the characters of `set` at both ends.
pub open spec fn strip(s: Seq<char>, set: CharSet) -> Seq<char> {
    strip_end(strip_start(s, set), set)
}

/// `s` without surrounding whitespace.
pub open spec fn trimmed(s: Seq<char>) -> Seq<char> {
    strip(s, CharSet::Whitespace)
}

/// The pieces of `s` between the characters of `seps`, in order. There is
/// always one piece more than there are separators in `s`; a piece may be
/// empty.
pub open spec fn split_on(s: Seq<char>, seps: CharSet) -> Seq<Seq<char>>
    decreases s.len(),
{
    if s.len() == 0 {
        seq![Seq::<char>::empty()]
    } else {
        let before = split_on(s.drop_last(), seps);
        if seps.has(s.last()) {
            before.push(Seq::<char>::empty())
        } else {
            before.drop_last().push(before.last().push(s.last()))
        }
    }
}

/// The pieces of `parts` in order, with `sep` between each two neighbours.
pub open spec fn join_with(parts: Seq<Seq<char>>, sep: Seq<char>) -> Seq<char>
    decreases parts.len(),
{
    if parts.len() == 0 {
        Seq::<char>::empty()
    } else if parts.len() == 1 {
        parts[0]
    } else {
        join_with(parts.drop_last(), sep) + sep + parts.last()
    }
}

/// The view of an optional text.
pub open spec fn opt_view(text: Option<&str>) -> Option<Seq<char>> {
    match text {
        Some(t) => Some(t@),
        None => None,
    }
}

/// The views of a sequence of character vectors.
pub open spec fn vec_views(parts: Seq<Vec<char>>) -> Seq<Seq<char>> {
    Seq::new(parts.len(), |i: int| parts[i]@)
}

/// The views of a sequence of strings.
pub open spec fn string_views(parts: Seq<String>) -> Seq<Seq<char>> {
    Seq::new(parts.len(), |i: int| parts[i]@)
}

/// The index of the first occurrence of `c` in `s`, or the length of `s` where
/// `c` does not occur.
pub open spec fn position_of(s: Seq<char>, c: char) -> int
    decreases s.len(),
{
    if s.len() == 0 {
        0
    } else if s[0] == c {
        0
    } else {
        1 + position_of(s.skip(1), c)
    }
}

/// The decimal digit for `d`, which is below ten.
pub open spec fn digit_char(d: nat) -> char {
    if d == 0 {
        '0'
    } else if d == 1 {
        '1'
    } else if d == 2 {
        '2'
    } else if d == 3 {
        '3'
    } else if d == 4 {
        '4'
    } else if d == 5 {
        '5'
    } else if d == 6 {
        '6'
    } else if d == 7 {
        '7'
    } else if d == 8 {
        '8'
    } else {
        '9'
    }
}

/// `n` in decimal notation, without leading zeros.
pub open spec fn decimal(n: nat) -> Seq<char>
    decreases n,
{
    if n < 10 {
        seq![digit_char(n)]
    } else {
        decimal(n / 10).push(digit_char(n % 10))
    }
}

/// The characters of `s`.
pub fn chars_of(s: &str) -> (v: Vec<char>)
    ensures
        v@ == s@,
{
    let mut v: Vec<char> = Vec::new();
    for c in it: s.chars()
        invariant
            it.seq() == s@,
            v@ == it.seq().take(it.index() as int),
    {
        proof {
            assert(it.seq().take(it.index() + 1) =~= it.seq().take(it.index() as int).push(c));
        }
        v.push(c);
    }
    assert(s@.take(s@.len() as int) =~= s@);
    v
}

/// Appends the characters `v[lo..hi]` to `out`.
pub fn push_range(out: &mut String, v: &Vec<char>, lo: usize, hi: usize)
    requires
        lo <= hi <= v.len(),
    ensures
        final(out)@ == old(out)@ + v@.subrange(lo as int, hi as int),
{
    let mut i: usize = lo;
    while i < hi
        invariant
            lo <= i <= hi <= v.len(),
            out@ == old(out)@ + v@.subrange(lo as int, i as int),
        decreases hi - i,
    {
        out.push(v[i]);
        i += 1;
        assert(out@ =~= old(out)@ + v@.subrange(lo as int, i as int));
    }
}

/// The string made of the characters of `v`.
pub fn string_of(v: &Vec<char>) -> (s: String)
    ensures
        s@ == v@,
{
    let mut s = String::new();
    push_range(&mut s, v, 0, v.len());
    assert(s@ =~= v@);
    s
}

/// A copy of the characters `v[lo..hi]`.
pub fn copy_range(v: &Vec<char>, lo: usize, hi: usize) -> (out: Vec<char>)
    requires
        lo <= hi <= v.len(),
    ensures
        out@ == v@.subrange(lo as int, hi as int),
{
    let mut out: Vec<char> = Vec::new();
    let mut i: usize = lo;
    while i < hi
        invariant
            lo <= i <= hi <= v.len(),
            out@ == v@.subrange(lo as int, i as int),
        decreases hi - i,
    {
        out.push(v[i]);
        i += 1;
        assert(out@ =~= v@.subrange(lo as int, i as int));
    }
    out
}

/// Removing a prefix of characters of `set` before stripping changes nothing.
pub proof fn lemma_strip_start_skip(s: Seq<char>, set: CharSet, k: int)
    requires
        0 <= k <= s.len(),
        forall|j: int| 0 <= j < k ==> set.has(s[j]),
    ensures
        strip_start(s, set) == strip_start(s.skip(k), set),
    decreases k,
{
    if k > 0 {
        assert(s.skip(1).skip(k - 1) =~= s.skip(k));
        lemma_strip_start_skip(s.skip(1), set, k - 1);
    } else {
        assert(s.skip(0) =~= s);
    }
}

/// Removing a suffix of characters of `set` before stripping changes nothing.
pub proof fn lemma_strip_end_take(s: Seq<char>, set: CharSet, k: int)
    requires
        0 <= k <= s.len(),
        forall|j: int| k <= j < s.len() ==> set.has(s[j]),
    ensures
        strip_end(s, set) == strip_end(s.take(k), set),
    decreases s.len() - k,
{
    if k < s.len() {
        assert(s.drop_last().take(k) =~= s.take(k));
        lemma_strip_end_take(s.drop_last(), set, k);
    } else {
        assert(s.take(k) =~= s);
    }
}

/// The bounds of `v[lo..hi]` without the characters of `set` at both ends.
pub fn strip_bounds(v: &Vec<char>, lo: usize, hi: usize, set: CharSet) -> (r: (usize, usize))
    requires
        lo <= hi <= v.len(),
    ensures
        lo <= r.0 <= r.1 <= hi,
        v@.subrange(r.0 as int, r.1 as int) == strip(v@.subrange(lo as int, hi as int), set),
{
    let ghost s = v@.subrange(lo as int, hi as int);
    let mut a: usize = lo;
    while a < hi && set.contains(v[a])
        invariant
            lo <= a <= hi <= v.len(),
            s == v@.subrange(lo as int, hi as int),
            forall|j: int| 0 <= j < a - lo ==> set.has(s[j]),
        decreases hi - a,
    {
        a += 1;
    }
    let ghost t = s.skip(a - lo);
    proof {
        lemma_strip_start_skip(s, set, a - lo);
        assert(t =~= v@.subrange(a as int, hi as int));
        assert(strip_start(t, set) == t);
    }
    let mut b: usize = hi;
    while b > a && set.contains(v[b - 1])
        invariant
            a <= b <= hi <= v.len(),
            t == v@.subrange(a as int, hi as int),
            forall|j: int| b - a <= j < t.len() ==> set.has(t[j]),
        decreases b,
    {
        b -= 1;
    }
    proof {
        lemma_strip_end_take(t, set, b - a);
        assert(t.take(b - a) =~= v@.subrange(a as int, b as int));
        let u = t.take(b - a);
        assert(strip_end(u, set) == u);
    }
    (a, b)
}

/// `v` without the characters of `set` at both ends.
pub fn strip_chars(v: &Vec<char>, set: CharSet) -> (out: Vec<char>)
    ensures
        out@ == strip(v@, set),
{
    let (a, b) = strip_bounds(v, 0, v.len(), set);
    assert(v@.subrange(0, v.len() as int) =~= v@);
    copy_range(v, a, b)
}

/// Splitting always yields at least one piece.
pub proof fn lemma_split_nonempty(s: Seq<char>, seps: CharSet)
    ensures
        split_on(s, seps).len() >= 1,
    decreases s.len(),
{
    if s.len() > 0 {
        lemma_split_nonempty(s.drop_last(), seps);
    }
}

/// No piece holds a separator.
pub proof fn lemma_split_pieces_are_plain(s: Seq<char>, seps: CharSet, i: int, j: int)
    requires
        0 <= i < split_on(s, seps).len(),
        0 <= j < split_on(s, seps)[i].len(),
    ensures
        !seps.has(split_on(s, seps)[i][j]),
    decreases s.len(),
{
    if s.len() > 0 {
        let before = split_on(s.drop_last(), seps);
        lemma_split_nonempty(s.drop_last(), seps);
        if seps.has(s.last()) {
            if i < before.len() {
                lemma_split_pieces_are_plain(s.drop_last(), seps, i, j);
            }
        } else {
            if i < before.len() - 1 {
                lemma_split_pieces_are_plain(s.drop_last(), seps, i, j);
            } else if j < before.last().len() {
                lemma_split_pieces_are_plain(s.drop_last(), seps, i, j);
            }
        }
    }
}

/// Text without separators that is put behind `s` only lengthens the last
/// piece.
pub proof fn lemma_split_append_plain(s: Seq<char>, plain: Seq<char>, seps: CharSet)
    requires
        forall|j: int| 0 <= j < plain.len() ==> !seps.has(plain[j]),
    ensures
        split_on(s, seps).len() >= 1,
        split_on(s + plain, seps) == split_on(s, seps).drop_last().push(
            split_on(s, seps).last() + plain,
        ),
    decreases plain.len(),
{
    lemma_split_nonempty(s, seps);
    let pieces = split_on(s, seps);
    if plain.len() == 0 {
        assert(s + plain =~= s);
        assert(pieces.last() + plain =~= pieces.last());
        assert(pieces.drop_last().push(pieces.last()) =~= pieces);
    } else {
        let front = plain.drop_last();
        lemma_split_append_plain(s, front, seps);
        assert((s + plain).drop_last() =~= s + front);
        assert((s + plain).last() == plain.last());
        let before = split_on(s + front, seps);
        assert(before.drop_last() =~= pieces.drop_last());
        assert(before.last().push(plain.last()) =~= pieces.last() + plain);
    }
}

/// Splitting what was joined gives the parts back, where no part holds a
/// separator and the parts were joined by one.
pub proof fn lemma_split_of_join(parts: Seq<Seq<char>>, sep: char, seps: CharSet)
    requires
        parts.len() >= 1,
        seps.has(sep),
        forall|i: int, j: int|
            0 <= i < parts.len() && 0 <= j < parts[i].len() ==> !seps.has(#[trigger] parts[i][j]),
    ensures
        split_on(join_with(parts, seq![sep]), seps) == parts,
    decreases parts.len(),
{
    let empty = Seq::<char>::empty();
    if parts.len() == 1 {
        lemma_split_append_plain(empty, parts[0], seps);
        assert(empty + parts[0] =~= parts[0]);
        assert(split_on(empty, seps) =~= seq![empty]);
        assert(seq![empty].drop_last().push(empty + parts[0]) =~= parts);
    } else {
        let front = parts.drop_last();
        assert forall|i: int, j: int|
            0 <= i < front.len() && 0 <= j < front[i].len() implies !seps.has(
            #[trigger] front[i][j],
        ) by {
            assert(front[i][j] == parts[i][j]);
        }
        lemma_split_of_join(front, sep, seps);
        let joined = join_with(front, seq![sep]);
        let opened = joined.push(sep);
        assert(opened.drop_last() =~= joined);
        assert(split_on(opened, seps) == front.push(empty));
        assert forall|j: int| 0 <= j < parts.last().len() implies !seps.has(parts.last()[j]) by {
            assert(parts.last()[j] == parts[parts.len() - 1][j]);
        }
        lemma_split_append_plain(opened, parts.last(), seps);
        assert(opened + parts.last() =~= joined + seq![sep] + parts.last());
        assert(front.push(empty).drop_last().push(empty + parts.last()) =~= parts);
    }
}

/// A text that begins with a separator has an empty first piece, and at
/// least one more.
pub proof fn lemma_split_of_rooted(s: Seq<char>, seps: CharSet)
    requires
        s.len() > 0,
        seps.has(s[0]),
    ensures
        split_on(s, seps).len() >= 2,
        split_on(s, seps)[0].len() == 0,
    decreases s.len(),
{
    let front = s.drop_last();
    if front.len() == 0 {
        assert(split_on(front, seps) =~= seq![Seq::<char>::empty()]);
    } else {
        assert(front[0] == s[0]);
        lemma_split_of_rooted(front, seps);
    }
}

/// Joining the pieces of a text by the separator that it was split on
/// gives the text back.
pub proof fn lemma_join_of_split(s: Seq<char>, sep: char)
    ensures
        join_with(split_on(s, CharSet::Only(sep)), seq![sep]) == s,
    decreases s.len(),
{
    let seps = CharSet::Only(sep);
    if s.len() == 0 {
        assert(join_with(seq![Seq::<char>::empty()], seq![sep]) =~= s);
    } else {
        let front = s.drop_last();
        lemma_join_of_split(front, sep);
        lemma_split_nonempty(front, seps);
        let before = split_on(front, seps);
        if seps.has(s.last()) {
            let after = before.push(Seq::<char>::empty());
            assert(after.drop_last() =~= before);
            assert(join_with(after, seq![sep]) =~= front.push(sep));
            assert(front.push(sep) =~= s);
        } else {
            let grown = before.last().push(s.last());
            let after = before.drop_last().push(grown);
            if before.len() == 1 {
                assert(before[0] == front);
                assert(join_with(after, seq![sep]) =~= s);
            } else {
                assert(after.drop_last() =~= before.drop_last());
                assert(join_with(before, seq![sep]) == join_with(before.drop_last(), seq![sep])
                    + seq![sep] + before.last());
                assert(join_with(after, seq![sep]) =~= join_with(before, seq![sep]).push(
                    s.last(),
                ));
                assert(front.push(s.last()) =~= s);
            }
        }
    }
}

/// The pieces of `v` between the characters of `seps`.
pub fn split_chars(v: &Vec<char>, seps: CharSet) -> (parts: Vec<Vec<char>>)
    ensures
        vec_views(parts@) == split_on(v@, seps),
{
    let mut parts: Vec<Vec<char>> = Vec::new();
    let mut current: Vec<char> = Vec::new();
    let mut i: usize = 0;
    assert(v@.take(0) =~= Seq::<char>::empty());
    assert(vec_views(parts@).push(current@) =~= split_on(v@.take(0), seps));
    while i < v.len()
        invariant
            i <= v.len(),
            vec_views(parts@).push(current@) == split_on(v@.take(i as int), seps),
        decreases v.len() - i,
    {
        let c = v[i];
        let ghost before = split_on(v@.take(i as int), seps);
        proof {
            assert(v@.take(i + 1).drop_last() =~= v@.take(i as int));
            assert(v@.take(i + 1).last() == c);
            assert(before.last() == current@);
            assert(before.drop_last() =~= vec_views(parts@));
        }
        if seps.contains(c) {
            let ghost old_parts = parts@;
            parts.push(current);
            current = Vec::new();
            proof {
                assert(vec_views(parts@) =~= before);
            }
        } else {
            current.push(c);
        }
        i += 1;
    }
    assert(v@.take(v.len() as int) =~= v@);
    let ghost done = vec_views(parts@);
    parts.push(current);
    assert(vec_views(parts@) =~= done.push(current@));
    parts
}

/// Whether `v` begins with the characters of `prefix`.
pub fn has_prefix(v: &Vec<char>, prefix: &Vec<char>) -> (r: bool)
    ensures
        r == prefix@.is_prefix_of(v@),
{
    if prefix.len() > v.len() {
        return false;
    }
    let mut i: usize = 0;
    while i < prefix.len()
        invariant
            i <= prefix.len() <= v.len(),
            forall|j: int| 0 <= j < i ==> prefix@[j] == v@[j],
        decreases prefix.len() - i,
    {
        if prefix[i] != v[i] {
            assert(v@.subrange(0, prefix@.len() as int)[i as int] != prefix@[i as int]);
            return false;
        }
        i += 1;
    }
    assert(prefix@ =~= v@.subrange(0, prefix@.len() as int));
    true
}

/// Whether two character vectors hold the same text.
pub fn same_chars(a: &Vec<char>, b: &Vec<char>) -> (r: bool)
    ensures
        r == (a@ == b@),
{
    if a.len() != b.len() {
        return false;
    }
    let mut i: usize = 0;
    while i < a.len()
        invariant
            i <= a.len(),
            a.len() == b.len(),
            forall|j: int| 0 <= j < i ==> a@[j] == b@[j],
        decreases a.len() - i,
    {
        if a[i] != b[i] {
            return false;
        }
        i += 1;
    }
    assert(a@ =~= b@);
    true
}

/// The index of the first occurrence of `c` in `v`, or the length of `v`.
pub fn find_char(v: &Vec<char>, c: char) -> (r: usize)
    ensures
        r == position_of(v@, c),
        r <= v.len(),
        r < v.len() ==> v@[r as int] == c,
        forall|j: int| 0 <= j < r ==> v@[j] != c,
{
    let mut i: usize = 0;
    assert(v@.skip(0) =~= v@);
    while i < v.len() && v[i] != c
        invariant
            i <= v.len(),
            forall|j: int| 0 <= j < i ==> v@[j] != c,
            position_of(v@, c) == i + position_of(v@.skip(i as int), c),
        decreases v.len() - i,
    {
        proof {
            assert(v@.skip(i as int).skip(1) =~= v@.skip(i + 1));
        }
        i += 1;
    }
    i
}

/// The decimal digit for `d`.
fn digit_of(d: u8) -> (c: char)
    requires
        d < 10,
    ensures
        c == digit_char(d as nat),
{
    if d == 0 {
        '0'
    } else if d == 1 {
        '1'
    } else if d == 2 {
        '2'
    } else if d == 3 {
        '3'
    } else if d == 4 {
        '4'
    } else if d == 5 {
        '5'
    } else if d == 6 {
        '6'
    } else if d == 7 {
        '7'
    } else if d == 8 {
        '8'
    } else {
        '9'
    }
}

/// Appends `n` in decimal notation to `out`.
pub fn push_decimal(out: &mut String, n: usize)
    ensures
        final(out)@ == old(out)@ + decimal(n as nat),
    decreases n,
{
    if n < 10 {
        out.push(digit_of(n as u8));
        assert(out@ =~= old(out)@ + decimal(n as nat));
    } else {
        push_decimal(out, n / 10);
        out.push(digit_of((n % 10) as u8));
        assert(out@ =~= old(out)@ + decimal(n as nat));
    }
}

} // verus!
