use vstd::prelude::*;
use vstd::utf8::encode_utf8;
use vstd::utf8::encode_scalar;

verus! {

// ---------------------------------------------------------------------------
// Character classes
// ---------------------------------------------------------------------------

/// Code points with the Unicode `White_Space` property (the set `char::is_whitespace` uses).
pub open spec fn is_ws_code(u: u32) -> bool {
    ||| 9 <= u <= 13
    ||| u == 32
    ||| u == 0x85
    ||| u == 0xA0
    ||| u == 0x1680
    ||| 0x2000 <= u <= 0x200A
    ||| u == 0x2028
    ||| u == 0x2029
    ||| u == 0x202F
    ||| u == 0x205F
    ||| u == 0x3000
}

pub open spec fn is_ws(c: char) -> bool {
    is_ws_code(c as u32)
}

/// Which characters a trim removes.
#[derive(Clone, Copy, PartialEq, Eq, Debug)]
pub enum CharClass {
    /// Unicode whitespace.
    Whitespace,
    /// A single or a double quote.
    Quote,
}

pub open spec fn in_class(c: char, k: CharClass) -> bool {
    match k {
        CharClass::Whitespace => is_ws(c),
        CharClass::Quote => c == '\'' || c == '"',
    }
}

pub fn is_whitespace(c: char) -> (r: bool)
    ensures
        r == is_ws(c),
{
    let u = c as u32;
    (9 <= u && u <= 13) || u == 32 || u == 0x85 || u == 0xA0 || u == 0x1680 || (0x2000 <= u
        && u <= 0x200A) || u == 0x2028 || u == 0x2029 || u == 0x202F || u == 0x205F || u == 0x3000
}

pub fn char_in_class(c: char, k: CharClass) -> (r: bool)
    ensures
        r == in_class(c, k),
{
    match k {
        CharClass::Whitespace => is_whitespace(c),
        CharClass::Quote => c == '\'' || c == '"',
    }
}

// ---------------------------------------------------------------------------
// Conversions between `str`/`String` and character vectors
// ---------------------------------------------------------------------------

/// The characters of `s`, in order.
pub fn to_chars(s: &str) -> (r: Vec<char>)
    ensures
        r@ == s@,
{
    let mut r: Vec<char> = Vec::new();
    for c in it: s.chars()
        invariant
            r@ == it.seq().take(it.index()),
            it.seq() == s@,
    {
        r.push(c);
    }
    r
}

/// Collects characters into a `String` (std's `FromIterator<&char> for String`).
#[verifier::external_body]
pub(crate) fn chars_to_string(v: &[char]) -> (r: String)
    ensures
        r@ == v@,
{
    v.iter().collect()
}

/// Appends the characters of `s` to `v`.
pub fn push_str(v: &mut Vec<char>, s: &str)
    ensures
        final(v)@ == old(v)@ + s@,
{
    for c in it: s.chars()
        invariant
            v@ == old(v)@ + it.seq().take(it.index()),
            it.seq() == s@,
    {
        v.push(c);
    }
}

/// Appends `w` to `v`.
pub fn push_chars(v: &mut Vec<char>, w: &[char])
    ensures
        final(v)@ == old(v)@ + w@,
{
    let n = w.len();
    for i in 0..n
        invariant
            n == w@.len(),
            v@ == old(v)@ + w@.take(i as int),
    {
        v.push(w[i]);
        assert(w@.take(i + 1) =~= w@.take(i as int).push(w@[i as int]));
    }
    assert(w@.take(n as int) =~= w@);
}

/// A copy of `s[from..to]`.
pub fn slice_chars(s: &[char], from: usize, to: usize) -> (r: Vec<char>)
    requires
        from <= to <= s@.len(),
    ensures
        r@ == s@.subrange(from as int, to as int),
{
    let mut r: Vec<char> = Vec::new();
    let mut i = from;
    while i < to
        invariant
            from <= i <= to <= s@.len(),
            r@ == s@.subrange(from as int, i as int),
        decreases to - i,
    {
        r.push(s[i]);
        assert(s@.subrange(from as int, i + 1) =~= s@.subrange(from as int, i as int).push(s@[i as int]));
        i = i + 1;
    }
    r
}

/// Character-wise equality.
pub fn chars_eq(a: &[char], b: &[char]) -> (r: bool)
    ensures
        r == (a@ == b@),
{
    if a.len() != b.len() {
        return false;
    }
    let n = a.len();
    for i in 0..n
        invariant
            n == a@.len(),
            n == b@.len(),
            a@.take(i as int) == b@.take(i as int),
    {
        if a[i] != b[i] {
            assert(a@[i as int] != b@[i as int]);
            return false;
        }
        assert(a@.take(i + 1) =~= a@.take(i as int).push(a@[i as int]));
        assert(b@.take(i + 1) =~= b@.take(i as int).push(b@[i as int]));
    }
    assert(a@.take(n as int) =~= a@);
    assert(b@.take(n as int) =~= b@);
    true
}

/// Whether `v` spells the literal `s`.
pub fn chars_eq_str(v: &[char], s: &str) -> (r: bool)
    ensures
        r == (v@ == s@),
{
    let w = to_chars(s);
    chars_eq(v, &w)
}

// ---------------------------------------------------------------------------
// Prefixes and substrings
// ---------------------------------------------------------------------------

pub open spec fn starts_with(s: Seq<char>, p: Seq<char>) -> bool {
    p.len() <= s.len() && s.take(p.len() as int) == p
}

pub open spec fn occurs_at(h: Seq<char>, n: Seq<char>, i: int) -> bool {
    0 <= i && i + n.len() <= h.len() && h.subrange(i, i + n.len()) == n
}

pub open spec fn contains_seq(h: Seq<char>, n: Seq<char>) -> bool {
    exists|i: int| occurs_at(h, n, i)
}

/// Whether `p` is a prefix of `s`.
pub fn has_prefix(s: &[char], p: &[char]) -> (r: bool)
    ensures
        r == starts_with(s@, p@),
{
    if p.len() > s.len() {
        return false;
    }
    let head = slice_chars(s, 0, p.len());
    assert(head@ =~= s@.take(p@.len() as int));
    chars_eq(&head, p)
}

/// `Some(rest)` when `s` starts with the literal `p`, where `rest` is what follows it.
pub fn strip_prefix_str(s: &[char], p: &str) -> (r: Option<Vec<char>>)
    ensures
        r is Some <==> starts_with(s@, p@),
        r matches Some(rest) ==> rest@ == s@.skip(p@.len() as int),
{
    let pv = to_chars(p);
    if has_prefix(s, &pv) {
        let rest = slice_chars(s, pv.len(), s.len());
        assert(rest@ =~= s@.skip(p@.len() as int));
        Some(rest)
    } else {
        None
    }
}

/// Whether `n` occurs in `h` as a contiguous run.
pub fn contains_chars(h: &[char], n: &[char]) -> (r: bool)
    ensures
        r == contains_seq(h@, n@),
{
    if n.len() > h.len() {
        assert forall|i: int| !occurs_at(h@, n@, i) by {}
        return false;
    }
    let nl = n.len();
    let hl = h.len();
    let last = hl - nl;
    let mut i: usize = 0;
    loop
        invariant_except_break
            i <= last,
        invariant
            nl == n@.len(),
            hl == h@.len(),
            last + nl == hl,
            forall|j: int| 0 <= j < i ==> !occurs_at(h@, n@, j),
        ensures
            i == last,
            forall|j: int| 0 <= j <= i ==> !occurs_at(h@, n@, j),
        decreases last - i,
    {
        let piece = slice_chars(h, i, i + nl);
        if chars_eq(&piece, n) {
            assert(occurs_at(h@, n@, i as int));
            return true;
        }
        if i == last {
            break;
        }
        i = i + 1;
    }
    assert forall|j: int| !occurs_at(h@, n@, j) by {
        if 0 <= j && j + n@.len() <= h@.len() {
            assert(j <= i);
        }
    }
    false
}

/// Whether the literal `n` occurs in `h`.
pub fn contains_str(h: &[char], n: &str) -> (r: bool)
    ensures
        r == contains_seq(h@, n@),
{
    let nv = to_chars(n);
    contains_chars(h, &nv)
}

// ---------------------------------------------------------------------------
// Trimming
// ---------------------------------------------------------------------------

pub open spec fn trim_start_by(s: Seq<char>, k: CharClass) -> Seq<char>
    decreases s.len(),
{
    if s.len() > 0 && in_class(s[0], k) {
        trim_start_by(s.drop_first(), k)
    } else {
        s
    }
}

pub open spec fn trim_end_by(s: Seq<char>, k: CharClass) -> Seq<char>
    decreases s.len(),
{
    if s.len() > 0 && in_class(s.last(), k) {
        trim_end_by(s.drop_last(), k)
    } else {
        s
    }
}

/// `s` with every leading and trailing character of class `k` removed.
pub open spec fn trim_by(s: Seq<char>, k: CharClass) -> Seq<char> {
    trim_end_by(trim_start_by(s, k), k)
}

/// `s` with leading and trailing Unicode whitespace removed (what `str::trim` does).
pub open spec fn trim(s: Seq<char>) -> Seq<char> {
    trim_by(s, CharClass::Whitespace)
}

proof fn lemma_trim_start_skip(s: Seq<char>, k: CharClass, a: int)
    requires
        0 <= a <= s.len(),
        forall|i: int| 0 <= i < a ==> in_class(#[trigger] s[i], k),
    ensures
        trim_start_by(s, k) == trim_start_by(s.subrange(a, s.len() as int), k),
    decreases a,
{
    if a == 0 {
        assert(s.subrange(0, s.len() as int) =~= s);
    } else {
        assert(in_class(s[0], k));
        let t = s.drop_first();
        assert forall|i: int| 0 <= i < a - 1 implies in_class(#[trigger] t[i], k) by {
            assert(t[i] == s[i + 1]);
        }
        lemma_trim_start_skip(t, k, a - 1);
        assert(t.subrange(a - 1, t.len() as int) =~= s.subrange(a, s.len() as int));
    }
}

proof fn lemma_trim_end_skip(s: Seq<char>, k: CharClass, b: int)
    requires
        0 <= b <= s.len(),
        forall|i: int| b <= i < s.len() ==> in_class(#[trigger] s[i], k),
    ensures
        trim_end_by(s, k) == trim_end_by(s.subrange(0, b), k),
    decreases s.len() - b,
{
    if b == s.len() {
        assert(s.subrange(0, b) =~= s);
    } else {
        assert(in_class(s.last(), k));
        let t = s.drop_last();
        lemma_trim_end_skip(t, k, b);
        assert(t.subrange(0, b) =~= s.subrange(0, b));
    }
}

/// `s` with leading and trailing characters of class `k` removed.
pub fn trim_chars(s: &[char], k: CharClass) -> (r: Vec<char>)
    ensures
        r@ == trim_by(s@, k),
{
    let n = s.len();
    let mut a: usize = 0;
    while a < n && char_in_class(s[a], k)
        invariant
            a <= n == s@.len(),
            forall|i: int| 0 <= i < a ==> in_class(#[trigger] s@[i], k),
        decreases n - a,
    {
        a = a + 1;
    }
    proof {
        lemma_trim_start_skip(s@, k, a as int);
    }
    let ghost t = s@.subrange(a as int, n as int);
    assert(trim_start_by(t, k) == t);
    let mut b: usize = n;
    while b > a && char_in_class(s[b - 1], k)
        invariant
            a <= b <= n == s@.len(),
            t == s@.subrange(a as int, n as int),
            forall|i: int| b - a <= i < t.len() ==> in_class(#[trigger] t[i], k),
        decreases b,
    {
        assert(t[b - 1 - a] == s@[b - 1]);
        b = b - 1;
    }
    proof {
        lemma_trim_end_skip(t, k, b - a);
        let u = t.subrange(0, b - a);
        assert(trim_end_by(u, k) == u);
        assert(u =~= s@.subrange(a as int, b as int));
    }
    slice_chars(s, a, b)
}

/// `s` with leading and trailing Unicode whitespace removed.
pub fn trim_ws(s: &[char]) -> (r: Vec<char>)
    ensures
        r@ == trim(s@),
{
    trim_chars(s, CharClass::Whitespace)
}

// ---------------------------------------------------------------------------
// Splitting
// ---------------------------------------------------------------------------

/// The abstract value of a vector of character vectors.
pub open spec fn views(v: Seq<Vec<char>>) -> Seq<Seq<char>> {
    v.map_values(|x: Vec<char>| x@)
}

/// What separates the pieces of a split.
#[derive(Clone, Copy, PartialEq, Eq, Debug)]
pub enum Separator {
    /// One given character.
    Char(char),
    /// Any Unicode whitespace character.
    Whitespace,
}

pub open spec fn is_sep(c: char, sep: Separator) -> bool {
    match sep {
        Separator::Char(x) => c == x,
        Separator::Whitespace => is_ws(c),
    }
}

/// The pieces between separators, empty pieces included (what `str::split` yields);
/// always at least one piece.
pub open spec fn split_where(s: Seq<char>, sep: Separator) -> Seq<Seq<char>>
    decreases s.len(),
{
    if s.len() == 0 {
        seq![Seq::<char>::empty()]
    } else {
        let prev = split_where(s.drop_last(), sep);
        if is_sep(s.last(), sep) {
            prev.push(Seq::<char>::empty())
        } else {
            prev.drop_last().push(prev.last().push(s.last()))
        }
    }
}

/// The non-empty runs of non-whitespace characters (what `str::split_whitespace` yields).
pub open spec fn words(s: Seq<char>) -> Seq<Seq<char>> {
    split_where(s, Separator::Whitespace).filter(|w: Seq<char>| w.len() > 0)
}

pub fn is_separator(c: char, sep: Separator) -> (r: bool)
    ensures
        r == is_sep(c, sep),
{
    match sep {
        Separator::Char(x) => c == x,
        Separator::Whitespace => is_whitespace(c),
    }
}

/// Splits `s` at every separator character.
pub fn split_chars(s: &[char], sep: Separator) -> (r: Vec<Vec<char>>)
    ensures
        views(r@) == split_where(s@, sep),
{
    let mut out: Vec<Vec<char>> = Vec::new();
    let mut cur: Vec<char> = Vec::new();
    let n = s.len();
    assert(s@.take(0) =~= Seq::<char>::empty());
    assert(views(out@).push(cur@) =~= split_where(s@.take(0), sep));
    for i in 0..n
        invariant
            n == s@.len(),
            views(out@).push(cur@) == split_where(s@.take(i as int), sep),
    {
        let c = s[i];
        let ghost prev = split_where(s@.take(i as int), sep);
        assert(s@.take(i + 1).drop_last() =~= s@.take(i as int));
        assert(s@.take(i + 1).last() == c);
        if is_separator(c, sep) {
            let ghost old_out = out@;
            out.push(cur);
            cur = Vec::new();
            assert(views(out@) =~= views(old_out).push(prev.last()));
            assert(views(out@).push(cur@) =~= prev.push(Seq::<char>::empty()));
        } else {
            cur.push(c);
            assert(prev.drop_last() =~= views(out@));
            assert(views(out@).push(cur@) =~= prev.drop_last().push(prev.last().push(c)));
        }
    }
    assert(s@.take(n as int) =~= s@);
    let ghost before = out@;
    out.push(cur);
    assert(views(out@) =~= views(before).push(cur@));
    out
}

/// The whitespace-separated words of `s`.
pub fn split_words(s: &[char]) -> (r: Vec<Vec<char>>)
    ensures
        views(r@) == words(s@),
{
    let ghost nonempty = |w: Seq<char>| w.len() > 0;
    let mut out: Vec<Vec<char>> = Vec::new();
    let mut cur: Vec<char> = Vec::new();
    let n = s.len();
    assert(s@.take(0) =~= Seq::<char>::empty());
    assert(split_where(s@.take(0), Separator::Whitespace).drop_last() =~= Seq::<Seq<char>>::empty());
    assert(views(out@) =~= Seq::<Seq<char>>::empty().filter(nonempty));
    for i in 0..n
        invariant
            n == s@.len(),
            nonempty == (|w: Seq<char>| w.len() > 0),
            views(out@) == split_where(s@.take(i as int), Separator::Whitespace).drop_last().filter(
                nonempty,
            ),
            cur@ == split_where(s@.take(i as int), Separator::Whitespace).last(),
    {
        let c = s[i];
        let ghost prev = split_where(s@.take(i as int), Separator::Whitespace);
        assert(s@.take(i + 1).drop_last() =~= s@.take(i as int));
        assert(s@.take(i + 1).last() == c);
        if is_whitespace(c) {
            let ghost old_out = out@;
            proof {
                prev.drop_last().lemma_filter_push(prev.last(), nonempty);
                assert(prev.drop_last().push(prev.last()) =~= prev);
            }
            if cur.len() > 0 {
                out.push(cur);
                assert(views(out@) =~= views(old_out).push(prev.last()));
            }
            cur = Vec::new();
            assert(prev.push(Seq::<char>::empty()).drop_last() =~= prev);
        } else {
            cur.push(c);
            assert(prev.drop_last().push(prev.last().push(c)).drop_last() =~= prev.drop_last());
        }
    }
    assert(s@.take(n as int) =~= s@);
    let ghost all = split_where(s@, Separator::Whitespace);
    proof {
        all.drop_last().lemma_filter_push(all.last(), nonempty);
        assert(all.drop_last().push(all.last()) =~= all);
    }
    if cur.len() > 0 {
        let ghost before = out@;
        out.push(cur);
        assert(views(out@) =~= views(before).push(all.last()));
    }
    out
}

// ---------------------------------------------------------------------------
// Numbers
// ---------------------------------------------------------------------------

pub open spec fn digit_char(d: nat) -> char {
    if d == 0 {
        '0'
    } else if d == 1 {
        '1'
    } else if d == 2 {
        '2'
    } else if d == 3 {
        '3'
    } else if d == 4 {
        '4'
    } else if d == 5 {
        '5'
    } else if d == 6 {
        '6'
    } else if d == 7 {
        '7'
    } else if d == 8 {
        '8'
    } else {
        '9'
    }
}

/// The decimal digits of `n`, most significant first, without leading zeros.
pub open spec fn decimal(n: nat) -> Seq<char>
    decreases n,
{
    if n < 10 {
        seq![digit_char(n)]
    } else {
        decimal(n / 10) + seq![digit_char(n % 10)]
    }
}

/// An integer in decimal, with a leading `-` when negative.
pub open spec fn signed_decimal(n: int) -> Seq<char> {
    if n < 0 {
        seq!['-'] + decimal((-n) as nat)
    } else {
        decimal(n as nat)
    }
}

fn digit(d: u64) -> (c: char)
    requires
        d < 10,
    ensures
        c == digit_char(d as nat),
{
    if d == 0 {
        '0'
    } else if d == 1 {
        '1'
    } else if d == 2 {
        '2'
    } else if d == 3 {
        '3'
    } else if d == 4 {
        '4'
    } else if d == 5 {
        '5'
    } else if d == 6 {
        '6'
    } else if d == 7 {
        '7'
    } else if d == 8 {
        '8'
    } else {
        '9'
    }
}

/// Appends the decimal digits of `n`.
pub fn push_u64(v: &mut Vec<char>, n: u64)
    ensures
        final(v)@ == old(v)@ + decimal(n as nat),
    decreases n,
{
    if n >= 10 {
        push_u64(v, n / 10);
    }
    let d = digit(n % 10);
    v.push(d);
    if n >= 10 {
        assert(v@ =~= old(v)@ + decimal(n as nat));
    } else {
        assert(v@ =~= old(v)@ + decimal(n as nat));
    }
}

/// Appends `n` in decimal, with a leading `-` when negative.
pub fn push_i64(v: &mut Vec<char>, n: i64)
    ensures
        final(v)@ == old(v)@ + signed_decimal(n as int),
{
    if n < 0 {
        v.push('-');
        let m: u64 = if n == i64::MIN {
            9223372036854775808u64
        } else {
            (-n) as u64
        };
        push_u64(v, m);
        assert(v@ =~= old(v)@ + signed_decimal(n as int));
    } else {
        push_u64(v, n as u64);
    }
}

// ---------------------------------------------------------------------------
// ASCII case
// ---------------------------------------------------------------------------

/// ASCII upper-case letters map to lower case; every other character is kept.
pub open spec fn ascii_lower(c: char) -> char {
    if 'A' <= c <= 'Z' {
        ((c as u32 + 32) as u8) as char
    } else {
        c
    }
}

pub open spec fn ascii_lower_all(s: Seq<char>) -> Seq<char> {
    s.map_values(|c: char| ascii_lower(c))
}

pub fn to_ascii_lower(c: char) -> (r: char)
    ensures
        r == ascii_lower(c),
{
    if 'A' <= c && c <= 'Z' {
        let b: u8 = (c as u32 + 32) as u8;
        b as char
    } else {
        c
    }
}

/// `s` with ASCII letters lower-cased (what `str::to_ascii_lowercase` does).
pub fn lower_ascii(s: &[char]) -> (r: Vec<char>)
    ensures
        r@ == ascii_lower_all(s@),
{
    let mut r: Vec<char> = Vec::new();
    let n = s.len();
    for i in 0..n
        invariant
            n == s@.len(),
            r@ == ascii_lower_all(s@.take(i as int)),
    {
        r.push(to_ascii_lower(s[i]));
        assert(ascii_lower_all(s@.take(i + 1)) =~= ascii_lower_all(s@.take(i as int)).push(
            ascii_lower(s@[i as int]),
        ));
    }
    assert(s@.take(n as int) =~= s@);
    r
}

// ---------------------------------------------------------------------------
// UTF-8 length
// ---------------------------------------------------------------------------

/// Bytes that `c` takes in UTF-8.
pub open spec fn utf8_width(c: char) -> nat {
    let u = c as u32;
    if u <= 0x7F {
        1
    } else if u <= 0x7FF {
        2
    } else if u <= 0xFFFF {
        3
    } else {
        4
    }
}

/// Bytes that `s` takes in UTF-8 (what `str::len` returns).
pub open spec fn byte_len(s: Seq<char>) -> nat {
    encode_utf8(s).len()
}

pub proof fn lemma_scalar_width(c: char)
    ensures
        encode_scalar(c as u32).len() == utf8_width(c),
{
    vstd::utf8::char_is_scalar(c);
}

pub proof fn lemma_byte_len_push(s: Seq<char>, c: char)
    ensures
        byte_len(s.push(c)) == byte_len(s) + utf8_width(c),
    decreases s.len(),
{
    if s.len() == 0 {
        lemma_scalar_width(c);
        assert(s.push(c).drop_first() =~= Seq::<char>::empty());
        assert(encode_utf8(Seq::<char>::empty()) =~= Seq::<u8>::empty());
    } else {
        lemma_byte_len_push(s.drop_first(), c);
        assert(s.push(c).drop_first() =~= s.drop_first().push(c));
        assert(s.push(c)[0] == s[0]);
    }
}

pub proof fn lemma_byte_len_prefix_monotone(s: Seq<char>, i: int, j: int)
    requires
        0 <= i <= j <= s.len(),
    ensures
        byte_len(s.take(i)) <= byte_len(s.take(j)),
    decreases j - i,
{
    if i < j {
        lemma_byte_len_prefix_monotone(s, i, j - 1);
        assert(s.take(j) =~= s.take(j - 1).push(s[j - 1]));
        lemma_byte_len_push(s.take(j - 1), s[j - 1]);
    }
}

pub fn char_width(c: char) -> (w: usize)
    ensures
        w == utf8_width(c),
{
    let u = c as u32;
    if u <= 0x7F {
        1
    } else if u <= 0x7FF {
        2
    } else if u <= 0xFFFF {
        3
    } else {
        4
    }
}

/// The longest prefix of `s` that takes at most `max_bytes` bytes in UTF-8.
pub fn utf8_prefix(s: &[char], max_bytes: usize) -> (r: Vec<char>)
    ensures
        r@ == s@.take(r@.len() as int),
        r@.len() <= s@.len(),
        byte_len(r@) <= max_bytes,
        r@.len() == s@.len() || byte_len(s@.take((r@.len() + 1) as int)) > max_bytes,
{
    let mut r: Vec<char> = Vec::new();
    let mut used: usize = 0;
    let n = s.len();
    assert(encode_utf8(Seq::<char>::empty()) =~= Seq::<u8>::empty());
    while r.len() < n
        invariant_except_break
            r@.len() <= n,
        invariant
            n == s@.len(),
            r@.len() <= n,
            r@ == s@.take(r@.len() as int),
            used == byte_len(r@),
            used <= max_bytes,
        ensures
            r@.len() == n || byte_len(s@.take((r@.len() + 1) as int)) > max_bytes,
        decreases n - r@.len(),
    {
        let i = r.len();
        let c = s[i];
        let w = char_width(c);
        proof {
            lemma_byte_len_push(r@, c);
            assert(s@.take(i + 1) =~= r@.push(c));
        }
        if w > max_bytes - used {
            break;
        }
        r.push(c);
        used = used + w;
    }
    r
}

} // verus!
