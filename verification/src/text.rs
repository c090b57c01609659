//! Text as sequences of characters: the vocabulary that every other module's
//! contracts are written in, and the executable operations that meet it.

use vstd::prelude::*;
use vstd::string::*;

verus! {

// ---------------------------------------------------------------------------
// Standard library operations used on strings
// ---------------------------------------------------------------------------

/// `String::push` appends one character to the end of the string.
pub assume_specification[ String::push ](s: &mut String, c: char)
    ensures
        final(s)@ == old(s)@.push(c),
;

/// `String::push_str` appends the whole of another string to the end.
pub assume_specification[ String::push_str ](s: &mut String, t: &str)
    ensures
        final(s)@ == old(s)@ + t@,
;

// ---------------------------------------------------------------------------
// Views
// ---------------------------------------------------------------------------

/// The texts that a sequence of strings holds.
pub open spec fn texts(v: Seq<String>) -> Seq<Seq<char>> {
    v.map_values(|s: String| s@)
}

/// Pairs of texts.
pub open spec fn pairs(v: Seq<(String, String)>) -> Seq<(Seq<char>, Seq<char>)> {
    v.map_values(|p: (String, String)| (p.0@, p.1@))
}

/// The text inside an optional string.
pub open spec fn opt_text(o: Option<String>) -> Option<Seq<char>> {
    match o {
        Some(s) => Some(s@),
        None => None,
    }
}

// ---------------------------------------------------------------------------
// Length in bytes
// ---------------------------------------------------------------------------

/// How many bytes the UTF-8 form of a character takes.
pub open spec fn width(c: char) -> nat {
    if c as u32 <= 0x7f {
        1
    } else if c as u32 <= 0x7ff {
        2
    } else if c as u32 <= 0xffff {
        3
    } else {
        4
    }
}

/// How many bytes the UTF-8 form of a text takes.
pub open spec fn utf8_len(s: Seq<char>) -> nat
    decreases s.len(),
{
    if s.len() == 0 {
        0
    } else {
        utf8_len(s.drop_last()) + width(s.last())
    }
}

pub proof fn lemma_utf8_len_push(s: Seq<char>, c: char)
    ensures
        utf8_len(s.push(c)) == utf8_len(s) + width(c),
{
    assert(s.push(c).drop_last() =~= s);
}

pub proof fn lemma_utf8_len_add(a: Seq<char>, b: Seq<char>)
    ensures
        utf8_len(a + b) == utf8_len(a) + utf8_len(b),
    decreases b.len(),
{
    if b.len() == 0 {
        assert(a + b =~= a);
    } else {
        lemma_utf8_len_add(a, b.drop_last());
        assert((a + b).drop_last() =~= a + b.drop_last());
        assert((a + b).last() == b.last());
    }
}

/// A text takes at least one byte and at most four for each character.
pub proof fn lemma_utf8_len_bounds(s: Seq<char>)
    ensures
        s.len() <= utf8_len(s) <= 4 * s.len(),
    decreases s.len(),
{
    if s.len() > 0 {
        lemma_utf8_len_bounds(s.drop_last());
    }
}

/// The bytes of a longer prefix are at least those of a shorter one.
pub proof fn lemma_utf8_len_take(s: Seq<char>, i: int, j: int)
    requires
        0 <= i <= j <= s.len(),
    ensures
        utf8_len(s.take(i)) + (j - i) <= utf8_len(s.take(j)),
{
    let mid = s.subrange(i, j);
    assert(s.take(j) =~= s.take(i) + mid);
    lemma_utf8_len_add(s.take(i), mid);
    lemma_utf8_len_bounds(mid);
}

proof fn lemma_scalar_len(c: char)
    ensures
        vstd::utf8::encode_scalar(c as u32).len() == width(c),
{
    assert(0 <= c as u32 <= 0x10ffff);
}

proof fn lemma_encode_len(s: Seq<char>)
    ensures
        vstd::utf8::encode_utf8(s).len() == utf8_len(s),
    decreases s.len(),
{
    if s.len() > 0 {
        let rest = s.drop_first();
        lemma_encode_len(rest);
        let head = seq![s[0]];
        assert(s =~= head + rest);
        lemma_utf8_len_add(head, rest);
        assert(head.drop_last() =~= Seq::<char>::empty());
        reveal_with_fuel(utf8_len, 2);
        assert(utf8_len(head) == width(s[0]));
        vstd::utf8::char_is_scalar(s[0]);
        lemma_scalar_len(s[0]);
    }
}

/// The length of a string in bytes.
pub fn byte_len(s: &str) -> (n: usize)
    ensures
        n == utf8_len(s@),
{
    proof {
        lemma_encode_len(s@);
    }
    s.as_bytes().len()
}

/// The number of bytes that one character takes.
pub fn char_width(c: char) -> (n: usize)
    ensures
        n == width(c),
        1 <= n <= 4,
{
    let code: u32 = c as u32;
    if code <= 0x7f {
        1
    } else if code <= 0x7ff {
        2
    } else if code <= 0xffff {
        3
    } else {
        4
    }
}

// ---------------------------------------------------------------------------
// Between strings and vectors of characters
// ---------------------------------------------------------------------------

/// The characters of a string, in order.
pub fn chars(s: &str) -> (v: Vec<char>)
    ensures
        v@ == s@,
{
    let mut v: Vec<char> = Vec::new();
    for c in it: s.chars()
        invariant
            it.seq() == s@,
            v@ == s@.take(it.index()),
    {
        v.push(c);
        assert(s@.take(it.index() + 1) =~= s@.take(it.index()).push(c));
    }
    assert(s@.take(s@.len() as int) =~= s@);
    v
}

/// The string that the characters `v[from..to]` spell.
pub fn string_of(v: &Vec<char>, from: usize, to: usize) -> (s: String)
    requires
        from <= to <= v.len(),
    ensures
        s@ == v@.subrange(from as int, to as int),
{
    let mut s: String = String::new();
    let mut i: usize = from;
    while i < to
        invariant
            from <= i <= to <= v.len(),
            s@ == v@.subrange(from as int, i as int),
        decreases to - i,
    {
        s.push(v[i]);
        i = i + 1;
        assert(v@.subrange(from as int, i as int) =~= v@.subrange(from as int, i - 1).push(v@[i - 1]));
    }
    s
}

/// Whether two strings hold the same text.
pub fn same(a: &str, b: &str) -> (r: bool)
    ensures
        r == (a@ == b@),
{
    a.to_owned() == b.to_owned()
}

// ---------------------------------------------------------------------------
// Putting texts together
// ---------------------------------------------------------------------------

/// Two texts, one behind the other.
pub fn cat2(a: &str, b: &str) -> (r: String)
    ensures
        r@ == a@ + b@,
{
    let mut r: String = a.to_owned();
    r.push_str(b);
    r
}

/// Three texts, one behind the other.
pub fn cat3(a: &str, b: &str, c: &str) -> (r: String)
    ensures
        r@ == a@ + b@ + c@,
{
    let mut r = cat2(a, b);
    r.push_str(c);
    r
}

/// Four texts, one behind the other.
pub fn cat4(a: &str, b: &str, c: &str, d: &str) -> (r: String)
    ensures
        r@ == a@ + b@ + c@ + d@,
{
    let mut r = cat3(a, b, c);
    r.push_str(d);
    r
}

/// Five texts, one behind the other.
pub fn cat5(a: &str, b: &str, c: &str, d: &str, e: &str) -> (r: String)
    ensures
        r@ == a@ + b@ + c@ + d@ + e@,
{
    let mut r = cat4(a, b, c, d);
    r.push_str(e);
    r
}

/// Six texts, one behind the other.
pub fn cat6(a: &str, b: &str, c: &str, d: &str, e: &str, f: &str) -> (r: String)
    ensures
        r@ == a@ + b@ + c@ + d@ + e@ + f@,
{
    let mut r = cat5(a, b, c, d, e);
    r.push_str(f);
    r
}

/// Seven texts, one behind the other.
pub fn cat7(a: &str, b: &str, c: &str, d: &str, e: &str, f: &str, g: &str) -> (r: String)
    ensures
        r@ == a@ + b@ + c@ + d@ + e@ + f@ + g@,
{
    let mut r = cat6(a, b, c, d, e, f);
    r.push_str(g);
    r
}

/// Eight texts, one behind the other.
pub fn cat8(
    a: &str,
    b: &str,
    c: &str,
    d: &str,
    e: &str,
    f: &str,
    g: &str,
    h: &str,
) -> (r: String)
    ensures
        r@ == a@ + b@ + c@ + d@ + e@ + f@ + g@ + h@,
{
    let mut r = cat7(a, b, c, d, e, f, g);
    r.push_str(h);
    r
}

/// Nine texts, one behind the other.
pub fn cat9(
    a: &str,
    b: &str,
    c: &str,
    d: &str,
    e: &str,
    f: &str,
    g: &str,
    h: &str,
    i: &str,
) -> (r: String)
    ensures
        r@ == a@ + b@ + c@ + d@ + e@ + f@ + g@ + h@ + i@,
{
    let mut r = cat8(a, b, c, d, e, f, g, h);
    r.push_str(i);
    r
}

/// Ten texts, one behind the other.
pub fn cat10(
    a: &str,
    b: &str,
    c: &str,
    d: &str,
    e: &str,
    f: &str,
    g: &str,
    h: &str,
    i: &str,
    j: &str,
) -> (r: String)
    ensures
        r@ == a@ + b@ + c@ + d@ + e@ + f@ + g@ + h@ + i@ + j@,
{
    let mut r = cat9(a, b, c, d, e, f, g, h, i);
    r.push_str(j);
    r
}

/// `n` blanks.
pub open spec fn blanks(n: int) -> Seq<char> {
    Seq::new(
        if n > 0 {
            n as nat
        } else {
            0
        },
        |i: int| ' ',
    )
}

/// A text with blanks before it, so that it has at least `n` characters.
pub open spec fn right_aligned(s: Seq<char>, n: int) -> Seq<char> {
    blanks(n - s.len()) + s
}

/// A text with blanks behind it, so that it has at least `n` characters.
pub open spec fn left_aligned(s: Seq<char>, n: int) -> Seq<char> {
    s + blanks(n - s.len())
}

fn pad(have: usize, n: usize) -> (r: String)
    ensures
        r@ == blanks(n - have),
{
    let mut r: String = String::new();
    let mut i: usize = have;
    assert(r@ =~= blanks(0));
    while i < n
        invariant
            have <= i,
            i <= n || i == have,
            r@ == blanks(i - have),
        decreases n - i,
    {
        r.push(' ');
        assert(r@ =~= blanks(i + 1 - have));
        i = i + 1;
    }
    assert(blanks(n - have) =~= r@);
    r
}

/// A text with blanks before it, so that it has at least `n` characters.
pub fn pad_start(s: &str, n: usize) -> (r: String)
    ensures
        r@ == right_aligned(s@, n as int),
{
    let v = chars(s);
    let p = pad(v.len(), n);
    cat2(&p, s)
}

/// A text with blanks behind it, so that it has at least `n` characters.
pub fn pad_end(s: &str, n: usize) -> (r: String)
    ensures
        r@ == left_aligned(s@, n as int),
{
    let v = chars(s);
    let p = pad(v.len(), n);
    cat2(s, &p)
}

// ---------------------------------------------------------------------------
// Prefixes, suffixes and substrings
// ---------------------------------------------------------------------------

/// `p` stands in `s` at index `i`.
pub open spec fn at(s: Seq<char>, p: Seq<char>, i: int) -> bool {
    &&& 0 <= i
    &&& i + p.len() <= s.len()
    &&& s.subrange(i, i + p.len()) == p
}

pub open spec fn starts(s: Seq<char>, p: Seq<char>) -> bool {
    at(s, p, 0)
}

pub open spec fn ends(s: Seq<char>, p: Seq<char>) -> bool {
    at(s, p, s.len() - p.len())
}

pub open spec fn has(s: Seq<char>, p: Seq<char>) -> bool {
    exists|i: int| at(s, p, i)
}

/// The first index from `from` on at which `p` stands in `s`.
pub open spec fn first_at(s: Seq<char>, p: Seq<char>, from: int) -> Option<int>
    decreases s.len() + 1 - from,
{
    if from < 0 || from + p.len() > s.len() {
        None
    } else if at(s, p, from) {
        Some(from)
    } else {
        first_at(s, p, from + 1)
    }
}

pub proof fn lemma_first_at(s: Seq<char>, p: Seq<char>, from: int)
    requires
        0 <= from,
    ensures
        match first_at(s, p, from) {
            Some(i) => from <= i && at(s, p, i) && forall|j: int| from <= j < i ==> !at(s, p, j),
            None => forall|j: int| from <= j ==> !at(s, p, j),
        },
    decreases s.len() + 1 - from,
{
    if from + p.len() > s.len() {
    } else if at(s, p, from) {
    } else {
        lemma_first_at(s, p, from + 1);
    }
}

/// A text holds another exactly where a search from its start finds it.
pub proof fn lemma_has_first(s: Seq<char>, p: Seq<char>)
    ensures
        has(s, p) == (first_at(s, p, 0) is Some),
{
    lemma_first_at(s, p, 0);
}

fn stands_at(v: &Vec<char>, p: &Vec<char>, i: usize) -> (r: bool)
    requires
        i <= v.len(),
    ensures
        r == at(v@, p@, i as int),
{
    if v.len() - i < p.len() {
        return false;
    }
    let mut k: usize = 0;
    while k < p.len()
        invariant
            k <= p.len(),
            i + p.len() <= v.len(),
            forall|j: int| 0 <= j < k ==> v@[i + j] == p@[j],
        decreases p.len() - k,
    {
        if v[i + k] != p[k] {
            assert(v@.subrange(i as int, i + p@.len())[k as int] == v@[i + k]);
            return false;
        }
        k = k + 1;
    }
    assert(v@.subrange(i as int, i + p@.len()) =~= p@);
    true
}

/// The first index from `from` on at which `p` stands in `v`.
pub fn find_from(v: &Vec<char>, p: &Vec<char>, from: usize) -> (r: Option<usize>)
    ensures
        match r {
            Some(i) => first_at(v@, p@, from as int) == Some(i as int),
            None => first_at(v@, p@, from as int) is None,
        },
{
    if from > v.len() {
        return None;
    }
    let mut i: usize = from;
    while i <= v.len() && v.len() - i >= p.len()
        invariant
            from <= i,
            i <= v.len() + 1,
            from <= v.len(),
            first_at(v@, p@, from as int) == first_at(v@, p@, i as int),
        decreases v.len() + 1 - i,
    {
        if stands_at(v, p, i) {
            return Some(i);
        }
        if i == v.len() {
            assert(first_at(v@, p@, i + 1) is None);
            return None;
        }
        i = i + 1;
    }
    None
}

/// The last index up to `i` at which `p` stands in `s`.
pub open spec fn last_at(s: Seq<char>, p: Seq<char>, i: int) -> Option<int>
    decreases i + 1,
{
    if i < 0 {
        None
    } else if at(s, p, i) {
        Some(i)
    } else {
        last_at(s, p, i - 1)
    }
}

/// What stands in `s` behind the last `p`; all of `s` when there is none.
pub open spec fn behind_last(s: Seq<char>, p: Seq<char>) -> Seq<char> {
    match last_at(s, p, s.len() as int) {
        Some(i) => s.skip(i + p.len()),
        None => s,
    }
}

pub proof fn lemma_last_at(s: Seq<char>, p: Seq<char>, i: int)
    ensures
        match last_at(s, p, i) {
            Some(k) => k <= i && at(s, p, k) && forall|j: int| k < j <= i ==> !at(s, p, j),
            None => forall|j: int| j <= i ==> !at(s, p, j),
        },
    decreases i + 1,
{
    if i >= 0 && !at(s, p, i) {
        lemma_last_at(s, p, i - 1);
    }
}

/// What stands in `s` behind the last `p`; all of `s` when there is none.
pub fn after_last(s: &str, p: &str) -> (r: String)
    ensures
        r@ == behind_last(s@, p@),
{
    let v = chars(s);
    let w = chars(p);
    let n: usize = v.len();
    let mut i: usize = n;
    loop
        invariant
            i <= n,
            n == v.len(),
            v@ == s@,
            w@ == p@,
            last_at(s@, p@, n as int) == last_at(s@, p@, i as int),
        decreases i,
    {
        if stands_at(&v, &w, i) {
            let from: usize = i + w.len();
            let r = string_of(&v, from, n);
            assert(r@ =~= s@.skip(from as int));
            return r;
        }
        if i == 0 {
            assert(last_at(s@, p@, -1) is None);
            return s.to_owned();
        }
        i = i - 1;
    }
}

pub fn starts_with(s: &str, p: &str) -> (r: bool)
    ensures
        r == starts(s@, p@),
{
    let v = chars(s);
    let w = chars(p);
    stands_at(&v, &w, 0)
}

pub fn ends_with(s: &str, p: &str) -> (r: bool)
    ensures
        r == ends(s@, p@),
{
    let v = chars(s);
    let w = chars(p);
    if v.len() < w.len() {
        return false;
    }
    let i: usize = v.len() - w.len();
    stands_at(&v, &w, i)
}

pub fn contains(s: &str, p: &str) -> (r: bool)
    ensures
        r == has(s@, p@),
{
    let v = chars(s);
    let w = chars(p);
    proof {
        lemma_has_first(s@, p@);
    }
    find_from(&v, &w, 0).is_some()
}

/// Whether a string holds a character.
pub fn contains_char(s: &str, c: char) -> (r: bool)
    ensures
        r == s@.contains(c),
{
    let v = chars(s);
    let mut i: usize = 0;
    while i < v.len()
        invariant
            i <= v.len(),
            v@ == s@,
            forall|j: int| 0 <= j < i ==> v@[j] != c,
        decreases v.len() - i,
    {
        if v[i] == c {
            assert(s@[i as int] == c);
            return true;
        }
        i = i + 1;
    }
    false
}

/// What is left of `s` when it starts with `p`.
pub open spec fn without_prefix(s: Seq<char>, p: Seq<char>) -> Option<Seq<char>> {
    if starts(s, p) {
        Some(s.skip(p.len() as int))
    } else {
        None
    }
}

pub open spec fn without_suffix(s: Seq<char>, p: Seq<char>) -> Option<Seq<char>> {
    if ends(s, p) {
        Some(s.take(s.len() - p.len()))
    } else {
        None
    }
}

pub fn strip_prefix(s: &str, p: &str) -> (r: Option<String>)
    ensures
        opt_text(r) == without_prefix(s@, p@),
{
    let v = chars(s);
    let w = chars(p);
    if stands_at(&v, &w, 0) {
        let n: usize = v.len();
        let r = string_of(&v, w.len(), n);
        assert(r@ =~= s@.skip(p@.len() as int));
        Some(r)
    } else {
        None
    }
}

pub fn strip_suffix(s: &str, p: &str) -> (r: Option<String>)
    ensures
        opt_text(r) == without_suffix(s@, p@),
{
    let v = chars(s);
    let w = chars(p);
    if v.len() >= w.len() && stands_at(&v, &w, v.len() - w.len()) {
        let r = string_of(&v, 0, v.len() - w.len());
        assert(r@ =~= s@.take(s@.len() - p@.len()));
        Some(r)
    } else {
        None
    }
}

// ---------------------------------------------------------------------------
// Trimming
// ---------------------------------------------------------------------------

/// The characters with Unicode's `White_Space` property.
pub open spec fn white(c: char) -> bool {
    let n = c as u32;
    ||| 0x09 <= n <= 0x0d
    ||| n == 0x20
    ||| n == 0x85
    ||| n == 0xa0
    ||| n == 0x1680
    ||| 0x2000 <= n <= 0x200a
    ||| n == 0x2028
    ||| n == 0x2029
    ||| n == 0x202f
    ||| n == 0x205f
    ||| n == 0x3000
}

pub fn is_white(c: char) -> (r: bool)
    ensures
        r == white(c),
{
    let n: u32 = c as u32;
    (0x09 <= n && n <= 0x0d) || n == 0x20 || n == 0x85 || n == 0xa0 || n == 0x1680
        || (0x2000 <= n && n <= 0x200a) || n == 0x2028 || n == 0x2029 || n == 0x202f
        || n == 0x205f || n == 0x3000
}

pub open spec fn trimmed_start(s: Seq<char>) -> Seq<char>
    decreases s.len(),
{
    if s.len() > 0 && white(s[0]) {
        trimmed_start(s.drop_first())
    } else {
        s
    }
}

pub open spec fn trimmed_end(s: Seq<char>) -> Seq<char>
    decreases s.len(),
{
    if s.len() > 0 && white(s.last()) {
        trimmed_end(s.drop_last())
    } else {
        s
    }
}

/// `s` without the white space at either end.
pub open spec fn trimmed(s: Seq<char>) -> Seq<char> {
    trimmed_end(trimmed_start(s))
}

/// `s` without the characters of `set` at its end.
pub open spec fn stripped_end(s: Seq<char>, set: Seq<char>) -> Seq<char>
    decreases s.len(),
{
    if s.len() > 0 && set.contains(s.last()) {
        stripped_end(s.drop_last(), set)
    } else {
        s
    }
}

/// `s` without the characters of `set` at its start.
pub open spec fn stripped_start(s: Seq<char>, set: Seq<char>) -> Seq<char>
    decreases s.len(),
{
    if s.len() > 0 && set.contains(s[0]) {
        stripped_start(s.drop_first(), set)
    } else {
        s
    }
}

fn white_prefix(v: &Vec<char>) -> (n: usize)
    ensures
        n <= v.len(),
        v@.skip(n as int) == trimmed_start(v@),
{
    let mut n: usize = 0;
    assert(v@.skip(0) =~= v@);
    while n < v.len() && is_white(v[n])
        invariant
            n <= v.len(),
            trimmed_start(v@) == trimmed_start(v@.skip(n as int)),
        decreases v.len() - n,
    {
        assert(v@.skip(n as int).drop_first() =~= v@.skip(n + 1));
        n = n + 1;
    }
    n
}

fn white_suffix_start(v: &Vec<char>, from: usize) -> (n: usize)
    requires
        from <= v.len(),
    ensures
        from <= n <= v.len(),
        v@.subrange(from as int, n as int) == trimmed_end(v@.skip(from as int)),
{
    let mut n: usize = v.len();
    assert(v@.skip(from as int) =~= v@.subrange(from as int, n as int));
    while n > from && is_white(v[n - 1])
        invariant
            from <= n <= v.len(),
            trimmed_end(v@.skip(from as int)) == trimmed_end(v@.subrange(from as int, n as int)),
        decreases n,
    {
        assert(v@.subrange(from as int, n as int).drop_last() =~= v@.subrange(from as int, n - 1));
        n = n - 1;
    }
    n
}

pub fn trim(s: &str) -> (r: String)
    ensures
        r@ == trimmed(s@),
{
    let v = chars(s);
    let lo = white_prefix(&v);
    let hi = white_suffix_start(&v, lo);
    string_of(&v, lo, hi)
}

pub fn trim_start(s: &str) -> (r: String)
    ensures
        r@ == trimmed_start(s@),
{
    let v = chars(s);
    let lo = white_prefix(&v);
    let r = string_of(&v, lo, v.len());
    assert(r@ =~= v@.skip(lo as int));
    r
}

pub fn trim_end(s: &str) -> (r: String)
    ensures
        r@ == trimmed_end(s@),
{
    let v = chars(s);
    let hi = white_suffix_start(&v, 0);
    assert(v@.skip(0) =~= v@);
    string_of(&v, 0, hi)
}

fn in_set(c: char, set: &Vec<char>) -> (r: bool)
    ensures
        r == set@.contains(c),
{
    let mut i: usize = 0;
    while i < set.len()
        invariant
            i <= set.len(),
            forall|j: int| 0 <= j < i ==> set@[j] != c,
        decreases set.len() - i,
    {
        if set[i] == c {
            assert(set@[i as int] == c);
            return true;
        }
        i = i + 1;
    }
    false
}

/// `s` without the characters of `set` at its end.
pub fn trim_end_set(s: &str, set: &str) -> (r: String)
    ensures
        r@ == stripped_end(s@, set@),
{
    let v = chars(s);
    let w = chars(set);
    let mut n: usize = v.len();
    assert(v@.take(n as int) =~= v@);
    while n > 0 && in_set(v[n - 1], &w)
        invariant
            n <= v.len(),
            w@ == set@,
            stripped_end(v@, set@) == stripped_end(v@.take(n as int), set@),
        decreases n,
    {
        assert(v@.take(n as int).drop_last() =~= v@.take(n - 1));
        n = n - 1;
    }
    let r = string_of(&v, 0, n);
    assert(r@ =~= v@.take(n as int));
    r
}

/// `s` without the characters of `set` at its start.
pub fn trim_start_set(s: &str, set: &str) -> (r: String)
    ensures
        r@ == stripped_start(s@, set@),
{
    let v = chars(s);
    let w = chars(set);
    let mut n: usize = 0;
    assert(v@.skip(0) =~= v@);
    while n < v.len() && in_set(v[n], &w)
        invariant
            n <= v.len(),
            w@ == set@,
            stripped_start(v@, set@) == stripped_start(v@.skip(n as int), set@),
        decreases v.len() - n,
    {
        assert(v@.skip(n as int).drop_first() =~= v@.skip(n + 1));
        n = n + 1;
    }
    let r = string_of(&v, n, v.len());
    assert(r@ =~= v@.skip(n as int));
    r
}

// ---------------------------------------------------------------------------
// Clipping
// ---------------------------------------------------------------------------

/// How many more characters than `k` of `s` fit into `n` bytes, counted from `k`.
pub open spec fn fit_from(s: Seq<char>, n: int, k: int) -> int
    decreases s.len() - k,
{
    if 0 <= k < s.len() && utf8_len(s.take(k + 1)) <= n {
        fit_from(s, n, k + 1)
    } else {
        k
    }
}

/// The longest prefix of `s` that takes at most `n` bytes.
pub open spec fn clip(s: Seq<char>, n: int) -> Seq<char> {
    s.take(fit_from(s, n, 0))
}

pub proof fn lemma_fit_from(s: Seq<char>, n: int, k: int)
    requires
        0 <= k <= s.len(),
        utf8_len(s.take(k)) <= n,
    ensures
        k <= fit_from(s, n, k) <= s.len(),
        utf8_len(s.take(fit_from(s, n, k))) <= n,
        fit_from(s, n, k) < s.len() ==> utf8_len(s.take(fit_from(s, n, k) + 1)) > n,
    decreases s.len() - k,
{
    if k < s.len() && utf8_len(s.take(k + 1)) <= n {
        lemma_fit_from(s, n, k + 1);
    }
}

/// A clipped text is a prefix of the text, fits into the bytes allowed, and is
/// the text itself when that fits.
pub proof fn law_clip(s: Seq<char>, n: int)
    requires
        0 <= n,
    ensures
        clip(s, n).is_prefix_of(s),
        utf8_len(clip(s, n)) <= n,
        utf8_len(s) <= n ==> clip(s, n) == s,
        clip(s, n).len() < s.len() ==> utf8_len(s.take(clip(s, n).len() as int + 1)) > n,
{
    assert(s.take(0) =~= Seq::<char>::empty());
    lemma_fit_from(s, n, 0);
    let k = fit_from(s, n, 0);
    if utf8_len(s) <= n && k < s.len() {
        lemma_utf8_len_take(s, k + 1, s.len() as int);
        assert(s.take(s.len() as int) =~= s);
    }
    if k == s.len() {
        assert(s.take(k) =~= s);
    }
}

/// The longest prefix of `s` that takes at most `n` bytes.
pub fn clip_bytes(s: &str, n: usize) -> (r: String)
    ensures
        r@ == clip(s@, n as int),
{
    let v = chars(s);
    let mut k: usize = 0;
    let mut used: usize = 0;
    assert(v@.take(0) =~= Seq::<char>::empty());
    while k < v.len() && char_width(v[k]) <= n - used
        invariant
            k <= v.len(),
            used <= n,
            used == utf8_len(v@.take(k as int)),
            fit_from(v@, n as int, 0) == fit_from(v@, n as int, k as int),
        decreases v.len() - k,
    {
        proof {
            assert(v@.take(k + 1) =~= v@.take(k as int).push(v@[k as int]));
            lemma_utf8_len_push(v@.take(k as int), v@[k as int]);
        }
        used = used + char_width(v[k]);
        k = k + 1;
    }
    proof {
        if k < v@.len() {
            assert(v@.take(k + 1) =~= v@.take(k as int).push(v@[k as int]));
            lemma_utf8_len_push(v@.take(k as int), v@[k as int]);
        }
    }
    let r = string_of(&v, 0, k);
    assert(r@ =~= v@.take(k as int));
    r
}

/// `s` without every `p` at its start.
pub open spec fn unprefixed(s: Seq<char>, p: Seq<char>) -> Seq<char>
    decreases s.len(),
{
    if p.len() > 0 && starts(s, p) {
        unprefixed(s.skip(p.len() as int), p)
    } else {
        s
    }
}

/// `s` without every `p` at its end.
pub open spec fn unsuffixed(s: Seq<char>, p: Seq<char>) -> Seq<char>
    decreases s.len(),
{
    if p.len() > 0 && ends(s, p) {
        unsuffixed(s.take(s.len() - p.len()), p)
    } else {
        s
    }
}

/// `s` without every `p` at its start.
pub fn trim_start_text(s: &str, p: &str) -> (r: String)
    requires
        p@.len() > 0,
    ensures
        r@ == unprefixed(s@, p@),
{
    let v = chars(s);
    let w = chars(p);
    let n: usize = v.len();
    let mut i: usize = 0;
    assert(v@.skip(0) =~= s@);
    while stands_at(&v, &w, i)
        invariant
            i <= n,
            n == v.len(),
            v@ == s@,
            w@ == p@,
            p@.len() > 0,
            unprefixed(s@, p@) == unprefixed(v@.skip(i as int), p@),
        decreases n - i,
    {
        proof {
            let rest = v@.skip(i as int);
            assert(rest.subrange(0, p@.len() as int) =~= v@.subrange(i as int, i + p@.len()));
            assert(rest.skip(p@.len() as int) =~= v@.skip(i + p@.len()));
        }
        i = i + w.len();
    }
    proof {
        let rest = v@.skip(i as int);
        if starts(rest, p@) {
            assert(rest.subrange(0, p@.len() as int) =~= v@.subrange(i as int, i + p@.len()));
        }
    }
    let r = string_of(&v, i, n);
    assert(r@ =~= v@.skip(i as int));
    r
}

/// `s` without every `p` at its end.
pub fn trim_end_text(s: &str, p: &str) -> (r: String)
    requires
        p@.len() > 0,
    ensures
        r@ == unsuffixed(s@, p@),
{
    let v = chars(s);
    let w = chars(p);
    let mut n: usize = v.len();
    assert(v@.take(n as int) =~= s@);
    while n >= w.len() && stands_at(&v, &w, n - w.len())
        invariant
            n <= v.len(),
            v@ == s@,
            w@ == p@,
            p@.len() > 0,
            unsuffixed(s@, p@) == unsuffixed(v@.take(n as int), p@),
        decreases n,
    {
        proof {
            let rest = v@.take(n as int);
            let k = n - p@.len();
            assert(rest.subrange(k, n as int) =~= v@.subrange(k, n as int));
            assert(rest.take(k) =~= v@.take(k));
        }
        n = n - w.len();
    }
    proof {
        let rest = v@.take(n as int);
        if ends(rest, p@) {
            let k = n - p@.len();
            assert(rest.subrange(k, n as int) =~= v@.subrange(k, n as int));
        }
    }
    let r = string_of(&v, 0, n);
    assert(r@ =~= v@.take(n as int));
    r
}

/// Whether a text is among others.
pub fn is_among(s: &str, v: &Vec<String>) -> (r: bool)
    ensures
        r == texts(v@).contains(s@),
{
    let ghost all = texts(v@);
    let mut i: usize = 0;
    while i < v.len()
        invariant
            i <= v.len(),
            all == texts(v@),
            forall|j: int| 0 <= j < i ==> all[j] != s@,
        decreases v.len() - i,
    {
        if same(&v[i], s) {
            assert(all[i as int] == s@);
            return true;
        }
        i = i + 1;
    }
    false
}

/// The longest end of `s` that takes at most `n` bytes.
pub open spec fn clip_end(s: Seq<char>, n: int) -> Seq<char>
    decreases s.len(),
{
    if s.len() == 0 || utf8_len(s) <= n {
        s
    } else {
        clip_end(s.drop_first(), n)
    }
}

/// The longest end of `s` that takes at most `n` bytes.
pub fn clip_bytes_end(s: &str, n: usize) -> (r: String)
    ensures
        r@ == clip_end(s@, n as int),
{
    let v = chars(s);
    let end: usize = v.len();
    let mut left: usize = byte_len(s);
    let mut i: usize = 0;
    assert(v@.skip(0) =~= s@);
    while i < end && left > n
        invariant
            i <= end,
            end == v.len(),
            v@ == s@,
            left == utf8_len(v@.skip(i as int)),
            clip_end(s@, n as int) == clip_end(v@.skip(i as int), n as int),
        decreases end - i,
    {
        proof {
            let rest = v@.skip(i as int);
            assert(rest.drop_first() =~= v@.skip(i + 1));
            assert(rest =~= seq![rest[0]] + rest.drop_first());
            lemma_utf8_len_add(seq![rest[0]], rest.drop_first());
            lemma_utf8_len_push(Seq::<char>::empty(), rest[0]);
            assert(Seq::<char>::empty().push(rest[0]) =~= seq![rest[0]]);
        }
        left = left - char_width(v[i]);
        i = i + 1;
    }
    let r = string_of(&v, i, end);
    assert(r@ =~= v@.skip(i as int));
    r
}

/// The first `n` characters of `s`, or all of it when it has fewer.
pub open spec fn head(s: Seq<char>, n: int) -> Seq<char> {
    if s.len() <= n {
        s
    } else {
        s.take(n)
    }
}

pub fn take_chars(s: &str, n: usize) -> (r: String)
    ensures
        r@ == head(s@, n as int),
{
    let v = chars(s);
    if v.len() <= n {
        let r = string_of(&v, 0, v.len());
        assert(r@ =~= s@);
        r
    } else {
        let r = string_of(&v, 0, n);
        assert(r@ =~= s@.take(n as int));
        r
    }
}

// ---------------------------------------------------------------------------
// Splitting and joining
// ---------------------------------------------------------------------------

/// The pieces of `s` between occurrences of `c`.
pub open spec fn split(s: Seq<char>, c: char) -> Seq<Seq<char>>
    decreases s.len(),
{
    if s.len() == 0 {
        seq![Seq::empty()]
    } else {
        let init = split(s.drop_last(), c);
        if s.last() == c {
            init.push(Seq::empty())
        } else {
            init.drop_last().push(init.last().push(s.last()))
        }
    }
}

pub proof fn lemma_split_nonempty(s: Seq<char>, c: char)
    ensures
        split(s, c).len() >= 1,
    decreases s.len(),
{
    if s.len() > 0 {
        lemma_split_nonempty(s.drop_last(), c);
    }
}

/// The lines of `s`: the pieces between line feeds, each without one carriage
/// return at its end, and no last line when that would be empty.
pub open spec fn lines(s: Seq<char>) -> Seq<Seq<char>> {
    let parts = split(s, '\n');
    let full = if parts.last().len() == 0 {
        parts.drop_last()
    } else {
        parts
    };
    Seq::new(
        full.len(),
        |i: int|
            if i + 1 < parts.len() {
                chomp(full[i])
            } else {
                full[i]
            },
    )
}

/// `s` without one carriage return at its end.
pub open spec fn chomp(s: Seq<char>) -> Seq<char> {
    if s.len() > 0 && s.last() == '\r' {
        s.drop_last()
    } else {
        s
    }
}

/// The parts in order with `sep` between each two.
pub open spec fn join(parts: Seq<Seq<char>>, sep: Seq<char>) -> Seq<char>
    decreases parts.len(),
{
    if parts.len() == 0 {
        Seq::empty()
    } else if parts.len() == 1 {
        parts[0]
    } else {
        join(parts.drop_last(), sep) + sep + parts.last()
    }
}

/// The words of `s` that are complete, and the word that is being read.
pub open spec fn word_scan(s: Seq<char>) -> (Seq<Seq<char>>, Seq<char>)
    decreases s.len(),
{
    if s.len() == 0 {
        (Seq::empty(), Seq::empty())
    } else {
        let (done, cur) = word_scan(s.drop_last());
        if !white(s.last()) {
            (done, cur.push(s.last()))
        } else if cur.len() > 0 {
            (done.push(cur), Seq::empty())
        } else {
            (done, cur)
        }
    }
}

/// The words of `s`: its runs of characters that are not white space.
pub open spec fn words(s: Seq<char>) -> Seq<Seq<char>> {
    let (done, cur) = word_scan(s);
    if cur.len() > 0 {
        done.push(cur)
    } else {
        done
    }
}

pub proof fn lemma_texts_push(v: Seq<String>, s: String)
    ensures
        texts(v.push(s)) == texts(v).push(s@),
{
    assert(texts(v.push(s)) =~= texts(v).push(s@));
}

/// The pieces of `s` between occurrences of `c`.
pub fn split_char(s: &str, c: char) -> (r: Vec<String>)
    ensures
        texts(r@) == split(s@, c),
        r.len() >= 1,
{
    let v = chars(s);
    let mut r: Vec<String> = Vec::new();
    let mut cur: String = String::new();
    let mut i: usize = 0;
    assert(v@.take(0) =~= Seq::<char>::empty());
    assert(texts(r@).push(cur@) =~= split(v@.take(0), c));
    while i < v.len()
        invariant
            i <= v.len(),
            texts(r@).push(cur@) == split(v@.take(i as int), c),
        decreases v.len() - i,
    {
        let ghost before = texts(r@).push(cur@);
        assert(v@.take(i + 1).drop_last() =~= v@.take(i as int));
        if v[i] == c {
            let ghost old_r = r@;
            r.push(cur);
            cur = String::new();
            assert(texts(r@) =~= before);
        } else {
            cur.push(v[i]);
            assert(texts(r@).push(cur@) =~= before.drop_last().push(before.last().push(v@[i as int])));
        }
        i = i + 1;
    }
    assert(v@.take(i as int) =~= s@);
    let ghost before = r@;
    let ghost last = cur@;
    r.push(cur);
    assert(texts(r@) =~= texts(before).push(last));
    r
}

/// The lines of `s`.
pub fn lines_of(s: &str) -> (r: Vec<String>)
    ensures
        texts(r@) == lines(s@),
{
    let parts = split_char(s, '\n');
    let ghost all = split(s@, '\n');
    let total: usize = parts.len();
    let mut n: usize = total;
    let last = chars(&parts[total - 1]);
    assert(all.last() == parts@.last()@);
    if last.len() == 0 {
        n = n - 1;
    }
    let mut r: Vec<String> = Vec::new();
    let mut i: usize = 0;
    while i < n
        invariant
            i <= n <= total,
            total == parts.len(),
            texts(parts@) == all,
            all == split(s@, '\n'),
            n == lines(s@).len(),
            n == (if all.last().len() == 0 { all.len() - 1 } else { all.len() as int }),
            texts(r@) == lines(s@).take(i as int),
        decreases n - i,
    {
        let piece = &parts[i];
        assert(all[i as int] == piece@);
        let w = chars(piece);
        let line = if i + 1 < total && w.len() > 0 && w[w.len() - 1] == '\r' {
            let l = string_of(&w, 0, w.len() - 1);
            assert(l@ =~= chomp(piece@));
            l
        } else {
            piece.clone()
        };
        assert(line@ == lines(s@)[i as int]);
        proof {
            lemma_texts_push(r@, line);
        }
        r.push(line);
        i = i + 1;
        assert(lines(s@).take(i as int) =~= lines(s@).take(i - 1).push(lines(s@)[i - 1]));
    }
    assert(lines(s@).take(n as int) =~= lines(s@));
    r
}

/// The parts in order with `sep` between each two.
pub fn join_with(parts: &Vec<String>, sep: &str) -> (r: String)
    ensures
        r@ == join(texts(parts@), sep@),
{
    let mut r: String = String::new();
    let mut i: usize = 0;
    let ghost all = texts(parts@);
    assert(all.take(0) =~= Seq::<Seq<char>>::empty());
    while i < parts.len()
        invariant
            i <= parts.len(),
            all == texts(parts@),
            r@ == join(all.take(i as int), sep@),
        decreases parts.len() - i,
    {
        assert(all.take(i + 1).drop_last() =~= all.take(i as int));
        assert(all.take(i + 1).last() == parts@[i as int]@);
        if i > 0 {
            r.push_str(sep);
        }
        r.push_str(&parts[i]);
        i = i + 1;
    }
    assert(all.take(i as int) =~= all);
    r
}

/// The words of `s`.
pub fn words_of(s: &str) -> (r: Vec<String>)
    ensures
        texts(r@) == words(s@),
{
    let v = chars(s);
    let mut r: Vec<String> = Vec::new();
    let mut cur: String = String::new();
    let mut some: bool = false;
    let mut i: usize = 0;
    assert(v@.take(0) =~= Seq::<char>::empty());
    assert(texts(r@) =~= Seq::<Seq<char>>::empty());
    while i < v.len()
        invariant
            i <= v.len(),
            (texts(r@), cur@) == word_scan(v@.take(i as int)),
            some == (cur@.len() > 0),
        decreases v.len() - i,
    {
        assert(v@.take(i + 1).drop_last() =~= v@.take(i as int));
        if !is_white(v[i]) {
            cur.push(v[i]);
            some = true;
        } else if some {
            proof {
                lemma_texts_push(r@, cur);
            }
            r.push(cur);
            cur = String::new();
            some = false;
        }
        i = i + 1;
    }
    assert(v@.take(i as int) =~= s@);
    if some {
        proof {
            lemma_texts_push(r@, cur);
        }
        r.push(cur);
    }
    r
}

/// The texts that hold anything.
pub open spec fn filled(v: Seq<Seq<char>>) -> Seq<Seq<char>>
    decreases v.len(),
{
    if v.len() == 0 {
        Seq::empty()
    } else if v.last().len() > 0 {
        filled(v.drop_last()).push(v.last())
    } else {
        filled(v.drop_last())
    }
}

/// The texts that hold anything.
pub fn filled_of(v: &Vec<String>) -> (r: Vec<String>)
    ensures
        texts(r@) == filled(texts(v@)),
{
    let ghost all = texts(v@);
    let mut r: Vec<String> = Vec::new();
    let mut i: usize = 0;
    assert(texts(r@) =~= filled(all.take(0)));
    while i < v.len()
        invariant
            i <= v.len(),
            all == texts(v@),
            texts(r@) == filled(all.take(i as int)),
        decreases v.len() - i,
    {
        assert(all.take(i + 1).drop_last() =~= all.take(i as int));
        assert(all.take(i + 1).last() == v@[i as int]@);
        if !v[i].as_str().is_empty() {
            let s = v[i].clone();
            proof {
                lemma_texts_push(r@, s);
            }
            r.push(s);
        }
        i = i + 1;
    }
    assert(all.take(i as int) =~= all);
    r
}

/// The first `n` texts, or all when there are fewer.
pub open spec fn leading<A>(v: Seq<A>, n: int) -> Seq<A> {
    if n < v.len() {
        v.take(n)
    } else {
        v
    }
}

/// The first `n` texts, or all when there are fewer.
pub fn leading_of(v: &Vec<String>, n: usize) -> (r: Vec<String>)
    ensures
        texts(r@) == leading(texts(v@), n as int),
{
    let ghost all = texts(v@);
    let mut r: Vec<String> = Vec::new();
    let mut i: usize = 0;
    assert(texts(r@) =~= all.take(0));
    while i < v.len() && i < n
        invariant
            i <= v.len(),
            i <= n,
            all == texts(v@),
            texts(r@) == all.take(i as int),
        decreases v.len() - i,
    {
        let s = v[i].clone();
        proof {
            lemma_texts_push(r@, s);
            assert(all[i as int] == v@[i as int]@);
            assert(all.take(i + 1) =~= all.take(i as int).push(all[i as int]));
        }
        r.push(s);
        i = i + 1;
    }
    assert(texts(r@) =~= leading(all, n as int));
    r
}

// ---------------------------------------------------------------------------
// Replacing and counting
// ---------------------------------------------------------------------------

/// `s` with every occurrence of `p`, taken from the left without overlap,
/// replaced by `q`. `p` is not empty.
pub open spec fn replaced(s: Seq<char>, p: Seq<char>, q: Seq<char>) -> Seq<char>
    decreases s.len(),
{
    match first_at(s, p, 0) {
        Some(i) => if p.len() > 0 && 0 <= i && i + p.len() <= s.len() {
            s.take(i) + q + replaced(s.skip(i + p.len()), p, q)
        } else {
            s
        },
        None => s,
    }
}

/// How many occurrences of `p` there are in `s`, taken from the left without
/// overlap. `p` is not empty.
pub open spec fn occurrences(s: Seq<char>, p: Seq<char>) -> nat
    decreases s.len(),
{
    match first_at(s, p, 0) {
        Some(i) => if p.len() > 0 && 0 <= i && i + p.len() <= s.len() {
            1 + occurrences(s.skip(i + p.len()), p)
        } else {
            0
        },
        None => 0,
    }
}

/// A search in what is left after `k` characters finds what a search from `k`
/// on finds.
pub proof fn lemma_first_at_skip(s: Seq<char>, p: Seq<char>, k: int, from: int)
    requires
        0 <= k <= s.len(),
        0 <= from,
    ensures
        match first_at(s.skip(k), p, from) {
            Some(i) => first_at(s, p, k + from) == Some(k + i),
            None => first_at(s, p, k + from) is None,
        },
    decreases s.len() + 1 - from,
{
    if from + p.len() <= s.len() - k {
        assert(s.skip(k).subrange(from, from + p.len()) =~= s.subrange(k + from, k + from + p.len()));
        if !at(s.skip(k), p, from) {
            lemma_first_at_skip(s, p, k, from + 1);
        }
    }
}

/// Every occurrence of `p` in `s` replaced by `q`.
pub fn replace(s: &str, p: &str, q: &str) -> (r: String)
    requires
        p@.len() > 0,
    ensures
        r@ == replaced(s@, p@, q@),
{
    let v = chars(s);
    let w = chars(p);
    let mut r: String = String::new();
    let mut k: usize = 0;
    assert(s@.skip(0) =~= s@);
    loop
        invariant_except_break
            k <= v.len(),
            r@ + replaced(s@.skip(k as int), p@, q@) == replaced(s@, p@, q@),
        invariant
            v@ == s@,
            w@ == p@,
            p@.len() > 0,
        ensures
            r@ == replaced(s@, p@, q@),
        decreases v.len() - k,
    {
        proof {
            lemma_first_at_skip(s@, p@, k as int, 0);
            lemma_first_at(s@, p@, k as int);
        }
        match find_from(&v, &w, k) {
            Some(i) => {
                let piece = string_of(&v, k, i);
                let ghost before = r@;
                r.push_str(&piece);
                r.push_str(q);
                proof {
                    let rest = s@.skip(k as int);
                    let j = i - k;
                    assert(first_at(rest, p@, 0) == Some(j));
                    assert(rest.take(j) =~= piece@);
                    assert(rest.skip(j + p@.len()) =~= s@.skip(i + p@.len()));
                    assert(r@ + replaced(s@.skip(i + p@.len()), p@, q@) =~= before + (piece@ + q@
                        + replaced(s@.skip(i + p@.len()), p@, q@)));
                }
                k = i + w.len();
            },
            None => {
                let piece = string_of(&v, k, v.len());
                let ghost before = r@;
                r.push_str(&piece);
                assert(piece@ =~= s@.skip(k as int));
                assert(r@ =~= before + replaced(s@.skip(k as int), p@, q@));
                break;
            },
        }
    }
    r
}

/// How many occurrences of `p` there are in `s`.
pub fn count(s: &str, p: &str) -> (n: usize)
    requires
        p@.len() > 0,
    ensures
        n == occurrences(s@, p@),
{
    let v = chars(s);
    let w = chars(p);
    let mut n: usize = 0;
    let mut k: usize = 0;
    assert(s@.skip(0) =~= s@);
    loop
        invariant
            v@ == s@,
            w@ == p@,
            p@.len() > 0,
            n <= k <= v.len(),
            n + occurrences(s@.skip(k as int), p@) == occurrences(s@, p@),
        ensures
            n == occurrences(s@, p@),
        decreases v.len() - k,
    {
        proof {
            lemma_first_at_skip(s@, p@, k as int, 0);
            lemma_first_at(s@, p@, k as int);
        }
        match find_from(&v, &w, k) {
            Some(i) => {
                proof {
                    let rest = s@.skip(k as int);
                    let j = i - k;
                    assert(first_at(rest, p@, 0) == Some(j));
                    assert(rest.skip(j + p@.len()) =~= s@.skip(i + p@.len()));
                }
                n = n + 1;
                k = i + w.len();
            },
            None => {
                break;
            },
        }
    }
    n
}

// ---------------------------------------------------------------------------
// ASCII case
// ---------------------------------------------------------------------------

pub open spec fn ascii_lower_char(c: char) -> char {
    if 'A' <= c && c <= 'Z' {
        (c as u32 + 32) as char
    } else {
        c
    }
}

/// `s` with the letters `A` to `Z` in lower case.
pub open spec fn ascii_lower(s: Seq<char>) -> Seq<char> {
    s.map_values(|c: char| ascii_lower_char(c))
}

pub open spec fn ascii_upper_char(c: char) -> char {
    if 'a' <= c && c <= 'z' {
        (c as u32 - 32) as char
    } else {
        c
    }
}

/// `s` with the letters `a` to `z` in upper case.
pub open spec fn ascii_upper(s: Seq<char>) -> Seq<char> {
    s.map_values(|c: char| ascii_upper_char(c))
}

pub open spec fn is_ascii(c: char) -> bool {
    (c as u32) < 128
}

pub open spec fn all_ascii(s: Seq<char>) -> bool {
    forall|i: int| 0 <= i < s.len() ==> is_ascii(#[trigger] s[i])
}

/// Whether a character is one of the letters `a` to `z` and `A` to `Z` and the
/// digits.
pub open spec fn ascii_alphanumeric(c: char) -> bool {
    ('a' <= c && c <= 'z') || ('A' <= c && c <= 'Z') || is_digit(c)
}

fn lower_char(c: char) -> (r: char)
    ensures
        r == ascii_lower_char(c),
{
    if 'A' <= c && c <= 'Z' {
        let b: u8 = c as u8;
        (b + 32) as char
    } else {
        c
    }
}

pub fn to_ascii_lowercase(s: &str) -> (r: String)
    ensures
        r@ == ascii_lower(s@),
{
    let v = chars(s);
    let mut r: String = String::new();
    let mut i: usize = 0;
    while i < v.len()
        invariant
            i <= v.len(),
            v@ == s@,
            r@ == ascii_lower(s@.take(i as int)),
        decreases v.len() - i,
    {
        r.push(lower_char(v[i]));
        i = i + 1;
        assert(r@ =~= ascii_lower(s@.take(i as int)));
    }
    assert(s@.take(i as int) =~= s@);
    r
}

// ---------------------------------------------------------------------------
// Decimal numbers
// ---------------------------------------------------------------------------

pub open spec fn digit(d: int) -> char {
    (48 + d) as char
}

/// A natural number in decimal digits.
pub open spec fn decimal(n: nat) -> Seq<char>
    decreases n,
{
    if n < 10 {
        seq![digit(n as int)]
    } else {
        decimal(n / 10).push(digit((n % 10) as int))
    }
}

/// An integer in decimal digits, with a minus sign when it is negative.
pub open spec fn decimal_int(n: int) -> Seq<char> {
    if n < 0 {
        seq!['-'] + decimal((-n) as nat)
    } else {
        decimal(n as nat)
    }
}

fn digit_char(d: u8) -> (c: char)
    requires
        d < 10,
    ensures
        c == digit(d as int),
{
    (48 + d) as char
}

/// A number, in decimal.
pub fn wide_number(n: u128) -> (s: String)
    ensures
        s@ == decimal(n as nat),
    decreases n,
{
    if n < 10 {
        let mut s: String = String::new();
        s.push(digit_char(n as u8));
        assert(s@ =~= decimal(n as nat));
        s
    } else {
        let mut s = wide_number(n / 10);
        s.push(digit_char((n % 10) as u8));
        s
    }
}

pub fn number(n: u64) -> (s: String)
    ensures
        s@ == decimal(n as nat),
    decreases n,
{
    if n < 10 {
        let mut s: String = String::new();
        s.push(digit_char(n as u8));
        assert(s@ =~= decimal(n as nat));
        s
    } else {
        let mut s = number(n / 10);
        s.push(digit_char((n % 10) as u8));
        s
    }
}

pub fn signed_number(n: i64) -> (s: String)
    ensures
        s@ == decimal_int(n as int),
{
    if n < 0 {
        let mut s: String = String::new();
        s.push('-');
        let magnitude: u64 = if n == i64::MIN {
            0x8000_0000_0000_0000
        } else {
            (-n) as u64
        };
        let t = number(magnitude);
        s.push_str(&t);
        assert(s@ =~= decimal_int(n as int));
        s
    } else {
        number(n as u64)
    }
}

pub open spec fn is_digit(c: char) -> bool {
    '0' <= c && c <= '9'
}

pub open spec fn digit_value(c: char) -> nat {
    (c as u32 - 48) as nat
}

/// The number that a run of decimal digits spells.
pub open spec fn digits_value(s: Seq<char>) -> nat
    decreases s.len(),
{
    if s.len() == 0 {
        0
    } else {
        10 * digits_value(s.drop_last()) + digit_value(s.last())
    }
}

/// A number that is written in decimal is read back as it was.
pub proof fn law_decimal(n: nat)
    ensures
        digits_value(decimal(n)) == n,
        decimal(n).len() > 0,
    decreases n,
{
    if n < 10 {
        assert(decimal(n).drop_last() =~= Seq::<char>::empty());
        assert(digit_value(digit(n as int)) == n);
        assert(digits_value(decimal(n).drop_last()) == 0);
    } else {
        law_decimal(n / 10);
        let d = digit((n % 10) as int);
        assert(decimal(n).drop_last() =~= decimal(n / 10));
        assert(digit_value(d) == n % 10);
    }
}

pub open spec fn all_digits(s: Seq<char>) -> bool {
    s.len() > 0 && forall|i: int| 0 <= i < s.len() ==> is_digit(#[trigger] s[i])
}

/// The number that `s` spells: decimal digits, with an optional plus sign in
/// front, when it is at most `max`.
pub open spec fn parsed(s: Seq<char>, max: nat) -> Option<nat> {
    let body = if s.len() > 0 && s[0] == '+' {
        s.drop_first()
    } else {
        s
    };
    if all_digits(body) && digits_value(body) <= max {
        Some(digits_value(body))
    } else {
        None
    }
}

proof fn lemma_digits_value_mono(s: Seq<char>, i: int, j: int)
    requires
        0 <= i <= j <= s.len(),
    ensures
        digits_value(s.take(i)) <= digits_value(s.take(j)),
    decreases j - i,
{
    if i < j {
        lemma_digits_value_mono(s, i, j - 1);
        assert(s.take(j).drop_last() =~= s.take(j - 1));
    }
}

/// The value of the decimal digits `v[from..]`, when they are digits and the
/// value is at most `max`.
pub fn parse_digits(v: &Vec<char>, from: usize, max: u64) -> (r: Option<u64>)
    requires
        from <= v.len(),
    ensures
        match r {
            Some(n) => all_digits(v@.skip(from as int)) && n == digits_value(v@.skip(from as int))
                && n <= max,
            None => !(all_digits(v@.skip(from as int)) && digits_value(v@.skip(from as int))
                <= max),
        },
{
    if from == v.len() {
        return None;
    }
    let ghost body = v@.skip(from as int);
    let mut n: u64 = 0;
    let mut i: usize = from;
    assert(body.take(0) =~= Seq::<char>::empty());
    while i < v.len()
        invariant
            from <= i <= v.len(),
            body == v@.skip(from as int),
            forall|j: int| 0 <= j < i - from ==> is_digit(#[trigger] body[j]),
            n == digits_value(body.take(i - from)),
            n <= max,
        decreases v.len() - i,
    {
        let c: char = v[i];
        assert(body[i - from] == c);
        if !('0' <= c && c <= '9') {
            assert(!is_digit(body[i - from]));
            return None;
        }
        let d: u64 = (c as u32 - 48) as u64;
        proof {
            assert(body.take(i - from + 1).drop_last() =~= body.take(i - from));
            lemma_digits_value_mono(body, i - from + 1, body.len() as int);
            assert(body.take(body.len() as int) =~= body);
        }
        if n > max / 10 || max - n * 10 < d {
            assert(10 * n + d > max);
            return None;
        }
        n = n * 10 + d;
        i = i + 1;
    }
    assert(body.take(i - from) =~= body);
    Some(n)
}

/// The unsigned number that `s` spells, when it is at most `max`.
pub fn parse_number(s: &str, max: u64) -> (r: Option<u64>)
    ensures
        match r {
            Some(n) => parsed(s@, max as nat) == Some(n as nat),
            None => parsed(s@, max as nat) is None,
        },
{
    let v = chars(s);
    if v.len() > 0 && v[0] == '+' {
        assert(v@.skip(1) =~= s@.drop_first());
        parse_digits(&v, 1, max)
    } else {
        assert(v@.skip(0) =~= s@);
        parse_digits(&v, 0, max)
    }
}

// ---------------------------------------------------------------------------
// Order
// ---------------------------------------------------------------------------

/// The order of texts by their characters' code points, the first difference
/// deciding and a prefix coming first.
pub open spec fn ordered(a: Seq<char>, b: Seq<char>) -> bool
    decreases a.len(),
{
    if a.len() == 0 {
        true
    } else if b.len() == 0 {
        false
    } else if a[0] == b[0] {
        ordered(a.drop_first(), b.drop_first())
    } else {
        (a[0] as u32) < (b[0] as u32)
    }
}

proof fn lemma_ordered_total(a: Seq<char>, b: Seq<char>)
    ensures
        ordered(a, b) || ordered(b, a),
    decreases a.len(),
{
    if a.len() > 0 && b.len() > 0 && a[0] == b[0] {
        lemma_ordered_total(a.drop_first(), b.drop_first());
    } else if a.len() > 0 && b.len() > 0 {
        vstd::utf8::char_u32_cast(a[0], a[0] as u32);
        vstd::utf8::char_u32_cast(b[0], b[0] as u32);
    }
}

proof fn lemma_ordered_trans(a: Seq<char>, b: Seq<char>, c: Seq<char>)
    requires
        ordered(a, b),
        ordered(b, c),
    ensures
        ordered(a, c),
    decreases a.len(),
{
    if a.len() > 0 && b.len() > 0 && c.len() > 0 && a[0] == b[0] && b[0] == c[0] {
        lemma_ordered_trans(a.drop_first(), b.drop_first(), c.drop_first());
    }
}

/// `v` with `x` put behind the last text that does not come after it.
pub open spec fn placed(v: Seq<Seq<char>>, x: Seq<char>) -> Seq<Seq<char>>
    decreases v.len(),
{
    if v.len() == 0 {
        seq![x]
    } else if ordered(v.last(), x) {
        v.push(x)
    } else {
        placed(v.drop_last(), x).push(v.last())
    }
}

/// The texts of `v` in order.
pub open spec fn sorted(v: Seq<Seq<char>>) -> Seq<Seq<char>>
    decreases v.len(),
{
    if v.len() == 0 {
        v
    } else {
        placed(sorted(v.drop_last()), v.last())
    }
}

pub open spec fn in_order(v: Seq<Seq<char>>) -> bool {
    forall|i: int, j: int| 0 <= i <= j < v.len() ==> ordered(#[trigger] v[i], #[trigger] v[j])
}

proof fn lemma_placed(v: Seq<Seq<char>>, x: Seq<char>)
    requires
        in_order(v),
    ensures
        in_order(placed(v, x)),
        placed(v, x).to_multiset() == v.to_multiset().insert(x),
        placed(v, x).len() == v.len() + 1,
        forall|k: int|
            0 <= k < placed(v, x).len() ==> (#[trigger] placed(v, x)[k]) == x || v.contains(
                placed(v, x)[k],
            ),
    decreases v.len(),
{
    broadcast use vstd::seq_lib::group_to_multiset_ensures;

    lemma_ordered_total(x, x);
    if v.len() == 0 {
        assert(seq![x] =~= Seq::<Seq<char>>::empty().push(x));
        assert(v =~= Seq::<Seq<char>>::empty());
    } else if ordered(v.last(), x) {
        assert forall|i: int, j: int| 0 <= i <= j < v.push(x).len() implies ordered(
            #[trigger] v.push(x)[i],
            #[trigger] v.push(x)[j],
        ) by {
            if j == v.len() && i < v.len() {
                assert(ordered(v[i], v[v.len() - 1]));
                lemma_ordered_trans(v[i], v.last(), x);
            }
        }
        assert forall|k: int| 0 <= k < v.push(x).len() implies (#[trigger] v.push(x)[k]) == x
            || v.contains(v.push(x)[k]) by {
            if k < v.len() {
                assert(v[k] == v.push(x)[k]);
            }
        }
    } else {
        let init = v.drop_last();
        let l = v.last();
        lemma_placed(init, x);
        lemma_ordered_total(l, x);
        let p = placed(init, x);
        assert(v =~= init.push(l));
        assert(p.push(l).to_multiset() =~= v.to_multiset().insert(x));
        assert forall|i: int, j: int| 0 <= i <= j < p.push(l).len() implies ordered(
            #[trigger] p.push(l)[i],
            #[trigger] p.push(l)[j],
        ) by {
            if j == p.len() && i < p.len() {
                if p[i] != x {
                    let m = choose|m: int| 0 <= m < init.len() && init[m] == p[i];
                    assert(v[m] == p[i]);
                    assert(ordered(v[m], v[v.len() - 1]));
                }
            } else if i == p.len() {
                lemma_ordered_total(l, l);
            }
        }
        assert forall|k: int| 0 <= k < p.push(l).len() implies (#[trigger] p.push(l)[k]) == x
            || v.contains(p.push(l)[k]) by {
            if k < p.len() {
                if p[k] != x {
                    let m = choose|m: int| 0 <= m < init.len() && init[m] == p[k];
                    assert(v[m] == p[k]);
                }
            } else {
                assert(v[v.len() - 1] == l);
            }
        }
    }
}

/// Sorting keeps the texts, each as often as it was there, and puts them in
/// order.
pub proof fn law_sorted(v: Seq<Seq<char>>)
    ensures
        in_order(sorted(v)),
        sorted(v).to_multiset() == v.to_multiset(),
    decreases v.len(),
{
    broadcast use vstd::seq_lib::group_to_multiset_ensures;

    if v.len() > 0 {
        law_sorted(v.drop_last());
        lemma_placed(sorted(v.drop_last()), v.last());
        assert(v =~= v.drop_last().push(v.last()));
    }
}

/// Whether `a` comes before `b` or is the same text.
pub fn text_le(a: &str, b: &str) -> (r: bool)
    ensures
        r == ordered(a@, b@),
{
    let v = chars(a);
    let w = chars(b);
    let mut i: usize = 0;
    assert(v@.skip(0) =~= v@);
    assert(w@.skip(0) =~= w@);
    while i < v.len() && i < w.len() && v[i] == w[i]
        invariant
            i <= v.len(),
            i <= w.len(),
            ordered(v@, w@) == ordered(v@.skip(i as int), w@.skip(i as int)),
        decreases v.len() - i,
    {
        assert(v@.skip(i as int).drop_first() =~= v@.skip(i + 1));
        assert(w@.skip(i as int).drop_first() =~= w@.skip(i + 1));
        i = i + 1;
    }
    if i == v.len() {
        true
    } else if i == w.len() {
        false
    } else {
        assert(v@.skip(i as int)[0] == v@[i as int]);
        assert(w@.skip(i as int)[0] == w@[i as int]);
        (v[i] as u32) < (w[i] as u32)
    }
}

/// The texts of `v` in order.
pub fn sort_texts(v: &Vec<String>) -> (r: Vec<String>)
    ensures
        texts(r@) == sorted(texts(v@)),
{
    let ghost all = texts(v@);
    let mut r: Vec<String> = Vec::new();
    let mut i: usize = 0;
    assert(texts(r@) =~= sorted(all.take(0)));
    while i < v.len()
        invariant
            i <= v.len(),
            all == texts(v@),
            texts(r@) == sorted(all.take(i as int)),
        decreases v.len() - i,
    {
        let ghost done = texts(r@);
        let ghost x = v@[i as int]@;
        let mut k: usize = r.len();
        assert(placed(done.take(k as int), x) + done.skip(k as int) =~= placed(done, x)) by {
            assert(done.take(k as int) =~= done);
            assert(done.skip(k as int) =~= Seq::<Seq<char>>::empty());
        }
        while k > 0 && !text_le(&r[k - 1], &v[i])
            invariant
                k <= r.len(),
                i < v.len(),
                done == texts(r@),
                x == v@[i as int]@,
                placed(done.take(k as int), x) + done.skip(k as int) == placed(done, x),
            decreases k,
        {
            proof {
                let t = done.take(k as int);
                assert(t.drop_last() =~= done.take(k - 1));
                assert(t.last() == r@[k - 1]@);
                assert(placed(done.take(k - 1), x) + done.skip(k - 1) =~= placed(t, x)
                    + done.skip(k as int));
            }
            k = k - 1;
        }
        proof {
            let t = done.take(k as int);
            if k > 0 {
                assert(t.last() == r@[k - 1]@);
            }
            assert(placed(t, x) =~= t.push(x));
        }
        let copy = v[i].clone();
        r.insert(k, copy);
        proof {
            assert(texts(r@) =~= done.take(k as int).push(x) + done.skip(k as int));
            assert(all.take(i + 1).drop_last() =~= all.take(i as int));
            assert(all.take(i + 1).last() == x);
        }
        i = i + 1;
    }
    assert(all.take(i as int) =~= all);
    r
}

// ---------------------------------------------------------------------------
// Positions in bytes
// ---------------------------------------------------------------------------

/// The number of characters in front of the byte offset `b`, when a character
/// of `s` starts there or `s` ends there. Counted from `k`.
pub open spec fn index_from(s: Seq<char>, b: int, k: int) -> Option<int>
    decreases s.len() + 1 - k,
{
    if k < 0 || k > s.len() {
        None
    } else if utf8_len(s.take(k)) == b {
        Some(k)
    } else {
        index_from(s, b, k + 1)
    }
}

/// The number of characters in front of a byte offset that lies between two
/// characters.
pub open spec fn index_at(s: Seq<char>, b: int) -> Option<int> {
    index_from(s, b, 0)
}

/// A byte offset that lies between two characters, or at an end.
pub open spec fn is_boundary(s: Seq<char>, b: int) -> bool {
    index_at(s, b) is Some
}

proof fn lemma_index_from(s: Seq<char>, b: int, k: int)
    requires
        0 <= k,
    ensures
        match index_from(s, b, k) {
            Some(i) => k <= i <= s.len() && utf8_len(s.take(i)) == b,
            None => forall|i: int| k <= i <= s.len() ==> utf8_len(#[trigger] s.take(i)) != b,
        },
    decreases s.len() + 1 - k,
{
    if k <= s.len() && utf8_len(s.take(k)) != b {
        lemma_index_from(s, b, k + 1);
    }
}

/// A boundary stands behind exactly one number of characters.
pub proof fn lemma_index_at(s: Seq<char>, b: int)
    ensures
        match index_at(s, b) {
            Some(i) => 0 <= i <= s.len() && utf8_len(s.take(i)) == b,
            None => forall|i: int| 0 <= i <= s.len() ==> utf8_len(#[trigger] s.take(i)) != b,
        },
{
    lemma_index_from(s, b, 0);
}

pub proof fn lemma_index_of_take(s: Seq<char>, i: int)
    requires
        0 <= i <= s.len(),
    ensures
        index_at(s, utf8_len(s.take(i)) as int) == Some(i),
{
    let b = utf8_len(s.take(i)) as int;
    lemma_index_at(s, b);
    match index_at(s, b) {
        Some(j) => {
            if j < i {
                lemma_utf8_len_take(s, j, i);
            } else if i < j {
                lemma_utf8_len_take(s, i, j);
            }
        },
        None => {
            assert(utf8_len(s.take(i)) == b);
        },
    }
}

/// The number of characters in front of the byte offset `b`, when it is a
/// boundary.
pub fn char_index(v: &Vec<char>, b: usize) -> (r: Option<usize>)
    ensures
        match r {
            Some(i) => index_at(v@, b as int) == Some(i as int) && i <= v.len(),
            None => index_at(v@, b as int) is None,
        },
{
    let mut k: usize = 0;
    let mut used: usize = 0;
    assert(v@.take(0) =~= Seq::<char>::empty());
    while used < b && k < v.len()
        invariant
            k <= v.len(),
            used <= b,
            used == utf8_len(v@.take(k as int)),
            index_at(v@, b as int) == index_from(v@, b as int, k as int),
        decreases v.len() - k,
    {
        let w = char_width(v[k]);
        proof {
            assert(v@.take(k + 1) =~= v@.take(k as int).push(v@[k as int]));
            lemma_utf8_len_push(v@.take(k as int), v@[k as int]);
        }
        if w > b - used {
            proof {
                lemma_index_from(v@, b as int, k + 1);
                match index_from(v@, b as int, k + 1) {
                    Some(i) => {
                        lemma_utf8_len_take(v@, k + 1, i);
                    },
                    None => {},
                }
            }
            return None;
        }
        used = used + w;
        k = k + 1;
    }
    if used == b {
        Some(k)
    } else {
        proof {
            if k == v@.len() {
                assert(index_from(v@, b as int, k + 1) is None);
            }
        }
        None
    }
}

/// The text of the bytes `a..b`, when they are within `s` and make whole
/// characters.
pub open spec fn byte_slice(s: Seq<char>, a: int, b: int) -> Option<Seq<char>> {
    if a < 0 || b > utf8_len(s) || a > b {
        None
    } else if a == b {
        Some(Seq::empty())
    } else {
        match (index_at(s, a), index_at(s, b)) {
            (Some(i), Some(j)) => Some(s.subrange(i, j)),
            _ => None,
        }
    }
}

/// The text of the bytes `a..b` of `s`.
pub fn slice_bytes(s: &str, a: usize, b: usize) -> (r: Option<String>)
    ensures
        opt_text(r) == byte_slice(s@, a as int, b as int),
{
    if a > b || b > byte_len(s) {
        return None;
    }
    if a == b {
        let e = String::new();
        assert(e@ =~= Seq::<char>::empty());
        return Some(e);
    }
    let v = chars(s);
    match (char_index(&v, a), char_index(&v, b)) {
        (Some(i), Some(j)) => {
            proof {
                lemma_index_at(s@, a as int);
                lemma_index_at(s@, b as int);
                if j < i {
                    lemma_utf8_len_take(s@, j as int, i as int);
                }
            }
            Some(string_of(&v, i, j))
        },
        _ => None,
    }
}

// ---------------------------------------------------------------------------
// Laws
// ---------------------------------------------------------------------------

/// Of the characters of ASCII the blank and those from the tab to the carriage
/// return are white space.
pub proof fn law_white(c: char)
    requires
        (c as u32) < 128,
    ensures
        white(c) <==> (c == ' ' || c == '\t' || c == '\n' || c == '\r' || c == '\x0b' || c == '\x0c'),
{
}

proof fn lemma_trimmed_start(s: Seq<char>) -> (i: int)
    ensures
        0 <= i <= s.len(),
        trimmed_start(s) == s.skip(i),
        forall|k: int| 0 <= k < i ==> white(#[trigger] s[k]),
        i < s.len() ==> !white(s[i]),
    decreases s.len(),
{
    if s.len() > 0 && white(s[0]) {
        let rest = s.drop_first();
        let j = lemma_trimmed_start(rest);
        assert(s.skip(j + 1) =~= rest.skip(j));
        assert forall|k: int| 0 <= k < j + 1 implies white(#[trigger] s[k]) by {
            if k > 0 {
                assert(rest[k - 1] == s[k]);
            }
        }
        if j + 1 < s.len() {
            assert(rest[j] == s[j + 1]);
        }
        j + 1
    } else {
        assert(s.skip(0) =~= s);
        0
    }
}

proof fn lemma_trimmed_end(s: Seq<char>) -> (i: int)
    ensures
        0 <= i <= s.len(),
        trimmed_end(s) == s.take(i),
        forall|k: int| i <= k < s.len() ==> white(#[trigger] s[k]),
        i > 0 ==> !white(s[i - 1]),
    decreases s.len(),
{
    if s.len() > 0 && white(s.last()) {
        let rest = s.drop_last();
        let j = lemma_trimmed_end(rest);
        assert(s.take(j) =~= rest.take(j));
        assert forall|k: int| j <= k < s.len() implies white(#[trigger] s[k]) by {
            if k < s.len() - 1 {
                assert(rest[k] == s[k]);
            }
        }
        j
    } else {
        assert(s.take(s.len() as int) =~= s);
        s.len() as int
    }
}

/// A trimmed text is what is left when all the white space at both ends of a
/// text, and nothing else, is taken off.
pub proof fn law_trimmed(s: Seq<char>)
    ensures
        exists|i: int, j: int|
            {
                &&& 0 <= i <= j <= s.len()
                &&& trimmed(s) == #[trigger] s.subrange(i, j)
                &&& forall|k: int| 0 <= k < i || j <= k < s.len() ==> white(#[trigger] s[k])
            },
        trimmed(s).len() > 0 ==> !white(trimmed(s)[0]) && !white(trimmed(s).last()),
        trimmed(trimmed(s)) == trimmed(s),
{
    let i = lemma_trimmed_start(s);
    let t = s.skip(i);
    let j = lemma_trimmed_end(t);
    assert(trimmed(s) =~= s.subrange(i, i + j));
    assert forall|k: int| 0 <= k < i || i + j <= k < s.len() implies white(#[trigger] s[k]) by {
        if k >= i {
            assert(t[k - i] == s[k]);
        }
    }
    let r = trimmed(s);
    if r.len() > 0 {
        assert(r[0] == s[i]);
        assert(r.last() == t[j - 1]);
        assert(trimmed_start(r) == r);
    }
}

/// The pieces of a text hold no separator, and put together with separators
/// between them they are the text.
pub proof fn law_split(s: Seq<char>, c: char)
    ensures
        split(s, c).len() >= 1,
        join(split(s, c), seq![c]) == s,
        forall|i: int| 0 <= i < split(s, c).len() ==> !(#[trigger] split(s, c)[i]).contains(c),
    decreases s.len(),
{
    if s.len() > 0 {
        law_split(s.drop_last(), c);
        let init = split(s.drop_last(), c);
        let all = split(s, c);
        let sep = seq![c];
        if s.last() == c {
            assert(all.drop_last() =~= init);
            assert(join(all, sep) =~= s.drop_last() + sep);
            assert(s.drop_last() + sep =~= s);
        } else {
            let a = init.drop_last();
            let x = init.last();
            let y = x.push(s.last());
            assert(init =~= a.push(x));
            assert(all =~= a.push(y));
            assert(a.push(x).drop_last() =~= a);
            assert(a.push(y).drop_last() =~= a);
            if a.len() == 0 {
                assert(join(init, sep) == x);
                assert(join(all, sep) == y);
                assert(y =~= s);
            } else {
                assert(join(init, sep) == join(a, sep) + sep + x);
                assert(join(all, sep) == join(a, sep) + sep + y);
                assert(join(a, sep) + sep + y =~= (join(a, sep) + sep + x).push(s.last()));
                assert(s.drop_last().push(s.last()) =~= s);
            }
            assert forall|i: int| 0 <= i < all.len() implies !(#[trigger] all[i]).contains(c) by {
                if i < a.len() {
                    assert(all[i] == init[i]);
                } else {
                    assert(!init[init.len() - 1].contains(c));
                    if y.contains(c) {
                        let k = choose|k: int| 0 <= k < y.len() && y[k] == c;
                        assert(k < x.len() && x[k] == c);
                    }
                }
            }
        }
    } else {
        let all = split(s, c);
        assert(join(all, seq![c]) =~= s);
    }
}

/// The lines of a text are its pieces between line feeds, without the carriage
/// return that stands before a line feed, and without an empty piece at the end.
pub proof fn law_lines(s: Seq<char>)
    ensures
        forall|i: int| 0 <= i < lines(s).len() ==> !(#[trigger] lines(s)[i]).contains('\n'),
        !s.contains('\r') ==> join(lines(s), seq!['\n']) == (if s.len() > 0 && s.last() == '\n' {
            s.drop_last()
        } else {
            s
        }),
        s.len() > 0 ==> lines(s).len() > 0,
        lines(Seq::empty()).len() == 0,
{
    law_split(s, '\n');
    let parts = split(s, '\n');
    let ls = lines(s);
    let sep = seq!['\n'];
    assert forall|i: int| 0 <= i < ls.len() implies !(#[trigger] ls[i]).contains('\n') by {
        assert(!parts[i].contains('\n'));
        if ls[i].contains('\n') {
            let k = choose|k: int| 0 <= k < ls[i].len() && ls[i][k] == '\n';
            assert(parts[i][k] == '\n');
        }
    }
    if s.len() > 0 {
        if s.last() == '\n' {
            assert(parts.last().len() == 0);
            lemma_split_nonempty(s.drop_last(), '\n');
            assert(parts.drop_last() =~= split(s.drop_last(), '\n'));
        } else {
            assert(parts.last().last() == s.last());
        }
    }
    if !s.contains('\r') {
        assert forall|i: int| 0 <= i < parts.len() implies chomp(#[trigger] parts[i]) == parts[i] by {
            if parts[i].len() > 0 && parts[i].last() == '\r' {
                lemma_piece(s, '\n', i);
                let k = parts[i].len() - 1;
                assert(parts[i].contains(parts[i][k]));
            }
        }
        if s.len() > 0 && s.last() == '\n' {
            assert(ls =~= split(s.drop_last(), '\n'));
            law_split(s.drop_last(), '\n');
        } else if s.len() > 0 {
            assert(ls =~= parts);
        } else {
            assert(join(ls, sep) =~= s);
        }
    }
}

proof fn lemma_piece(s: Seq<char>, c: char, i: int)
    requires
        0 <= i < split(s, c).len(),
    ensures
        forall|x: char| split(s, c)[i].contains(x) ==> s.contains(x),
    decreases s.len(),
{
    if s.len() > 0 {
        let d = s.drop_last();
        let init = split(d, c);
        lemma_split_nonempty(d, c);
        assert forall|x: char| split(s, c)[i].contains(x) implies s.contains(x) by {
            let p = split(s, c)[i];
            let k = choose|k: int| 0 <= k < p.len() && p[k] == x;
            if s.last() == c {
                if i < init.len() {
                    lemma_piece(d, c, i);
                    assert(split(d, c)[i].contains(x));
                    assert(d.contains(x));
                    let m = choose|m: int| 0 <= m < d.len() && d[m] == x;
                    assert(s[m] == x);
                }
            } else if i < init.len() - 1 || k < p.len() - 1 {
                lemma_piece(d, c, i);
                assert(init[i][k] == x);
                assert(split(d, c)[i].contains(x));
                assert(d.contains(x));
                let m = choose|m: int| 0 <= m < d.len() && d[m] == x;
                assert(s[m] == x);
            } else {
                assert(s[s.len() - 1] == x);
            }
        }
    }
}

proof fn lemma_word_scan_add(a: Seq<char>, b: Seq<char>)
    requires
        b.len() > 0,
        white(b[0]),
    ensures
        words(a + b) == words(a) + words(b),
        word_scan(a + b).1 == word_scan(b).1,
        word_scan(a + b).0 == words(a) + word_scan(b).0,
    decreases b.len(),
{
    let s = a + b;
    assert(s.drop_last() =~= a + b.drop_last());
    assert(s.last() == b.last());
    if b.len() == 1 {
        assert(b.drop_last() =~= Seq::<char>::empty());
        assert(a + b.drop_last() =~= a);
        assert(word_scan(b.drop_last()) == (Seq::<Seq<char>>::empty(), Seq::<char>::empty()));
        assert(word_scan(b).0 =~= Seq::<Seq<char>>::empty());
        assert(word_scan(s).0 =~= words(a) + word_scan(b).0);
        assert(words(s) =~= words(a) + words(b));
        assert(word_scan(s).1 =~= word_scan(b).1);
    } else {
        lemma_word_scan_add(a, b.drop_last());
        assert(word_scan(s).0 =~= words(a) + word_scan(b).0);
        assert(words(s) =~= words(a) + words(b));
    }
}

proof fn lemma_one_word(w: Seq<char>)
    requires
        forall|i: int| 0 <= i < w.len() ==> !white(#[trigger] w[i]),
    ensures
        word_scan(w) == (Seq::<Seq<char>>::empty(), w),
    decreases w.len(),
{
    if w.len() > 0 {
        let d = w.drop_last();
        assert forall|i: int| 0 <= i < d.len() implies !white(#[trigger] d[i]) by {
            assert(d[i] == w[i]);
        }
        lemma_one_word(d);
        assert(!white(w[w.len() - 1]));
        assert(d.push(w.last()) =~= w);
    }
}

/// White space separates words and belongs to none; what it separates is taken
/// apart there and nowhere else.
pub proof fn law_words(w: Seq<char>, c: char, s: Seq<char>)
    requires
        forall|i: int| 0 <= i < w.len() ==> !white(#[trigger] w[i]),
        white(c),
    ensures
        words(Seq::empty()).len() == 0,
        w.len() > 0 ==> words(w) == seq![w],
        words(seq![c] + s) == words(s),
        w.len() > 0 ==> words(w + (seq![c] + s)) == seq![w] + words(s),
{
    lemma_one_word(w);
    assert(words(w) =~= if w.len() > 0 {
        seq![w]
    } else {
        Seq::empty()
    });
    let b = seq![c] + s;
    lemma_leading_blank(c, s);
    lemma_word_scan_add(w, b);
}

proof fn lemma_leading_blank(c: char, s: Seq<char>)
    requires
        white(c),
    ensures
        word_scan(seq![c] + s) == word_scan(s),
    decreases s.len(),
{
    let b = seq![c] + s;
    if s.len() == 0 {
        assert(b.drop_last() =~= Seq::<char>::empty());
        assert(b.last() == c);
        reveal_with_fuel(word_scan, 2);
    } else {
        assert(b.drop_last() =~= seq![c] + s.drop_last());
        lemma_leading_blank(c, s.drop_last());
    }
}

/// The end that is kept of a text is one of its ends, fits into the bytes
/// allowed, and would not with one more character.
pub proof fn law_clip_end(s: Seq<char>, n: int)
    requires
        0 <= n,
    ensures
        exists|i: int|
            {
                &&& 0 <= i <= s.len()
                &&& clip_end(s, n) == #[trigger] s.skip(i)
                &&& utf8_len(s.skip(i)) <= n
                &&& i > 0 ==> utf8_len(s.skip(i - 1)) > n
            },
    decreases s.len(),
{
    if s.len() == 0 || utf8_len(s) <= n {
        assert(s.skip(0) =~= s);
        assert(clip_end(s, n) == s.skip(0));
    } else {
        let rest = s.drop_first();
        law_clip_end(rest, n);
        let j = choose|j: int|
            {
                &&& 0 <= j <= rest.len()
                &&& clip_end(rest, n) == #[trigger] rest.skip(j)
                &&& utf8_len(rest.skip(j)) <= n
                &&& j > 0 ==> utf8_len(rest.skip(j - 1)) > n
            };
        assert(s.skip(j + 1) =~= rest.skip(j));
        if j > 0 {
            assert(s.skip(j) =~= rest.skip(j - 1));
        } else {
            assert(s.skip(0) =~= s);
        }
        assert(clip_end(s, n) == s.skip(j + 1));
    }
}

/// Replacing puts the new text where the old one stood first, and goes on behind
/// it; a text that does not hold the old one stays as it is.
pub proof fn law_replaced(a: Seq<char>, p: Seq<char>, b: Seq<char>, q: Seq<char>)
    requires
        p.len() > 0,
    ensures
        (forall|i: int|
            0 <= i < a.len() && i + p.len() <= (a + p + b).len() ==> #[trigger] (a + p
                + b).subrange(i, i + p.len()) != p) ==> replaced(a + p + b, p, q) == a + q
            + replaced(b, p, q) && occurrences(a + p + b, p) == 1 + occurrences(b, p),
        (forall|i: int|
            0 <= i && i + p.len() <= b.len() ==> #[trigger] b.subrange(i, i + p.len()) != p)
            ==> replaced(b, p, q) == b && occurrences(b, p) == 0,
{
    let s = a + p + b;
    assert(s.subrange(a.len() as int, (a.len() + p.len()) as int) =~= p);
    assert(at(s, p, a.len() as int));
    lemma_first_at(s, p, 0);
    let f = first_at(s, p, 0)->0;
    assert(s.subrange(f, f + p.len()) == p);
    assert(s.take(a.len() as int) =~= a);
    assert(s.skip((a.len() + p.len()) as int) =~= b);
    lemma_first_at(b, p, 0);
    if first_at(b, p, 0) is Some {
        let g = first_at(b, p, 0)->0;
        assert(b.subrange(g, g + p.len()) == p);
    }
}

/// What is written of a number can be read again, and says the same.
pub proof fn law_numbers_are_read_back(n: nat, max: nat)
    ensures
        all_digits(decimal(n)),
        n <= max ==> parsed(decimal(n), max) == Some(n),
        n > max ==> parsed(decimal(n), max) is None,
        n > 0 ==> decimal_int(-(n as int)) == seq!['-'] + decimal(n),
        decimal_int(n as int) == decimal(n),
        n > 0 ==> decimal(n)[0] != '0',
    decreases n,
{
    law_decimal(n);
    if n >= 10 {
        law_numbers_are_read_back(n / 10, max);
        let d = digit((n % 10) as int);
        let r = decimal(n / 10);
        assert forall|i: int| 0 <= i < decimal(n).len() implies is_digit(#[trigger] decimal(n)[i]) by {
            if i < r.len() {
                assert(decimal(n)[i] == r[i]);
            }
        }
    }
    assert(is_digit(decimal(n)[0]));
}

/// The bytes of a stretch of a text are that stretch.
pub proof fn law_byte_slice(a: Seq<char>, b: Seq<char>, c: Seq<char>)
    ensures
        byte_slice(a + b + c, utf8_len(a) as int, (utf8_len(a) + utf8_len(b)) as int) == Some(b),
        byte_slice(a, utf8_len(a) as int, (utf8_len(a) + 1) as int) is None,
{
    let s = a + b + c;
    let ab = a + b;
    lemma_utf8_len_add(a, b);
    lemma_utf8_len_add(ab, c);
    lemma_utf8_len_bounds(b);
    assert(s.take(a.len() as int) =~= a);
    assert(s.take(ab.len() as int) =~= ab);
    lemma_index_of_take(s, a.len() as int);
    lemma_index_of_take(s, ab.len() as int);
    if b.len() == 0 {
        assert(b =~= Seq::<char>::empty());
    } else {
        assert(s.subrange(a.len() as int, ab.len() as int) =~= b);
    }
}

/// A text without a prefix is the rest behind it, and there is one exactly when
/// the text begins with the prefix; the same holds of a suffix.
pub proof fn law_affixes(p: Seq<char>, r: Seq<char>, s: Seq<char>)
    ensures
        without_prefix(p + r, p) == Some(r),
        without_suffix(r + p, p) == Some(r),
        without_prefix(s, p) matches Some(x) ==> s == p + x,
        without_suffix(s, p) matches Some(x) ==> s == x + p,
        starts(p + r, p),
        ends(r + p, p),
        has(r + p + s, p),
{
    assert((p + r).subrange(0, p.len() as int) =~= p);
    assert((p + r).skip(p.len() as int) =~= r);
    let t = r + p;
    assert(t.subrange(t.len() - p.len(), t.len() as int) =~= p);
    assert(t.take(t.len() - p.len()) =~= r);
    if without_prefix(s, p) is Some {
        assert(s =~= s.subrange(0, p.len() as int) + s.skip(p.len() as int));
    }
    if without_suffix(s, p) is Some {
        assert(s =~= s.take(s.len() - p.len()) + s.subrange(s.len() - p.len(), s.len() as int));
    }
    let u = r + p + s;
    assert(u.subrange(r.len() as int, r.len() + p.len() as int) =~= p);
    assert(at(u, p, r.len() as int));
}

/// Lower case changes the letters from `A` to `Z` alone, each into its small
/// one.
pub proof fn law_ascii_lower(s: Seq<char>, i: int)
    requires
        0 <= i < s.len(),
    ensures
        ascii_lower(s).len() == s.len(),
        'A' <= s[i] && s[i] <= 'Z' ==> ascii_lower(s)[i] as u32 == s[i] as u32 + ('a' as u32 - 'A' as u32),
        !('A' <= s[i] && s[i] <= 'Z') ==> ascii_lower(s)[i] == s[i],
{
}

/// The first characters of a text are as many as are asked for, or all of them.
pub proof fn law_head(s: Seq<char>, n: int)
    requires
        0 <= n,
    ensures
        head(s, n).is_prefix_of(s),
        n <= s.len() ==> head(s, n).len() == n,
        n > s.len() ==> head(s, n) == s,
{
}

/// What stands behind the last one of a text is all that comes after it, and
/// holds no other one.
pub proof fn law_behind_last(a: Seq<char>, p: Seq<char>, b: Seq<char>)
    requires
        p.len() > 0,
        forall|i: int|
            a.len() < i && i + p.len() <= (a + p + b).len() ==> #[trigger] (a + p + b).subrange(
                i,
                i + p.len(),
            ) != p,
    ensures
        behind_last(a + p + b, p) == b,
{
    let s = a + p + b;
    assert(s.subrange(a.len() as int, a.len() + p.len() as int) =~= p);
    assert(at(s, p, a.len() as int));
    lemma_last_at(s, p, s.len() as int);
    let k = last_at(s, p, s.len() as int)->0;
    assert(s.subrange(k, k + p.len()) == p);
    assert(s.skip(a.len() + p.len() as int) =~= b);
}

/// A separator takes a text apart: the pieces before it, then those behind it. A
/// text without one is its only piece.
pub proof fn law_split_at(a: Seq<char>, c: char, b: Seq<char>)
    ensures
        split(a.push(c) + b, c) == split(a, c) + split(b, c),
        !a.contains(c) ==> split(a, c) == seq![a],
    decreases b.len(), a.len(),
{
    let s = a.push(c) + b;
    if b.len() == 0 {
        assert(s =~= a.push(c));
        assert(s.drop_last() =~= a);
        assert(split(s, c) =~= split(a, c) + split(b, c));
    } else {
        let d = b.drop_last();
        law_split_at(a, c, d);
        assert(s.drop_last() =~= a.push(c) + d);
        lemma_split_nonempty(d, c);
        assert(split(s, c) =~= split(a, c) + split(b, c));
    }
    if !a.contains(c) {
        lemma_unsplit(a, c);
    }
}

proof fn lemma_unsplit(a: Seq<char>, c: char)
    requires
        !a.contains(c),
    ensures
        split(a, c) == seq![a],
    decreases a.len(),
{
    if a.len() > 0 {
        let d = a.drop_last();
        if d.contains(c) {
            let k = choose|k: int| 0 <= k < d.len() && d[k] == c;
            assert(a[k] == c);
        }
        assert(a.contains(a[a.len() - 1]));
        lemma_unsplit(d, c);
        assert(d.push(a.last()) =~= a);
        assert(split(a, c) =~= seq![a]);
    } else {
        assert(a =~= Seq::<char>::empty());
    }
}

/// Each part of a joined text stands in it.
pub proof fn lemma_joined_part(parts: Seq<Seq<char>>, sep: Seq<char>, i: int)
    requires
        0 <= i < parts.len(),
    ensures
        has(join(parts, sep), parts[i]),
    decreases parts.len(),
{
    let s = join(parts, sep);
    let x = parts[i];
    if parts.len() == 1 {
        assert(s.subrange(0, x.len() as int) =~= x);
        assert(at(s, x, 0));
    } else if i == parts.len() - 1 {
        let k = s.len() - x.len();
        assert(s.subrange(k, k + x.len()) =~= x);
        assert(at(s, x, k));
    } else {
        let d = parts.drop_last();
        lemma_joined_part(d, sep, i);
        let t = join(d, sep);
        let k = choose|k: int| at(t, d[i], k);
        assert(s.subrange(k, k + x.len()) =~= t.subrange(k, k + x.len()));
        assert(at(s, x, k));
    }
}

/// What stands in a part of a text stands in the text.
pub proof fn lemma_has_within(s: Seq<char>, a: Seq<char>, t: Seq<char>, b: Seq<char>, x: Seq<char>)
    requires
        s == a + t + b,
        has(t, x),
    ensures
        has(s, x),
{
    let k = choose|k: int| at(t, x, k);
    assert(s.subrange(a.len() + k, a.len() + k + x.len()) =~= t.subrange(k, k + x.len()));
    assert(at(s, x, a.len() + k));
}

/// Taking out empty texts leaves the others in their order, and the first so
/// many of some are a beginning of them.
pub proof fn law_filled(v: Seq<Seq<char>>, n: int)
    requires
        0 <= n,
    ensures
        filled(v) == v.filter(|s: Seq<char>| s.len() > 0),
        n <= v.len() ==> leading(v, n) == v.take(n),
        n > v.len() ==> leading(v, n) == v,
    decreases v.len(),
{
    reveal(Seq::filter);
    if v.len() > 0 {
        law_filled(v.drop_last(), 0);
    } else {
        assert(filled(v) =~= v.filter(|s: Seq<char>| s.len() > 0));
    }
    if n == v.len() {
        assert(v.take(n) =~= v);
    }
}

/// Characters of a set are taken off an end until one of another kind stands
/// there.
pub proof fn law_stripped(s: Seq<char>, set: Seq<char>, c: char)
    ensures
        stripped_end(s, set).is_prefix_of(s),
        stripped_end(s, set).len() > 0 ==> !set.contains(stripped_end(s, set).last()),
        forall|i: int|
            stripped_end(s, set).len() <= i < s.len() ==> set.contains(#[trigger] s[i]),
        set.contains(c) ==> stripped_end(s.push(c), set) == stripped_end(s, set),
        !set.contains(c) ==> stripped_end(s.push(c), set) == s.push(c),
    decreases s.len(),
{
    assert(s.push(c).drop_last() =~= s);
    if s.len() > 0 && set.contains(s.last()) {
        let d = s.drop_last();
        law_stripped(d, set, c);
        assert forall|i: int| stripped_end(s, set).len() <= i < s.len() implies set.contains(
            #[trigger] s[i],
        ) by {
            if i < d.len() {
                assert(d[i] == s[i]);
            }
        }
    }
}

/// Text is filled up with blanks before or behind it, and is never cut.
pub proof fn law_aligned(s: Seq<char>, n: int, i: int)
    ensures
        ends(right_aligned(s, n), s),
        starts(left_aligned(s, n), s),
        s.len() <= n ==> right_aligned(s, n).len() == n && left_aligned(s, n).len() == n,
        s.len() > n ==> right_aligned(s, n) == s && left_aligned(s, n) == s,
        0 <= i < n - s.len() ==> right_aligned(s, n)[i] == ' ' && left_aligned(s, n)[s.len() + i]
            == ' ',
{
    law_affixes(s, blanks(n - s.len()), Seq::empty());
    if s.len() > n {
        assert(right_aligned(s, n) =~= s);
        assert(left_aligned(s, n) =~= s);
    }
}

} // verus!
