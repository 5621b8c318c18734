use vstd::prelude::*;
use vstd::utf8::*;

verus! {

// ───────────────────────── conversions between text forms ─────────────────────────

/// The characters of a string slice, in order.
pub fn chars_of(s: &str) -> (r: Vec<char>)
    ensures
        r@ == s@,
{
    let mut out: Vec<char> = Vec::new();
    for c in it: s.chars()
        invariant
            out@ == it.seq().take(it.index() as int),
            it.seq() == s@,
    {
        out.push(c);
    }
    out
}

/// A `String` made of the given characters (std `FromIterator<&char>` for `String`).
#[verifier::external_body]
pub(crate) fn string_of(v: &[char]) -> (r: String)
    ensures
        r@ == v@,
{
    v.iter().collect()
}

/// The UTF-8 bytes of a string slice.
pub fn bytes_of(s: &str) -> (r: Vec<u8>)
    ensures
        r@ == encode_utf8(s@),
{
    let b = s.as_bytes();
    let mut out: Vec<u8> = Vec::new();
    let mut i: usize = 0;
    while i < b.len()
        invariant
            i <= b@.len(),
            b@ == encode_utf8(s@),
            out@ == b@.take(i as int),
        decreases b@.len() - i,
    {
        out.push(b[i]);
        i = i + 1;
    }
    assert(out@ == b@);
    out
}

/// What `String::from_utf8_lossy` gives for these bytes.
pub uninterp spec fn utf8_lossy_of(bytes: Seq<u8>) -> Seq<char>;

/// Calls std's `String::from_utf8_lossy`. Its documentation promises that valid
/// UTF-8 comes back unchanged; that is the one fact stated beside the name.
#[verifier::external_body]
pub(crate) fn from_utf8_lossy(bytes: &[u8]) -> (r: String)
    ensures
        r@ == utf8_lossy_of(bytes@),
        valid_utf8(bytes@) ==> r@ == decode_utf8(bytes@),
{
    String::from_utf8_lossy(bytes).into_owned()
}

/// What std's `str::to_lowercase` gives (full Unicode lower-casing).
pub uninterp spec fn lowercase_of(s: Seq<char>) -> Seq<char>;

/// Calls std's `str::to_lowercase`; the result is named. For ASCII text the
/// documentation fixes it: `A`..`Z` become `a`..`z`, every other character
/// stays as it is.
#[verifier::external_body]
pub(crate) fn to_lowercase(s: &str) -> (r: String)
    ensures
        r@ == lowercase_of(s@),
        (forall|i: int| 0 <= i < s@.len() ==> (#[trigger] s@[i] as u32) < 128) ==> r@ == lower_seq(s@),
{
    s.to_lowercase()
}

/// The Unicode White_Space property, which std's `char::is_whitespace`
/// answers: tab to carriage return, space, next line, no-break space, ogham
/// space mark, the spaces from en quad to hair space, line and paragraph
/// separators, narrow no-break space, medium mathematical space and the
/// ideographic space.
pub open spec fn unicode_whitespace(c: char) -> bool {
    let u = c as u32;
    ||| 0x9 <= u <= 0xd
    ||| u == 0x20
    ||| u == 0x85
    ||| u == 0xa0
    ||| u == 0x1680
    ||| 0x2000 <= u <= 0x200a
    ||| u == 0x2028
    ||| u == 0x2029
    ||| u == 0x202f
    ||| u == 0x205f
    ||| u == 0x3000
}

/// Whether `c` is white space, as std's `char::is_whitespace` answers.
pub(crate) fn is_whitespace(c: char) -> (r: bool)
    ensures
        r == unicode_whitespace(c),
        (c as u32) < 128 ==> (r <==> is_ascii_ws(c)),
{
    let u = c as u32;
    (0x9 <= u && u <= 0xd) || u == 0x20 || u == 0x85 || u == 0xa0 || u == 0x1680 || (0x2000 <= u && u <= 0x200a)
        || u == 0x2028 || u == 0x2029 || u == 0x202f || u == 0x205f || u == 0x3000
}

pub open spec fn is_ascii_ws(c: char) -> bool {
    c == ' ' || c == '\t' || c == '\n' || c == '\x0b' || c == '\x0c' || c == '\r'
}

// ───────────────────────── character classes ─────────────────────────

pub open spec fn is_digit(c: char) -> bool {
    '0' <= c <= '9'
}

pub open spec fn is_alpha(c: char) -> bool {
    ('a' <= c <= 'z') || ('A' <= c <= 'Z')
}

pub open spec fn is_alnum(c: char) -> bool {
    is_alpha(c) || is_digit(c)
}

pub open spec fn ascii_lower(c: char) -> char {
    if 'A' <= c <= 'Z' {
        ((c as u32) + 32) as char
    } else {
        c
    }
}

pub fn to_ascii_lower_char(c: char) -> (r: char)
    ensures
        r == ascii_lower(c),
{
    if 'A' <= c && c <= 'Z' {
        ((c as u8) + 32) as char
    } else {
        c
    }
}

pub open spec fn all_digits(s: Seq<char>) -> bool {
    forall|i: int| 0 <= i < s.len() ==> is_digit(#[trigger] s[i])
}

pub open spec fn lower_seq(s: Seq<char>) -> Seq<char> {
    Seq::new(s.len(), |i: int| ascii_lower(s[i]))
}

/// ASCII lower-casing of every character (std's `to_ascii_lowercase`).
pub fn ascii_lowercase(s: &[char]) -> (r: Vec<char>)
    ensures
        r@ == lower_seq(s@),
{
    let mut out: Vec<char> = Vec::new();
    let mut i: usize = 0;
    while i < s.len()
        invariant
            i <= s@.len(),
            out@ == lower_seq(s@.take(i as int)),
        decreases s@.len() - i,
    {
        out.push(to_ascii_lower_char(s[i]));
        i = i + 1;
        assert(out@ =~= lower_seq(s@.take(i as int)));
    }
    assert(s@.take(s@.len() as int) =~= s@);
    out
}

// ───────────────────────── sequence predicates ─────────────────────────

pub open spec fn starts_with<T>(s: Seq<T>, p: Seq<T>) -> bool {
    p.len() <= s.len() && s.subrange(0, p.len() as int) == p
}

pub open spec fn ends_with<T>(s: Seq<T>, p: Seq<T>) -> bool {
    p.len() <= s.len() && s.subrange(s.len() - p.len(), s.len() as int) == p
}

pub open spec fn occurs_at<T>(s: Seq<T>, p: Seq<T>, i: int) -> bool {
    0 <= i && i + p.len() <= s.len() && s.subrange(i, i + p.len()) == p
}

pub open spec fn contains_seq<T>(s: Seq<T>, p: Seq<T>) -> bool {
    exists|i: int| occurs_at(s, p, i)
}

/// The first index at which `p` occurs in `s`, if any.
pub open spec fn first_index<T>(s: Seq<T>, p: Seq<T>) -> Option<int> {
    if exists|i: int| occurs_at(s, p, i) {
        Some(choose|i: int| occurs_at(s, p, i) && forall|j: int| 0 <= j < i ==> !occurs_at(s, p, j))
    } else {
        None
    }
}

/// The last index at which `p` occurs in `s`, if any.
pub open spec fn last_index<T>(s: Seq<T>, p: Seq<T>) -> Option<int> {
    if exists|i: int| occurs_at(s, p, i) {
        Some(choose|i: int| occurs_at(s, p, i) && forall|j: int| i < j ==> !occurs_at(s, p, j))
    } else {
        None
    }
}

pub proof fn lemma_first_index<T>(s: Seq<T>, p: Seq<T>, i: int)
    requires
        occurs_at(s, p, i),
        forall|j: int| 0 <= j < i ==> !occurs_at(s, p, j),
    ensures
        first_index(s, p) == Some(i),
{
    let k = choose|k: int| occurs_at(s, p, k) && forall|j: int| 0 <= j < k ==> !occurs_at(s, p, j);
    assert(occurs_at(s, p, k) && forall|j: int| 0 <= j < k ==> !occurs_at(s, p, j));
    if k < i {
        assert(!occurs_at(s, p, k));
    }
    if i < k {
        assert(!occurs_at(s, p, i));
    }
}

pub proof fn lemma_first_index_occurs<T>(s: Seq<T>, p: Seq<T>)
    ensures
        first_index(s, p) matches Some(i) ==> occurs_at(s, p, i) && forall|j: int| 0 <= j < i ==> !occurs_at(s, p, j),
        first_index(s, p) is None ==> forall|j: int| !occurs_at(s, p, j),
{
    if exists|i: int| occurs_at(s, p, i) {
        let w = choose|i: int| occurs_at(s, p, i);
        lemma_min_occurrence(s, p, w);
    }
}

proof fn lemma_min_occurrence<T>(s: Seq<T>, p: Seq<T>, w: int)
    requires
        occurs_at(s, p, w),
    ensures
        exists|i: int| occurs_at(s, p, i) && forall|j: int| 0 <= j < i ==> !occurs_at(s, p, j),
    decreases w,
{
    if exists|j: int| 0 <= j < w && occurs_at(s, p, j) {
        let j = choose|j: int| 0 <= j < w && occurs_at(s, p, j);
        lemma_min_occurrence(s, p, j);
    } else {
        assert(occurs_at(s, p, w) && forall|j: int| 0 <= j < w ==> !occurs_at(s, p, j));
    }
}

pub proof fn lemma_last_index_occurs<T>(s: Seq<T>, p: Seq<T>)
    ensures
        last_index(s, p) matches Some(i) ==> occurs_at(s, p, i) && forall|j: int| i < j ==> !occurs_at(s, p, j),
        last_index(s, p) is None ==> forall|j: int| !occurs_at(s, p, j),
{
    if exists|i: int| occurs_at(s, p, i) {
        let w = choose|i: int| occurs_at(s, p, i);
        lemma_max_occurrence(s, p, w);
    }
}

proof fn lemma_max_occurrence<T>(s: Seq<T>, p: Seq<T>, w: int)
    requires
        occurs_at(s, p, w),
    ensures
        exists|i: int| occurs_at(s, p, i) && forall|j: int| i < j ==> !occurs_at(s, p, j),
    decreases s.len() - w,
{
    if exists|j: int| w < j && occurs_at(s, p, j) {
        let j = choose|j: int| w < j && occurs_at(s, p, j);
        lemma_max_occurrence(s, p, j);
    } else {
        assert(occurs_at(s, p, w) && forall|j: int| w < j ==> !occurs_at(s, p, j));
    }
}

pub proof fn lemma_last_index<T>(s: Seq<T>, p: Seq<T>, i: int)
    requires
        occurs_at(s, p, i),
        forall|j: int| i < j ==> !occurs_at(s, p, j),
    ensures
        last_index(s, p) == Some(i),
{
    let k = choose|k: int| occurs_at(s, p, k) && forall|j: int| k < j ==> !occurs_at(s, p, j);
    assert(occurs_at(s, p, k) && forall|j: int| k < j ==> !occurs_at(s, p, j));
    if k < i {
        assert(!occurs_at(s, p, i));
    }
    if i < k {
        assert(!occurs_at(s, p, k));
    }
}

/// Does `p` occur in `s` at index `i`?
pub fn chars_at(s: &[char], p: &[char], i: usize) -> (r: bool)
    ensures
        r == occurs_at(s@, p@, i as int),
{
    if i > s.len() || p.len() > s.len() - i {
        return false;
    }
    let mut k: usize = 0;
    while k < p.len()
        invariant
            i + p@.len() <= s@.len(),
            s@.len() == s.len(),
            k <= p@.len(),
            forall|m: int| 0 <= m < k ==> s@[i + m] == p@[m],
        decreases p@.len() - k,
    {
        assert(i + k < s@.len());
        if s[i + k] != p[k] {
            assert(s@.subrange(i as int, i + p@.len())[k as int] != p@[k as int]);
            return false;
        }
        k = k + 1;
    }
    assert(s@.subrange(i as int, i + p@.len()) =~= p@);
    true
}

/// First occurrence of `p` in `s` at or after `from`.
pub fn find_chars_from(s: &[char], p: &[char], from: usize) -> (r: Option<usize>)
    ensures
        match r {
            Some(i) => from <= i && occurs_at(s@, p@, i as int) && forall|j: int|
                from <= j < i ==> !occurs_at(s@, p@, j),
            None => forall|j: int| from <= j ==> !occurs_at(s@, p@, j),
        },
{
    let mut i: usize = from;
    if from > s.len() {
        return None;
    }
    while i < s.len()
        invariant
            from <= i <= s@.len(),
            forall|j: int| from <= j < i ==> !occurs_at(s@, p@, j),
        decreases s@.len() - i,
    {
        if chars_at(s, p, i) {
            return Some(i);
        }
        i = i + 1;
    }
    if chars_at(s, p, i) {
        return Some(i);
    }
    assert forall|j: int| from <= j implies !occurs_at(s@, p@, j) by {
        if j > s@.len() {
        }
    }
    None
}

/// First occurrence of `p` in `s`.
pub fn find_chars(s: &[char], p: &[char]) -> (r: Option<usize>)
    ensures
        match r {
            Some(i) => first_index(s@, p@) == Some(i as int),
            None => first_index(s@, p@) is None,
        },
{
    let r = find_chars_from(s, p, 0);
    proof {
        if let Some(i) = r {
            lemma_first_index(s@, p@, i as int);
        }
    }
    r
}

pub fn starts_with_chars(s: &[char], p: &[char]) -> (r: bool)
    ensures
        r == starts_with(s@, p@),
{
    chars_at(s, p, 0)
}

pub fn ends_with_chars(s: &[char], p: &[char]) -> (r: bool)
    ensures
        r == ends_with(s@, p@),
{
    if p.len() > s.len() {
        return false;
    }
    chars_at(s, p, s.len() - p.len())
}

pub fn chars_equal(a: &[char], b: &[char]) -> (r: bool)
    ensures
        r == (a@ == b@),
{
    if a.len() != b.len() {
        return false;
    }
    let r = chars_at(a, b, 0);
    assert(a@ =~= a@.subrange(0, b@.len() as int));
    r
}

/// Copies `s[lo..hi]`.
pub fn slice_chars(s: &[char], lo: usize, hi: usize) -> (r: Vec<char>)
    requires
        lo <= hi <= s@.len(),
    ensures
        r@ == s@.subrange(lo as int, hi as int),
{
    let mut out: Vec<char> = Vec::new();
    let mut i: usize = lo;
    while i < hi
        invariant
            lo <= i <= hi,
            hi <= s@.len(),
            out@ == s@.subrange(lo as int, i as int),
        decreases hi - i,
    {
        out.push(s[i]);
        i = i + 1;
        assert(out@ =~= s@.subrange(lo as int, i as int));
    }
    out
}

/// Appends all of `p` to `out`.
pub fn push_chars(out: &mut Vec<char>, p: &[char])
    ensures
        final(out)@ == old(out)@ + p@,
{
    let mut i: usize = 0;
    while i < p.len()
        invariant
            i <= p@.len(),
            out@ == old(out)@ + p@.take(i as int),
        decreases p@.len() - i,
    {
        out.push(p[i]);
        i = i + 1;
        assert(out@ =~= old(out)@ + p@.take(i as int));
    }
    assert(p@.take(p@.len() as int) =~= p@);
}

/// Appends all characters of `s` to `out`.
pub fn push_str(out: &mut Vec<char>, s: &str)
    ensures
        final(out)@ == old(out)@ + s@,
{
    let c = chars_of(s);
    push_chars(out, c.as_slice());
}

// ───────────────────────── trimming ─────────────────────────

pub open spec fn ws_prefix_len(s: Seq<char>) -> nat
    decreases s.len(),
{
    if s.len() > 0 && unicode_whitespace(s[0]) {
        1 + ws_prefix_len(s.drop_first())
    } else {
        0
    }
}

pub open spec fn ws_suffix_len(s: Seq<char>) -> nat
    decreases s.len(),
{
    if s.len() > 0 && unicode_whitespace(s.last()) {
        1 + ws_suffix_len(s.drop_last())
    } else {
        0
    }
}

/// std's `str::trim_start`: leading whitespace removed.
pub open spec fn trim_start(s: Seq<char>) -> Seq<char> {
    s.subrange(ws_prefix_len(s) as int, s.len() as int)
}

/// std's `str::trim_end`: trailing whitespace removed.
pub open spec fn trim_end(s: Seq<char>) -> Seq<char> {
    s.subrange(0, s.len() - ws_suffix_len(s))
}

/// std's `str::trim`.
pub open spec fn trim(s: Seq<char>) -> Seq<char> {
    trim_end(trim_start(s))
}

pub proof fn lemma_ws_prefix_len_bound(s: Seq<char>)
    ensures
        ws_prefix_len(s) <= s.len(),
    decreases s.len(),
{
    if s.len() > 0 && unicode_whitespace(s[0]) {
        lemma_ws_prefix_len_bound(s.drop_first());
    }
}

pub proof fn lemma_ws_suffix_len_bound(s: Seq<char>)
    ensures
        ws_suffix_len(s) <= s.len(),
    decreases s.len(),
{
    if s.len() > 0 && unicode_whitespace(s.last()) {
        lemma_ws_suffix_len_bound(s.drop_last());
    }
}

pub fn trim_start_chars(s: &[char]) -> (r: Vec<char>)
    ensures
        r@ == trim_start(s@),
{
    let mut i: usize = 0;
    assert(s@.subrange(0, s@.len() as int) =~= s@);
    while i < s.len() && is_whitespace(s[i])
        invariant
            i <= s@.len(),
            ws_prefix_len(s@) == i + ws_prefix_len(s@.subrange(i as int, s@.len() as int)),
        decreases s@.len() - i,
    {
        assert(s@.subrange(i as int, s@.len() as int).drop_first() =~= s@.subrange(i + 1, s@.len() as int));
        i = i + 1;
    }
    proof {
        lemma_ws_prefix_len_bound(s@);
        assert(ws_prefix_len(s@.subrange(i as int, s@.len() as int)) == 0);
    }
    slice_chars(s, i, s.len())
}

pub fn trim_end_chars(s: &[char]) -> (r: Vec<char>)
    ensures
        r@ == trim_end(s@),
{
    let mut j: usize = s.len();
    assert(s@.subrange(0, s@.len() as int) =~= s@);
    while j > 0 && is_whitespace(s[j - 1])
        invariant
            j <= s@.len(),
            ws_suffix_len(s@) == (s@.len() - j) + ws_suffix_len(s@.subrange(0, j as int)),
        decreases j,
    {
        assert(s@.subrange(0, j as int).drop_last() =~= s@.subrange(0, j - 1));
        j = j - 1;
    }
    proof {
        lemma_ws_suffix_len_bound(s@);
        assert(ws_suffix_len(s@.subrange(0, j as int)) == 0);
    }
    slice_chars(s, 0, j)
}

pub fn trim_chars(s: &[char]) -> (r: Vec<char>)
    ensures
        r@ == trim(s@),
{
    let a = trim_start_chars(s);
    trim_end_chars(a.as_slice())
}

/// std's `str::trim` on a string slice, as characters.
pub fn trim_str(s: &str) -> (r: Vec<char>)
    ensures
        r@ == trim(s@),
{
    let c = chars_of(s);
    trim_chars(c.as_slice())
}


// ───────────────────────── string helpers ─────────────────────────

/// `s.starts_with(p)`.
pub fn str_starts_with(s: &str, p: &str) -> (r: bool)
    ensures
        r == starts_with(s@, p@),
{
    let sc = chars_of(s);
    let pc = chars_of(p);
    starts_with_chars(sc.as_slice(), pc.as_slice())
}

/// `s.contains(p)`.
pub fn str_contains(s: &str, p: &str) -> (r: bool)
    ensures
        r == contains_seq(s@, p@),
{
    let sc = chars_of(s);
    let pc = chars_of(p);
    find_chars(sc.as_slice(), pc.as_slice()).is_some()
}

/// `a` followed by `b`.
pub fn concat(a: &str, b: &str) -> (r: String)
    ensures
        r@ == a@ + b@,
{
    let mut out: Vec<char> = Vec::new();
    push_str(&mut out, a);
    push_str(&mut out, b);
    string_of(out.as_slice())
}

/// The first `n` characters of `s` (all of them when it is shorter):
/// `s.chars().take(n).collect()`.
pub open spec fn take_chars(s: Seq<char>, n: nat) -> Seq<char> {
    if s.len() <= n {
        s
    } else {
        s.take(n as int)
    }
}

pub fn first_chars(s: &str, n: usize) -> (r: String)
    ensures
        r@ == take_chars(s@, n as nat),
{
    let c = chars_of(s);
    if c.len() <= n {
        string_of(c.as_slice())
    } else {
        let t = slice_chars(c.as_slice(), 0, n);
        string_of(t.as_slice())
    }
}


/// std's `str::trim`, as a `String`.
pub fn trimmed(s: &str) -> (r: String)
    ensures
        r@ == trim(s@),
{
    let t = trim_str(s);
    string_of(t.as_slice())
}

/// `s` without the trailing run of `c` (`trim_end_matches(c)`).
pub open spec fn strip_trailing(s: Seq<char>, c: char) -> Seq<char>
    decreases s.len(),
{
    if s.len() > 0 && s.last() == c {
        strip_trailing(s.drop_last(), c)
    } else {
        s
    }
}

pub fn strip_trailing_chars(s: &[char], c: char) -> (r: Vec<char>)
    ensures
        r@ == strip_trailing(s@, c),
{
    let mut n = s.len();
    assert(s@.take(n as int) =~= s@);
    while n > 0 && s[n - 1] == c
        invariant
            n <= s@.len(),
            strip_trailing(s@.take(n as int), c) == strip_trailing(s@, c),
        decreases n,
    {
        assert(s@.take(n as int).drop_last() =~= s@.take(n - 1));
        n = n - 1;
    }
    assert(s@.take(n as int).take(n as int) =~= s@.take(n as int));
    slice_chars(s, 0, n)
}

/// Every non-overlapping occurrence of `pat`, from the left, replaced by `rep`
/// (std's `str::replace`, for a non-empty pattern).
#[verifier::opaque]
pub open spec fn replace_all(s: Seq<char>, pat: Seq<char>, rep: Seq<char>) -> Seq<char>
    recommends
        pat.len() > 0,
    decreases s.len(),
{
    if pat.len() == 0 {
        s
    } else {
        match first_index(s, pat) {
            Some(i) => if 0 <= i && i + pat.len() <= s.len() {
                s.take(i) + rep + replace_all(s.skip(i + pat.len()), pat, rep)
            } else {
                s
            },
            None => s,
        }
    }
}

#[verifier::rlimit(30)]
proof fn lemma_replace_step(s: Seq<char>, pat: Seq<char>, rep: Seq<char>, i: int)
    requires
        pat.len() > 0,
        first_index(s, pat) == Some(i),
        occurs_at(s, pat, i),
    ensures
        replace_all(s, pat, rep) == s.take(i) + rep + replace_all(s.skip(i + pat.len()), pat, rep),
{
    assert(0 <= i && i + pat.len() <= s.len());
    reveal(replace_all);
}

proof fn lemma_replace_none(s: Seq<char>, pat: Seq<char>, rep: Seq<char>)
    requires
        pat.len() > 0,
        first_index(s, pat) is None,
    ensures
        replace_all(s, pat, rep) == s,
{
    reveal(replace_all);
}

pub fn replace_chars(s: &[char], pat: &[char], rep: &[char]) -> (r: Vec<char>)
    requires
        pat@.len() > 0,
    ensures
        r@ == replace_all(s@, pat@, rep@),
{
    let mut out: Vec<char> = Vec::new();
    let mut rest: Vec<char> = slice_chars(s, 0, s.len());
    assert(rest@ =~= s@);
    while rest.len() > 0
        invariant
            pat@.len() > 0,
            out@ + replace_all(rest@, pat@, rep@) == replace_all(s@, pat@, rep@),
        decreases rest@.len(),
    {
        proof {
            lemma_first_index_occurs(rest@, pat@);
        }
        match find_chars(rest.as_slice(), pat) {
            Some(i) => {
                let n = rest.len();
                let before = slice_chars(rest.as_slice(), 0, i);
                let after = slice_chars(rest.as_slice(), i + pat.len(), n);
                let ghost old_out = out@;
                push_chars(&mut out, before.as_slice());
                push_chars(&mut out, rep);
                assert(before@ =~= rest@.take(i as int));
                assert(after@ =~= rest@.skip(i + pat@.len()));
                proof {
                    lemma_replace_step(rest@, pat@, rep@, i as int);
                    assert(out@ + replace_all(after@, pat@, rep@) =~= old_out + replace_all(rest@, pat@, rep@));
                }
                rest = after;
            },
            None => {
                proof {
                    lemma_replace_none(rest@, pat@, rep@);
                    lemma_replace_none(Seq::<char>::empty(), pat@, rep@);
                    crate::text::lemma_first_index_occurs(Seq::<char>::empty(), pat@);
                }
                push_chars(&mut out, rest.as_slice());
                assert(out@ + replace_all(Seq::<char>::empty(), pat@, rep@) =~= replace_all(s@, pat@, rep@));
                rest = Vec::new();
            },
        }
    }
    proof {
        lemma_first_index_occurs(rest@, pat@);
        lemma_replace_none(rest@, pat@, rep@);
    }
    assert(out@ =~= replace_all(s@, pat@, rep@));
    out
}

/// The words of `s` (std's `str::split_whitespace`): maximal runs of
/// characters that are not whitespace, in order.
pub open spec fn words(s: Seq<char>) -> Seq<Seq<char>>
    decreases s.len(),
{
    if s.len() == 0 {
        seq![]
    } else {
        let p = s.drop_last();
        let c = s.last();
        let w = words(p);
        if unicode_whitespace(c) {
            w
        } else if p.len() > 0 && !unicode_whitespace(p.last()) && w.len() > 0 {
            w.update(w.len() - 1, w.last().push(c))
        } else {
            w.push(seq![c])
        }
    }
}

pub open spec fn string_seqs(v: Seq<String>) -> Seq<Seq<char>> {
    v.map_values(|x: String| x@)
}

/// std's `str::split_whitespace`, collected.
pub fn split_words(s: &str) -> (r: Vec<String>)
    ensures
        string_seqs(r@) == words(s@),
{
    let c = chars_of(s);
    let mut out: Vec<Vec<char>> = Vec::new();
    let mut i: usize = 0;
    while i < c.len()
        invariant
            i <= c@.len(),
            c@ == s@,
            out@.map_values(|v: Vec<char>| v@) == words(c@.take(i as int)),
        decreases c@.len() - i,
    {
        let ch = c[i];
        let ghost p = c@.take(i as int);
        assert(c@.take(i + 1).drop_last() =~= p);
        assert(c@.take(i + 1).last() == ch);
        let ws = is_whitespace(ch);
        if ws {
        } else if i > 0 && !is_whitespace(c[i - 1]) && out.len() > 0 {
            assert(p.last() == c@[i - 1]);
            let mut last = out.pop().unwrap();
            last.push(ch);
            out.push(last);
        } else {
            let mut w: Vec<char> = Vec::new();
            w.push(ch);
            out.push(w);
        }
        i = i + 1;
        assert(out@.map_values(|v: Vec<char>| v@) =~= words(c@.take(i as int)));
    }
    assert(c@.take(c@.len() as int) =~= c@);
    strings_from(&out)
}

/// Each character vector as a `String`.
pub fn strings_from(v: &Vec<Vec<char>>) -> (r: Vec<String>)
    ensures
        string_seqs(r@) == v@.map_values(|x: Vec<char>| x@),
{
    let ghost target = v@.map_values(|x: Vec<char>| x@);
    let mut r: Vec<String> = Vec::new();
    let mut j: usize = 0;
    while j < v.len()
        invariant
            j <= v@.len(),
            target == v@.map_values(|x: Vec<char>| x@),
            r@.len() == j,
            string_seqs(r@) == target.take(j as int),
        decreases v@.len() - j,
    {
        let x = string_of(v[j].as_slice());
        assert(x@ == target[j as int]);
        let ghost prev = r@;
        r.push(x);
        proof {
            assert forall|k: int| 0 <= k < j + 1 implies #[trigger] string_seqs(r@)[k] == target.take(j + 1)[k] by {
                if k < j {
                    assert(r@[k] == prev[k]);
                    assert(string_seqs(prev)[k] == target.take(j as int)[k]);
                }
            }
        }
        j = j + 1;
        assert(string_seqs(r@) =~= target.take(j as int));
    }
    assert(target.take(v@.len() as int) =~= target);
    r
}

/// Last occurrence of `p` in `s`.
pub fn rfind_chars(s: &[char], p: &[char]) -> (r: Option<usize>)
    ensures
        match r {
            Some(i) => last_index(s@, p@) == Some(i as int),
            None => last_index(s@, p@) is None,
        },
{
    let n = s.len();
    if chars_at(s, p, n) {
        proof {
            assert forall|j: int| n < j implies !occurs_at(s@, p@, j) by {}
            lemma_last_index(s@, p@, n as int);
        }
        return Some(n);
    }
    let mut k: usize = n;
    while k > 0
        invariant
            k <= n,
            n == s@.len(),
            forall|j: int| k <= j ==> !occurs_at(s@, p@, j),
        decreases k,
    {
        if chars_at(s, p, k - 1) {
            proof {
                lemma_last_index(s@, p@, k - 1);
            }
            return Some(k - 1);
        }
        k = k - 1;
    }
    proof {
        lemma_last_index_occurs(s@, p@);
        if last_index(s@, p@) is Some {
            let i = last_index(s@, p@)->0;
            assert(occurs_at(s@, p@, i));
        }
    }
    None
}

/// UTF-8 encoding distributes over concatenation.
pub proof fn lemma_encode_utf8_append(a: Seq<char>, b: Seq<char>)
    ensures
        encode_utf8(a + b) == encode_utf8(a) + encode_utf8(b),
    decreases a.len(),
{
    if a.len() > 0 {
        assert((a + b).drop_first() =~= a.drop_first() + b);
        lemma_encode_utf8_append(a.drop_first(), b);
        assert(encode_utf8(a + b) =~= encode_scalar(a[0] as u32) + encode_utf8(a.drop_first() + b));
    } else {
        assert(a + b =~= b);
    }
}

/// The number of UTF-8 bytes of one character.
pub fn utf8_len(c: char) -> (r: usize)
    ensures
        r == encode_utf8(seq![c]).len(),
        1 <= r <= 4,
{
    proof {
        char_is_scalar(c);
        assert(seq![c].drop_first() =~= Seq::<char>::empty());
        assert(encode_utf8(seq![c]) =~= encode_scalar(c as u32) + encode_utf8(Seq::<char>::empty()));
    }
    let v = c as u32;
    if v < 0x80 {
        1
    } else if v < 0x800 {
        2
    } else if v < 0x10000 {
        3
    } else {
        4
    }
}

/// The longest suffix of `s` whose UTF-8 form has at most `max` bytes.
pub open spec fn suffix_within(s: Seq<char>, max: nat) -> Seq<char>
    decreases s.len(),
{
    if encode_utf8(s).len() <= max || s.len() == 0 {
        s
    } else {
        suffix_within(s.drop_first(), max)
    }
}

/// The last `max` bytes of a text for the logs: the text itself when it is
/// short enough, else `...` and the longest suffix that fits (cut at a
/// character boundary).
pub open spec fn tail_text(s: Seq<char>, max: nat) -> Seq<char> {
    if encode_utf8(s).len() <= max {
        s
    } else {
        "..."@ + suffix_within(s, max)
    }
}

pub fn tail_str(s: &str, max: usize) -> (r: String)
    ensures
        r@ == tail_text(s@, max as nat),
{
    let b = bytes_of(s);
    if b.len() <= max {
        return s.to_owned();
    }
    let c = chars_of(s);
    let mut total: usize = b.len();
    let mut k: usize = 0;
    assert(c@.skip(0) =~= c@);
    while k < c.len() && total > max
        invariant
            k <= c@.len(),
            c@ == s@,
            total == encode_utf8(c@.skip(k as int)).len(),
            suffix_within(c@.skip(k as int), max as nat) == suffix_within(s@, max as nat),
        decreases c@.len() - k,
    {
        let w = utf8_len(c[k]);
        proof {
            let rest = c@.skip(k as int);
            assert(rest =~= seq![c@[k as int]] + c@.skip(k + 1));
            lemma_encode_utf8_append(seq![c@[k as int]], c@.skip(k + 1));
            assert(rest.drop_first() =~= c@.skip(k + 1));
        }
        total = total - w;
        k = k + 1;
    }
    let tail = slice_chars(c.as_slice(), k, c.len());
    assert(tail@ =~= c@.skip(k as int));
    proof {
        if k == c@.len() {
            assert(c@.skip(k as int) =~= Seq::<char>::empty());
        }
    }
    let mut out: Vec<char> = Vec::new();
    push_str(&mut out, "...");
    push_chars(&mut out, tail.as_slice());
    string_of(out.as_slice())
}

/// The pieces of `s` between occurrences of `sep` (std's `str::split` with a
/// non-empty pattern): as many pieces as separators plus one.
#[verifier::opaque]
pub open spec fn split_on(s: Seq<char>, sep: Seq<char>) -> Seq<Seq<char>>
    decreases s.len(),
{
    if sep.len() == 0 {
        seq![s]
    } else {
        match first_index(s, sep) {
            Some(i) => if 0 <= i && i + sep.len() <= s.len() {
                seq![s.take(i)] + split_on(s.skip(i + sep.len()), sep)
            } else {
                seq![s]
            },
            None => seq![s],
        }
    }
}

#[verifier::rlimit(30)]
pub proof fn lemma_split_step(s: Seq<char>, sep: Seq<char>, i: int)
    requires
        sep.len() > 0,
        first_index(s, sep) == Some(i),
        occurs_at(s, sep, i),
    ensures
        split_on(s, sep) == seq![s.take(i)] + split_on(s.skip(i + sep.len()), sep),
{
    assert(0 <= i && i + sep.len() <= s.len());
    reveal(split_on);
}

pub proof fn lemma_split_none(s: Seq<char>, sep: Seq<char>)
    requires
        sep.len() > 0,
        first_index(s, sep) is None,
    ensures
        split_on(s, sep) == seq![s],
{
    reveal(split_on);
}

/// Splits at every occurrence of `sep`.
pub fn split_chars(s: &[char], sep: &[char]) -> (r: Vec<Vec<char>>)
    requires
        sep@.len() > 0,
    ensures
        r@.map_values(|v: Vec<char>| v@) == split_on(s@, sep@),
{
    let mut out: Vec<Vec<char>> = Vec::new();
    let mut rest: Vec<char> = slice_chars(s, 0, s.len());
    assert(rest@ =~= s@);
    loop
        invariant
            sep@.len() > 0,
            out@.map_values(|v: Vec<char>| v@) + split_on(rest@, sep@) == split_on(s@, sep@),
        decreases rest@.len(),
    {
        proof {
            lemma_first_index_occurs(rest@, sep@);
        }
        let ghost prev = out@;
        match find_chars(rest.as_slice(), sep) {
            Some(i) => {
                let n = rest.len();
                let before = slice_chars(rest.as_slice(), 0, i);
                let after = slice_chars(rest.as_slice(), i + sep.len(), n);
                assert(before@ =~= rest@.take(i as int));
                assert(after@ =~= rest@.skip(i + sep@.len()));
                proof {
                    lemma_split_step(rest@, sep@, i as int);
                }
                out.push(before);
                assert(out@.map_values(|v: Vec<char>| v@) =~= prev.map_values(|v: Vec<char>| v@).push(rest@.take(i as int)));
                assert(out@.map_values(|v: Vec<char>| v@) + split_on(after@, sep@) =~= prev.map_values(|v: Vec<char>| v@) + split_on(rest@, sep@));
                rest = after;
            },
            None => {
                proof {
                    lemma_split_none(rest@, sep@);
                }
                out.push(rest);
                assert(out@.map_values(|v: Vec<char>| v@) =~= prev.map_values(|v: Vec<char>| v@) + split_on(rest@, sep@));
                return out;
            },
        }
    }
}

/// A line without the `\r` of a `\r\n` ending.
pub open spec fn strip_cr(l: Seq<char>) -> Seq<char> {
    if l.len() > 0 && l.last() == '\r' {
        l.drop_last()
    } else {
        l
    }
}

/// std's `str::lines`: split at `\n`, each line without a `\r` before the
/// `\n`; an empty text after the last `\n` is no line.
pub open spec fn lines_of(s: Seq<char>) -> Seq<Seq<char>> {
    let p = split_on(s, seq!['\n']);
    let body = p.drop_last().map_values(|l: Seq<char>| strip_cr(l));
    if p.len() == 0 || p.last().len() == 0 {
        body
    } else {
        body.push(p.last())
    }
}

pub proof fn lemma_split_nonempty(s: Seq<char>, sep: Seq<char>)
    requires
        sep.len() > 0,
    ensures
        split_on(s, sep).len() > 0,
{
    reveal(split_on);
}

/// std's `str::lines`, collected.
pub fn text_lines(s: &str) -> (r: Vec<String>)
    ensures
        string_seqs(r@) == lines_of(s@),
{
    let c = chars_of(s);
    let nl = vec!['\n'];
    assert(nl@ =~= seq!['\n']);
    let pieces = split_chars(c.as_slice(), nl.as_slice());
    let ghost pv = pieces@.map_values(|v: Vec<char>| v@);
    proof {
        lemma_split_nonempty(s@, seq!['\n']);
    }
    let n = pieces.len();
    let mut out: Vec<String> = Vec::new();
    let mut i: usize = 0;
    while i + 1 < n
        invariant
            n == pieces@.len(),
            n > 0,
            i + 1 <= n,
            pv == pieces@.map_values(|v: Vec<char>| v@),
            pv == split_on(s@, seq!['\n']),
            out@.len() == i,
            string_seqs(out@) == pv.drop_last().take(i as int).map_values(|l: Seq<char>| strip_cr(l)),
        decreases n - i,
    {
        let l = &pieces[i];
        let k = if l.len() > 0 && l[l.len() - 1] == '\r' {
            l.len() - 1
        } else {
            l.len()
        };
        let x = slice_chars(l.as_slice(), 0, k);
        assert(x@ =~= strip_cr(pv[i as int]));
        let ghost prev = out@;
        out.push(string_of(x.as_slice()));
        i = i + 1;
        proof {
            assert forall|j: int| 0 <= j < i implies #[trigger] string_seqs(out@)[j] == pv.drop_last().take(i as int).map_values(|l: Seq<char>| strip_cr(l))[j] by {
                if j < i - 1 {
                    assert(out@[j] == prev[j]);
                    assert(string_seqs(prev)[j] == pv.drop_last().take(i - 1).map_values(|l: Seq<char>| strip_cr(l))[j]);
                }
            }
            assert(string_seqs(out@) =~= pv.drop_last().take(i as int).map_values(|l: Seq<char>| strip_cr(l)));
        }
    }
    assert(pv.drop_last().take((n - 1) as int) =~= pv.drop_last());
    let last = &pieces[n - 1];
    if last.len() > 0 {
        let ghost prev = out@;
        out.push(string_of(last.as_slice()));
        assert(string_seqs(out@) =~= string_seqs(prev).push(pv.last()));
    }
    out
}

// ───────────────────────── ordering of texts ─────────────────────────

/// `a < b` for strings (std's `Ord` for `String`: lexicographic by code point).
pub open spec fn text_lt(a: Seq<char>, b: Seq<char>) -> bool
    decreases a.len(),
{
    if a.len() == 0 {
        b.len() > 0
    } else if b.len() == 0 {
        false
    } else if a[0] != b[0] {
        (a[0] as u32) < (b[0] as u32)
    } else {
        text_lt(a.drop_first(), b.drop_first())
    }
}

pub proof fn lemma_text_lt_irreflexive(a: Seq<char>)
    ensures
        !text_lt(a, a),
    decreases a.len(),
{
    if a.len() > 0 {
        lemma_text_lt_irreflexive(a.drop_first());
    }
}

pub proof fn lemma_text_lt_transitive(a: Seq<char>, b: Seq<char>, c: Seq<char>)
    requires
        text_lt(a, b),
        text_lt(b, c),
    ensures
        text_lt(a, c),
    decreases a.len(),
{
    if a.len() > 0 && b.len() > 0 && c.len() > 0 && a[0] == b[0] && b[0] == c[0] {
        lemma_text_lt_transitive(a.drop_first(), b.drop_first(), c.drop_first());
    }
}

pub proof fn lemma_text_lt_total(a: Seq<char>, b: Seq<char>)
    ensures
        a == b || text_lt(a, b) || text_lt(b, a),
    decreases a.len(),
{
    if a.len() > 0 && b.len() > 0 {
        if a[0] == b[0] {
            lemma_text_lt_total(a.drop_first(), b.drop_first());
            if a.drop_first() == b.drop_first() {
                assert(a =~= seq![a[0]] + a.drop_first());
                assert(b =~= seq![b[0]] + b.drop_first());
            }
        } else {
            char_u32_cast(a[0], a[0] as u32);
            char_u32_cast(b[0], b[0] as u32);
            assert((a[0] as u32) != (b[0] as u32));
        }
    } else if a.len() == 0 && b.len() == 0 {
        assert(a =~= b);
    }
}

pub fn chars_lt(a: &[char], b: &[char]) -> (r: bool)
    ensures
        r == text_lt(a@, b@),
{
    let mut i: usize = 0;
    assert(a@.skip(0) =~= a@);
    assert(b@.skip(0) =~= b@);
    while i < a.len() && i < b.len() && a[i] == b[i]
        invariant
            i <= a@.len(),
            i <= b@.len(),
            text_lt(a@.skip(i as int), b@.skip(i as int)) == text_lt(a@, b@),
        decreases a@.len() - i,
    {
        proof {
            assert(a@.skip(i as int)[0] == a@[i as int]);
            assert(b@.skip(i as int)[0] == b@[i as int]);
            assert(a@.skip(i as int).drop_first() =~= a@.skip(i + 1));
            assert(b@.skip(i as int).drop_first() =~= b@.skip(i + 1));
        }
        i = i + 1;
    }
    proof {
        if i < a@.len() {
            assert(a@.skip(i as int)[0] == a@[i as int]);
        }
        if i < b@.len() {
            assert(b@.skip(i as int)[0] == b@[i as int]);
        }
    }
    if i == a.len() {
        i < b.len()
    } else if i == b.len() {
        false
    } else {
        (a[i] as u32) < (b[i] as u32)
    }
}

/// Strictly increasing: sorted with no repeats.
pub open spec fn strictly_sorted(s: Seq<Seq<char>>) -> bool {
    forall|i: int, j: int| 0 <= i < j < s.len() ==> text_lt(#[trigger] s[i], #[trigger] s[j])
}

/// Inserts `x` into a strictly sorted list unless it is there already.
pub fn insert_sorted(v: &mut Vec<Vec<char>>, x: Vec<char>)
    requires
        strictly_sorted(old(v)@.map_values(|e: Vec<char>| e@)),
    ensures
        strictly_sorted(final(v)@.map_values(|e: Vec<char>| e@)),
        final(v)@.map_values(|e: Vec<char>| e@).to_set() == old(v)@.map_values(|e: Vec<char>| e@).to_set().insert(x@),
{
    let ghost before = v@.map_values(|e: Vec<char>| e@);
    let mut k: usize = 0;
    while k < v.len() && chars_lt(v[k].as_slice(), x.as_slice())
        invariant
            k <= v@.len(),
            before == v@.map_values(|e: Vec<char>| e@),
            forall|j: int| 0 <= j < k ==> text_lt(#[trigger] before[j], x@),
        decreases v@.len() - k,
    {
        k = k + 1;
    }
    if k < v.len() && chars_equal(v[k].as_slice(), x.as_slice()) {
        assert(before[k as int] == x@);
        assert(before.to_set().insert(x@) =~= before.to_set());
        return;
    }
    proof {
        if k < before.len() {
            lemma_text_lt_total(before[k as int], x@);
        }
    }
    let ghost xs = x@;
    v.insert(k, x);
    let ghost after = v@.map_values(|e: Vec<char>| e@);
    assert(after =~= before.insert(k as int, xs));
    proof {
        assert forall|i: int, j: int| 0 <= i < j < after.len() implies text_lt(#[trigger] after[i], #[trigger] after[j]) by {
            if j < k {
                assert(after[i] == before[i] && after[j] == before[j]);
            } else if j == k {
                assert(after[j] == xs);
                assert(after[i] == before[i]);
            } else if i == k {
                assert(after[i] == xs);
                assert(after[j] == before[j - 1]);
                if j - 1 > k {
                    assert(text_lt(before[k as int], before[j - 1]));
                    lemma_text_lt_transitive(xs, before[k as int], before[j - 1]);
                }
            } else if i < k {
                assert(after[i] == before[i]);
                assert(after[j] == before[j - 1]);
            } else {
                assert(after[i] == before[i - 1]);
                assert(after[j] == before[j - 1]);
            }
        }
        assert(after.to_set() =~= before.to_set().insert(xs)) by {
            assert forall|e: Seq<char>| after.to_set().contains(e) implies before.to_set().insert(xs).contains(e) by {
                let p = choose|p: int| 0 <= p < after.len() && after[p] == e;
                if p < k {
                    assert(before[p] == e);
                } else if p > k {
                    assert(before[p - 1] == e);
                }
            }
            assert forall|e: Seq<char>| before.to_set().insert(xs).contains(e) implies after.to_set().contains(e) by {
                if e == xs {
                    assert(after[k as int] == e);
                } else {
                    let p = choose|p: int| 0 <= p < before.len() && before[p] == e;
                    if p < k {
                        assert(after[p] == e);
                    } else {
                        assert(after[p + 1] == e);
                    }
                }
            }
        }
    }
}
} // verus!
