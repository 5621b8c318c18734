use vstd::prelude::*;
use vstd::utf8::*;
use crate::crypto::{hex_digit_upper, hex_char_upper};
use crate::table::{keys_unique, table_map, table_insert, table_get};
use crate::text::{chars_of, string_of, bytes_of, from_utf8_lossy, utf8_lossy_of, push_chars, slice_chars, lemma_encode_utf8_append};

verus! {

// ───────────────────────── percent-decoding ─────────────────────────

pub open spec fn hex_value(b: u8) -> Option<int> {
    if 48 <= b <= 57 {
        Some(b - 48)
    } else if 97 <= b <= 102 {
        Some(b - 87)
    } else if 65 <= b <= 70 {
        Some(b - 55)
    } else {
        None
    }
}

/// What `u8::from_str_radix` gives for a two-byte text in base 16: two hex
/// digits, or a `+` sign followed by one.
pub open spec fn radix16_pair(b1: u8, b2: u8) -> Option<u8> {
    if b1 == 43 {
        match hex_value(b2) {
            Some(v) => Some(v as u8),
            None => None,
        }
    } else {
        match (hex_value(b1), hex_value(b2)) {
            (Some(h), Some(l)) => Some((h * 16 + l) as u8),
            _ => None,
        }
    }
}

/// Decoding of `application/x-www-form-urlencoded` bytes from index `i` on:
/// `+` is a space, `%XY` a byte, anything else itself (a `%` that starts no
/// valid escape stays a `%`).
pub open spec fn url_decode_from(b: Seq<u8>, i: int) -> Seq<u8>
    decreases b.len() - i,
{
    if i < 0 || i >= b.len() {
        seq![]
    } else if b[i] == 43 {
        seq![32u8] + url_decode_from(b, i + 1)
    } else if b[i] == 37 && i + 2 < b.len() {
        match radix16_pair(b[i + 1], b[i + 2]) {
            Some(v) => seq![v] + url_decode_from(b, i + 3),
            None => seq![37u8] + url_decode_from(b, i + 1),
        }
    } else {
        seq![b[i]] + url_decode_from(b, i + 1)
    }
}

pub open spec fn url_decode_bytes(b: Seq<u8>) -> Seq<u8> {
    url_decode_from(b, 0)
}

pub open spec fn is_continuation(b: u8) -> bool {
    128 <= b < 192
}

/// The decoder reads every `%` that has two bytes after it as a text slice of
/// those two bytes; that slice must end on a character boundary, or the
/// slicing panics.
pub open spec fn decode_safe(b: Seq<u8>) -> bool {
    forall|i: int| 0 <= i && i + 3 < b.len() && b[i] == 37 ==> !is_continuation(#[trigger] b[i + 3])
}

fn hex_val(b: u8) -> (r: Option<u8>)
    ensures
        match r {
            Some(v) => hex_value(b) == Some(v as int) && v < 16,
            None => hex_value(b) is None,
        },
{
    if 48 <= b && b <= 57 {
        Some(b - 48)
    } else if 97 <= b && b <= 102 {
        Some(b - 87)
    } else if 65 <= b && b <= 70 {
        Some(b - 55)
    } else {
        None
    }
}

fn radix16(b1: u8, b2: u8) -> (r: Option<u8>)
    ensures
        r == radix16_pair(b1, b2),
{
    if b1 == 43 {
        match hex_val(b2) {
            Some(v) => Some(v),
            None => None,
        }
    } else {
        match (hex_val(b1), hex_val(b2)) {
            (Some(h), Some(l)) => Some(h * 16 + l),
            _ => None,
        }
    }
}

/// Percent-decoding of form bytes.
pub fn url_decode_to_bytes(b: &[u8]) -> (r: Vec<u8>)
    ensures
        r@ == url_decode_bytes(b@),
{
    let mut out: Vec<u8> = Vec::new();
    let mut i: usize = 0;
    let n = b.len();
    while i < n
        invariant
            n == b@.len(),
            i <= n,
            url_decode_bytes(b@) == out@ + url_decode_from(b@, i as int),
        decreases n - i,
    {
        let ghost before = out@;
        if b[i] == 43 {
            out.push(32);
            i = i + 1;
        } else if b[i] == 37 && n - i > 2 {
            match radix16(b[i + 1], b[i + 2]) {
                Some(v) => {
                    out.push(v);
                    i = i + 3;
                },
                None => {
                    out.push(37);
                    i = i + 1;
                },
            }
        } else {
            out.push(b[i]);
            i = i + 1;
        }
        assert(url_decode_bytes(b@) =~= out@ + url_decode_from(b@, i as int));
    }
    assert(url_decode_from(b@, n as int) =~= Seq::<u8>::empty());
    assert(out@ =~= out@ + Seq::<u8>::empty());
    out
}

/// The text a form value decodes to: percent-decoded, then read as UTF-8
/// (invalid sequences replaced, as `String::from_utf8_lossy` does).
pub open spec fn decoded_text(raw: Seq<char>) -> Seq<char> {
    let b = url_decode_bytes(encode_utf8(raw));
    if valid_utf8(b) {
        decode_utf8(b)
    } else {
        utf8_lossy_of(b)
    }
}

/// Decodes a form component given as characters.
pub fn url_decode_chars(raw: &[char]) -> (r: String)
    requires
        decode_safe(encode_utf8(raw@)),
    ensures
        r@ == decoded_text(raw@),
{
    let s = string_of(raw);
    let b = bytes_of(s.as_str());
    let d = url_decode_to_bytes(b.as_slice());
    from_utf8_lossy(d.as_slice())
}

/// Decodes a form component (`url_decode` on a string slice).
pub fn url_decode(s: &str) -> (r: String)
    requires
        decode_safe(encode_utf8(s@)),
    ensures
        r@ == decoded_text(s@),
{
    let b = bytes_of(s);
    let d = url_decode_to_bytes(b.as_slice());
    from_utf8_lossy(d.as_slice())
}

// ───────────────────────── percent-encoding ─────────────────────────

pub open spec fn is_unreserved(b: u8) -> bool {
    (65 <= b <= 90) || (97 <= b <= 122) || (48 <= b <= 57) || b == 45 || b == 95 || b == 46 || b == 126
}

/// One byte as URL text: unreserved bytes as themselves, any other as `%XY`
/// with upper-case hex.
pub open spec fn encode_byte(b: u8) -> Seq<char> {
    if is_unreserved(b) {
        seq![b as char]
    } else {
        seq!['%', hex_digit_upper((b / 16) as int), hex_digit_upper((b % 16) as int)]
    }
}

pub open spec fn url_encode_bytes(b: Seq<u8>) -> Seq<char>
    decreases b.len(),
{
    if b.len() == 0 {
        seq![]
    } else {
        url_encode_bytes(b.drop_last()) + encode_byte(b.last())
    }
}

/// Percent-encoding of every byte of `s` outside `A-Z a-z 0-9 - _ . ~`.
pub fn url_encode(s: &str) -> (r: String)
    ensures
        r@ == url_encode_bytes(encode_utf8(s@)),
{
    let b = bytes_of(s);
    let mut out: Vec<char> = Vec::new();
    let mut i: usize = 0;
    while i < b.len()
        invariant
            i <= b@.len(),
            out@ == url_encode_bytes(b@.take(i as int)),
        decreases b@.len() - i,
    {
        let x = b[i];
        assert(b@.take(i + 1).drop_last() =~= b@.take(i as int));
        if (65 <= x && x <= 90) || (97 <= x && x <= 122) || (48 <= x && x <= 57) || x == 45 || x == 95 || x == 46 || x == 126 {
            out.push(x as char);
        } else {
            out.push('%');
            out.push(hex_char_upper(x / 16));
            out.push(hex_char_upper(x % 16));
        }
        i = i + 1;
        assert(out@ =~= url_encode_bytes(b@.take(i as int)));
    }
    assert(b@.take(b@.len() as int) =~= b@);
    string_of(out.as_slice())
}

// ───────────────────────── form parsing ─────────────────────────

/// The pieces of `s` between `&` separators (std's `str::split('&')`).
pub open spec fn split_amp(s: Seq<char>) -> Seq<Seq<char>>
    decreases s.len(),
{
    if s.len() == 0 {
        seq![seq![]]
    } else {
        let rest = split_amp(s.drop_last());
        if s.last() == '&' {
            rest.push(seq![])
        } else {
            rest.update(rest.len() - 1, rest.last().push(s.last()))
        }
    }
}

pub proof fn lemma_split_amp_nonempty(s: Seq<char>)
    ensures
        split_amp(s).len() >= 1,
    decreases s.len(),
{
    if s.len() > 0 {
        lemma_split_amp_nonempty(s.drop_last());
    }
}

/// Key and raw value of one piece: split at its first `=`, or the whole piece
/// with an empty value.
pub open spec fn piece_key(p: Seq<char>) -> Seq<char> {
    match crate::text::first_index(p, seq!['=']) {
        Some(i) => p.subrange(0, i),
        None => p,
    }
}

pub open spec fn piece_value(p: Seq<char>) -> Seq<char> {
    match crate::text::first_index(p, seq!['=']) {
        Some(i) => p.subrange(i + 1, p.len() as int),
        None => seq![],
    }
}

/// The non-empty pieces.
pub open spec fn form_pieces(s: Seq<char>) -> Seq<Seq<char>> {
    split_amp(s).filter(nonempty_piece())
}

pub open spec fn nonempty_piece() -> spec_fn(Seq<char>) -> bool {
    |p: Seq<char>| p.len() > 0
}

/// Every key and value of the form can be decoded without the decoder panicking.
pub open spec fn form_safe(s: Seq<char>) -> bool {
    forall|j: int| 0 <= j < split_amp(s).len() ==> piece_safe(#[trigger] split_amp(s)[j])
}

pub open spec fn piece_safe(p: Seq<char>) -> bool {
    &&& decode_safe(encode_utf8(piece_key(p)))
    &&& decode_safe(encode_utf8(piece_value(p)))
}

/// The map a form builds: pieces inserted in order, so a repeated key keeps
/// its last value.
pub open spec fn form_map_of(pieces: Seq<Seq<char>>) -> Map<Seq<char>, Seq<char>>
    decreases pieces.len(),
{
    if pieces.len() == 0 {
        Map::empty()
    } else {
        let p = pieces.last();
        form_map_of(pieces.drop_last()).insert(decoded_text(piece_key(p)), decoded_text(piece_value(p)))
    }
}

pub open spec fn form_map(s: Seq<char>) -> Map<Seq<char>, Seq<char>> {
    form_map_of(form_pieces(s))
}

pub open spec fn views_of(v: Seq<Vec<char>>) -> Seq<Seq<char>> {
    v.map_values(|p: Vec<char>| p@)
}

/// Splits at every `&`.
pub fn split_on_amp(s: &[char]) -> (r: Vec<Vec<char>>)
    ensures
        views_of(r@) == split_amp(s@),
{
    let mut pieces: Vec<Vec<char>> = Vec::new();
    pieces.push(Vec::new());
    let mut i: usize = 0;
    assert(views_of(pieces@) =~= split_amp(s@.take(0)));
    while i < s.len()
        invariant
            i <= s@.len(),
            pieces@.len() >= 1,
            views_of(pieces@) == split_amp(s@.take(i as int)),
        decreases s@.len() - i,
    {
        let c = s[i];
        assert(s@.take(i + 1).drop_last() =~= s@.take(i as int));
        assert(s@.take(i + 1).last() == c);
        if c == '&' {
            pieces.push(Vec::new());
        } else {
            let mut last = pieces.pop().unwrap();
            last.push(c);
            pieces.push(last);
        }
        i = i + 1;
        assert(views_of(pieces@) =~= split_amp(s@.take(i as int)));
    }
    assert(s@.take(s@.len() as int) =~= s@);
    pieces
}

/// Key and raw value of one piece.
pub fn split_piece(p: &[char]) -> (r: (Vec<char>, Vec<char>))
    ensures
        r.0@ == piece_key(p@),
        r.1@ == piece_value(p@),
{
    let eq = vec!['='];
    assert(eq@ =~= seq!['=']);
    proof {
        crate::text::lemma_first_index_occurs(p@, seq!['=']);
    }
    match crate::text::find_chars(p, eq.as_slice()) {
        Some(i) => {
            let n = p.len();
            assert(i + 1 <= n);
            (slice_chars(p, 0, i), slice_chars(p, i + 1, n))
        },
        None => {
            assert(p@.subrange(0, p@.len() as int) =~= p@);
            (slice_chars(p, 0, p.len()), Vec::new())
        },
    }
}

/// Parses `application/x-www-form-urlencoded` text into a table of decoded
/// keys and values; a repeated key keeps its last value.
pub fn parse_form(s: &str) -> (r: Vec<(String, String)>)
    requires
        form_safe(s@),
    ensures
        keys_unique(r@),
        table_map(r@) == form_map(s@),
{
    let c = chars_of(s);
    let pieces = split_on_amp(c.as_slice());
    let mut out: Vec<(String, String)> = Vec::new();
    let mut j: usize = 0;
    let ghost sp = split_amp(s@);
    let ghost pred = nonempty_piece();
    assert(sp.take(0).filter(pred) =~= Seq::<Seq<char>>::empty());
    while j < pieces.len()
        invariant
            j <= pieces@.len(),
            views_of(pieces@) == sp,
            sp == split_amp(s@),
            pred == nonempty_piece(),
            form_safe(s@),
            keys_unique(out@),
            table_map(out@) == form_map_of(sp.take(j as int).filter(pred)),
        decreases pieces@.len() - j,
    {
        proof {
            reveal_with_fuel(Seq::<_>::filter, 1);
            assert(sp.take(j + 1).drop_last() =~= sp.take(j as int));
            assert(sp[j as int] == pieces@[j as int]@);
            assert(piece_safe(sp[j as int]));
        }
        let p = &pieces[j];
        if p.len() > 0 {
            let (k, v) = split_piece(p.as_slice());
            let kd = url_decode_chars(k.as_slice());
            let vd = url_decode_chars(v.as_slice());
            table_insert(&mut out, kd, vd);
            proof {
                reveal_with_fuel(Seq::<_>::filter, 1);
                assert(pred(sp[j as int]));
                assert(sp.take(j + 1).last() == sp[j as int]);
                let f = sp.take(j + 1).filter(pred);
                assert(f.last() == sp[j as int]);
                assert(f.drop_last() =~= sp.take(j as int).filter(pred));
            }
        }
        else {
            proof {
                reveal_with_fuel(Seq::<_>::filter, 1);
                assert(!pred(sp[j as int]));
                assert(sp.take(j + 1).last() == sp[j as int]);
            }
        }
        j = j + 1;
    }
    assert(sp.take(pieces@.len() as int) =~= sp);
    out
}

/// `form.get(k).cloned().unwrap_or_default()`.
pub fn form_get(f: &Vec<(String, String)>, k: &str) -> (r: String)
    requires
        keys_unique(f@),
    ensures
        r@ == (if table_map(f@).dom().contains(k@) { table_map(f@)[k@] } else { Seq::<char>::empty() }),
{
    match table_get(f, k) {
        Some(v) => v.clone(),
        None => String::new(),
    }
}


/// Does the decoder read these bytes without panicking?
pub fn bytes_decode_safe(b: &[u8]) -> (r: bool)
    ensures
        r == decode_safe(b@),
{
    let n = b.len();
    let mut i: usize = 0;
    while i < n
        invariant
            n == b@.len(),
            i <= n,
            forall|k: int| 0 <= k < i && k + 3 < n && b@[k] == 37 ==> !is_continuation(#[trigger] b@[k + 3]),
        decreases n - i,
    {
        if b[i] == 37 && n - i > 3 && 128 <= b[i + 3] && b[i + 3] < 192 {
            assert(is_continuation(b@[i + 3]));
            return false;
        }
        i = i + 1;
    }
    true
}

fn chars_decode_safe(c: &[char]) -> (r: bool)
    ensures
        r == decode_safe(encode_utf8(c@)),
{
    let s = string_of(c);
    let b = bytes_of(s.as_str());
    bytes_decode_safe(b.as_slice())
}

/// Can every key and value of this form text be decoded without the decoder panicking?
pub fn form_is_safe(s: &str) -> (r: bool)
    ensures
        r == form_safe(s@),
{
    let c = chars_of(s);
    let pieces = split_on_amp(c.as_slice());
    let ghost sp = split_amp(s@);
    let mut j: usize = 0;
    while j < pieces.len()
        invariant
            j <= pieces@.len(),
            views_of(pieces@) == sp,
            sp == split_amp(s@),
            forall|k: int| 0 <= k < j ==> piece_safe(#[trigger] sp[k]),
        decreases pieces@.len() - j,
    {
        assert(sp[j as int] == pieces@[j as int]@);
        let (k, v) = split_piece(pieces[j].as_slice());
        if !chars_decode_safe(k.as_slice()) || !chars_decode_safe(v.as_slice()) {
            assert(!piece_safe(sp[j as int]));
            return false;
        }
        j = j + 1;
    }
    true
}

// ───────────────────────── decoding undoes encoding ─────────────────────────

proof fn lemma_ascii_byte(v: u32)
    requires
        v < 128,
    ensures
        leading_byte_width_1(v) == v as u8,
        (v as u8) as u32 == v,
{
    assert((v & 0x7F) as u8 == v as u8) by (bit_vector)
        requires
            v < 128,
    ;
}

/// An ASCII character is one byte of UTF-8: itself.
proof fn lemma_ascii_char(c: char)
    requires
        (c as u32) < 128,
    ensures
        encode_utf8(seq![c]) == seq![(c as u32) as u8],
{
    lemma_ascii_byte(c as u32);
    assert(seq![c].drop_first() =~= Seq::<char>::empty());
    assert(encode_utf8(seq![c]) =~= encode_scalar(c as u32) + encode_utf8(Seq::<char>::empty()));
}

/// The bytes of one encoded byte.
proof fn lemma_encoded_byte_bytes(b: u8)
    ensures
        is_unreserved(b) ==> encode_utf8(encode_byte(b)) == seq![b],
        !is_unreserved(b) ==> encode_utf8(encode_byte(b)) == seq![
            37u8,
            (hex_digit_upper((b / 16) as int) as u32) as u8,
            (hex_digit_upper((b % 16) as int) as u32) as u8,
        ],
        !is_unreserved(b) ==> (hex_digit_upper((b / 16) as int) as u32) < 128,
        !is_unreserved(b) ==> (hex_digit_upper((b % 16) as int) as u32) < 128,
{
    if is_unreserved(b) {
        lemma_ascii_char(b as char);
    } else {
        let h = hex_digit_upper((b / 16) as int);
        let l = hex_digit_upper((b % 16) as int);
        lemma_ascii_char('%');
        lemma_ascii_char(h);
        lemma_ascii_char(l);
        assert(encode_byte(b) =~= seq!['%'] + seq![h] + seq![l]);
        lemma_encode_utf8_append(seq!['%'] + seq![h], seq![l]);
        lemma_encode_utf8_append(seq!['%'], seq![h]);
        assert(encode_utf8(encode_byte(b)) =~= seq![37u8, (h as u32) as u8, (l as u32) as u8]);
    }
}

/// Decoding a text from index `p.len() + j` reads only what follows `p`.
proof fn lemma_decode_shift(p: Seq<u8>, r: Seq<u8>, j: int)
    requires
        0 <= j,
    ensures
        url_decode_from(p + r, p.len() + j) == url_decode_from(r, j),
    decreases r.len() - j,
{
    let t = p + r;
    let i = p.len() + j;
    if j >= r.len() {
    } else {
        assert(t[i] == r[j]);
        if r[j] == 43 {
            lemma_decode_shift(p, r, j + 1);
        } else if r[j] == 37 && j + 2 < r.len() {
            assert(t[i + 1] == r[j + 1]);
            assert(t[i + 2] == r[j + 2]);
            lemma_decode_shift(p, r, j + 1);
            lemma_decode_shift(p, r, j + 3);
        } else {
            lemma_decode_shift(p, r, j + 1);
        }
    }
}

/// The left-to-right form of the encoding.
proof fn lemma_encode_first(b: Seq<u8>)
    requires
        b.len() > 0,
    ensures
        url_encode_bytes(b) == encode_byte(b[0]) + url_encode_bytes(b.drop_first()),
    decreases b.len(),
{
    if b.len() == 1 {
        assert(b.drop_last() =~= Seq::<u8>::empty());
        assert(b.drop_first() =~= Seq::<u8>::empty());
        assert(url_encode_bytes(b) =~= encode_byte(b[0]) + url_encode_bytes(b.drop_first()));
    } else {
        lemma_encode_first(b.drop_last());
        assert(b.drop_last().drop_first() =~= b.drop_first().drop_last());
        assert(b.drop_first().last() == b.last());
        assert(url_encode_bytes(b) =~= encode_byte(b[0]) + url_encode_bytes(b.drop_first()));
    }
}

proof fn lemma_decode_one(b: u8, rest: Seq<u8>)
    ensures
        url_decode_from(encode_utf8(encode_byte(b)) + rest, 0) == seq![b] + url_decode_from(rest, 0),
{
    lemma_encoded_byte_bytes(b);
    let e = encode_utf8(encode_byte(b));
    if is_unreserved(b) {
        lemma_decode_shift(e, rest, 0);
        assert((e + rest)[0] == b);
    } else {
        let h = (hex_digit_upper((b / 16) as int) as u32) as u8;
        let l = (hex_digit_upper((b % 16) as int) as u32) as u8;
        assert((e + rest)[0] == 37u8);
        assert((e + rest)[1] == h);
        assert((e + rest)[2] == l);
        assert(hex_value(h) == Some((b / 16) as int));
        assert(hex_value(l) == Some((b % 16) as int));
        assert(radix16_pair(h, l) == Some(b));
        lemma_decode_shift(e, rest, 0);
    }
}

/// Percent-decoding undoes percent-encoding, byte for byte: the bytes of
/// `url_encode(x)` decode to the bytes of `x`.
pub proof fn url_decode_undoes_encode(b: Seq<u8>)
    ensures
        url_decode_bytes(encode_utf8(url_encode_bytes(b))) == b,
    decreases b.len(),
{
    if b.len() == 0 {
        assert(url_encode_bytes(b) =~= Seq::<char>::empty());
        assert(encode_utf8(Seq::<char>::empty()) =~= Seq::<u8>::empty());
    } else {
        lemma_encode_first(b);
        lemma_encode_utf8_append(encode_byte(b[0]), url_encode_bytes(b.drop_first()));
        lemma_decode_one(b[0], encode_utf8(url_encode_bytes(b.drop_first())));
        url_decode_undoes_encode(b.drop_first());
        assert(seq![b[0]] + b.drop_first() =~= b);
    }
}

/// Encoded text never holds the form separators `&`, `=` or `+`, so an encoded
/// value stays one value inside a form.
pub proof fn url_encoding_has_no_separators(b: Seq<u8>)
    ensures
        forall|i: int| 0 <= i < url_encode_bytes(b).len() ==> {
            let c = #[trigger] url_encode_bytes(b)[i];
            c != '&' && c != '=' && c != '+'
        },
    decreases b.len(),
{
    if b.len() > 0 {
        url_encoding_has_no_separators(b.drop_last());
        let x = b.last();
        let pre = url_encode_bytes(b.drop_last());
        assert forall|i: int| 0 <= i < url_encode_bytes(b).len() implies {
            let c = #[trigger] url_encode_bytes(b)[i];
            c != '&' && c != '=' && c != '+'
        } by {
            if i < pre.len() {
                assert(url_encode_bytes(b)[i] == pre[i]);
            } else {
                assert(url_encode_bytes(b)[i] == encode_byte(x)[i - pre.len()]);
            }
        }
    }
}

/// Every byte of an encoded text's UTF-8 is ASCII.
proof fn lemma_encoded_is_ascii(b: Seq<u8>)
    ensures
        forall|i: int| 0 <= i < encode_utf8(url_encode_bytes(b)).len() ==> #[trigger] encode_utf8(url_encode_bytes(b))[i] < 128,
    decreases b.len(),
{
    if b.len() > 0 {
        lemma_encoded_is_ascii(b.drop_last());
        lemma_encode_utf8_append(url_encode_bytes(b.drop_last()), encode_byte(b.last()));
        lemma_encoded_byte_bytes(b.last());
        let pre = encode_utf8(url_encode_bytes(b.drop_last()));
        let post = encode_utf8(encode_byte(b.last()));
        assert forall|i: int| 0 <= i < post.len() implies #[trigger] post[i] < 128 by {
            if !is_unreserved(b.last()) {
                let h = hex_digit_upper((b.last() / 16) as int);
                let l = hex_digit_upper((b.last() % 16) as int);
                lemma_ascii_byte(h as u32);
                lemma_ascii_byte(l as u32);
            }
        }
        assert forall|i: int| 0 <= i < encode_utf8(url_encode_bytes(b)).len() implies #[trigger] encode_utf8(
            url_encode_bytes(b),
        )[i] < 128 by {
            if i < pre.len() {
                assert(encode_utf8(url_encode_bytes(b))[i] == pre[i]);
            } else {
                assert(encode_utf8(url_encode_bytes(b))[i] == post[i - pre.len()]);
            }
        }
    }
}

/// Decoding gives back the text that was encoded: for every text `s`,
/// `url_encode(s)` may be decoded, and `url_decode` of it is `s`.
pub proof fn url_decode_gives_back_text(s: Seq<char>)
    ensures
        decode_safe(encode_utf8(url_encode_bytes(encode_utf8(s)))),
        decoded_text(url_encode_bytes(encode_utf8(s))) == s,
{
    let e = url_encode_bytes(encode_utf8(s));
    lemma_encoded_is_ascii(encode_utf8(s));
    url_decode_undoes_encode(encode_utf8(s));
    vstd::utf8::encode_utf8_valid_utf8(s);
    vstd::utf8::encode_utf8_decode_utf8(s);
}
} // verus!
