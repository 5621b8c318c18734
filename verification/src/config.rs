use vstd::prelude::*;
use crate::text::{
    chars_of, string_of, push_str, push_chars, slice_chars, starts_with, trim, trimmed, trim_chars, string_seqs,
    lines_of, text_lines, contains_seq, str_contains, first_index, find_chars, occurs_at, lemma_first_index_occurs,
    chars_equal, split_on, strip_cr, lemma_split_step, lemma_split_none, lemma_first_index, trim_start,
    ws_prefix_len, ws_suffix_len, unicode_whitespace, lemma_ws_prefix_len_bound, lemma_ws_suffix_len_bound,
};

verus! {

// ───────────────────────── the portable-mode .ini ─────────────────────────

/// A comment line of the preferences file (after trimming).
pub open spec fn is_comment(t: Seq<char>) -> bool {
    t.len() > 0 && (t[0] == '#' || t[0] == ';')
}

/// The key and value of a `key=value` line (split at the first `=`), if any.
pub open spec fn key_value(t: Seq<char>) -> Option<(Seq<char>, Seq<char>)> {
    match first_index(t, "="@) {
        Some(i) => Some((t.take(i), t.skip(i + 1))),
        None => None,
    }
}

/// Does this (untrimmed) line set `key`?
#[verifier::opaque]
pub open spec fn sets_key(line: Seq<char>, key: Seq<char>) -> bool {
    let t = trim(line);
    &&& !is_comment(t)
    &&& key_value(t) is Some
    &&& trim((key_value(t)->0).0) == key
}

/// The value of the first line that sets `key`, trimmed.
pub open spec fn ini_lookup(lines: Seq<Seq<char>>, key: Seq<char>) -> Option<Seq<char>>
    decreases lines.len(),
{
    if lines.len() == 0 {
        None
    } else if sets_key(lines[0], key) {
        Some(trim((key_value(trim(lines[0]))->0).1))
    } else {
        ini_lookup(lines.drop_first(), key)
    }
}

fn split_eq(t: &[char]) -> (r: Option<(Vec<char>, Vec<char>)>)
    ensures
        match r {
            Some((k, v)) => key_value(t@) == Some((k@, v@)),
            None => key_value(t@) is None,
        },
{
    let eq = chars_of("=");
    proof {
        reveal_strlit("=");
        lemma_first_index_occurs(t@, "="@);
    }
    let n = t.len();
    match find_chars(t, eq.as_slice()) {
        Some(i) => {
            assert(occurs_at(t@, "="@, i as int));
            let k = slice_chars(t, 0, i);
            let v = slice_chars(t, i + 1, n);
            assert(k@ =~= t@.take(i as int));
            assert(v@ =~= t@.skip(i + 1));
            Some((k, v))
        },
        None => None,
    }
}

/// Does the line set `key`? When it does, the value.
fn line_value(line: &str, key: &str) -> (r: Option<String>)
    ensures
        match r {
            Some(v) => sets_key(line@, key@) && v@ == trim((key_value(trim(line@))->0).1),
            None => !sets_key(line@, key@),
        },
{
    proof {
        reveal(sets_key);
    }
    let t = crate::text::trim_str(line);
    if t.len() > 0 && (t[0] == '#' || t[0] == ';') {
        return None;
    }
    match split_eq(t.as_slice()) {
        Some((k, v)) => {
            let kt = trim_chars(k.as_slice());
            let kc = chars_of(key);
            if chars_equal(kt.as_slice(), kc.as_slice()) {
                let vt = trim_chars(v.as_slice());
                Some(string_of(vt.as_slice()))
            } else {
                None
            }
        },
        None => None,
    }
}

/// A preference from the `.ini` text: the first uncommented `key=value` line
/// for `key`.
pub fn ini_get(text: &str, key: &str) -> (r: Option<String>)
    ensures
        match r {
            Some(v) => ini_lookup(lines_of(text@), key@) == Some(v@),
            None => ini_lookup(lines_of(text@), key@) is None,
        },
{
    let lines = text_lines(text);
    let ghost lv = string_seqs(lines@);
    let mut i: usize = 0;
    assert(lv.skip(0) =~= lv);
    while i < lines.len()
        invariant
            i <= lines@.len(),
            lv == string_seqs(lines@),
            lv == lines_of(text@),
            ini_lookup(lv.skip(i as int), key@) == ini_lookup(lv, key@),
        decreases lines@.len() - i,
    {
        assert(lv[i as int] == lines@[i as int]@);
        assert(lv.skip(i as int)[0] == lv[i as int]);
        assert(lv.skip(i as int).drop_first() =~= lv.skip(i + 1));
        match line_value(lines[i].as_str(), key) {
            Some(v) => {
                return Some(v);
            },
            None => {},
        }
        i = i + 1;
    }
    assert(lv.skip(i as int) =~= Seq::<Seq<char>>::empty());
    None
}

/// The lines after setting `key` to `value`: every line that sets the key is
/// replaced by `key=value`; with none, the line is appended (after a header
/// comment when the file was empty).
pub open spec fn ini_lines_after(lines: Seq<Seq<char>>, key: Seq<char>, value: Seq<char>) -> Seq<Seq<char>> {
    let entry = key + "="@ + value;
    let replaced = Seq::new(lines.len(), |i: int| if sets_key(lines[i], key) { entry } else { lines[i] });
    if exists|i: int| 0 <= i < lines.len() && sets_key(#[trigger] lines[i], key) {
        replaced
    } else if lines.len() == 0 {
        seq!["# FzComputerAI - preferencias do MODO PORTATIL"@, entry]
    } else {
        lines.push(entry)
    }
}

/// Lines joined with CRLF, each one ended by it.
pub open spec fn crlf_text(lines: Seq<Seq<char>>) -> Seq<char>
    decreases lines.len(),
{
    if lines.len() == 0 {
        seq![]
    } else {
        crlf_text(lines.drop_last()) + lines.last() + "\r\n"@
    }
}

/// The `.ini` text with `key` set to `value`, other lines kept.
pub open spec fn ini_set_spec(text: Seq<char>, key: Seq<char>, value: Seq<char>) -> Seq<char> {
    let l = ini_lines_after(lines_of(text), key, value);
    if l.len() == 0 {
        "\r\n"@
    } else {
        crlf_text(l)
    }
}

proof fn lemma_replaced_lines(lv: Seq<Seq<char>>, key: Seq<char>, value: Seq<char>, out: Seq<Seq<char>>, replaced: bool)
    requires
        out.len() == lv.len(),
        forall|j: int| 0 <= j < lv.len() ==> #[trigger] out[j] == (if sets_key(lv[j], key) { key + "="@ + value } else { lv[j] }),
        replaced == exists|j: int| 0 <= j < lv.len() && sets_key(#[trigger] lv[j], key),
    ensures
        replaced ==> out == ini_lines_after(lv, key, value),
        !replaced ==> out == lv,
        !replaced && lv.len() == 0 ==> ini_lines_after(lv, key, value) == seq!["# FzComputerAI - preferencias do MODO PORTATIL"@, key + "="@ + value],
        !replaced && lv.len() > 0 ==> ini_lines_after(lv, key, value) == lv.push(key + "="@ + value),
{
    if replaced {
        assert(out =~= ini_lines_after(lv, key, value));
    } else {
        assert(out =~= lv);
    }
}

/// Rewrites the preferences text with `key=value`.
pub fn ini_set(text: &str, key: &str, value: &str) -> (r: String)
    ensures
        r@ == ini_set_spec(text@, key@, value@),
{
    let lines = text_lines(text);
    let ghost lv = string_seqs(lines@);
    let mut entry: Vec<char> = chars_of(key);
    push_str(&mut entry, "=");
    push_str(&mut entry, value);
    let ghost e = key@ + "="@ + value@;
    assert(entry@ =~= e);
    let mut out: Vec<Vec<char>> = Vec::new();
    let mut replaced = false;
    let mut i: usize = 0;
    while i < lines.len()
        invariant
            i <= lines@.len(),
            lv == string_seqs(lines@),
            lv == lines_of(text@),
            entry@ == e,
            e == key@ + "="@ + value@,
            out@.len() == i,
            forall|j: int| 0 <= j < i ==> #[trigger] out@[j]@ == (if sets_key(lv[j], key@) { e } else { lv[j] }),
            replaced == exists|j: int| 0 <= j < i && sets_key(#[trigger] lv[j], key@),
        decreases lines@.len() - i,
    {
        assert(lv[i as int] == lines@[i as int]@);
        let line = chars_of(lines[i].as_str());
        match line_value(lines[i].as_str(), key) {
            Some(_) => {
                out.push(slice_chars(entry.as_slice(), 0, entry.len()));
                assert(out@[i as int]@ =~= e);
                replaced = true;
            },
            None => {
                out.push(line);
            },
        }
        i = i + 1;
    }
    let ghost before = out@.map_values(|v: Vec<char>| v@);
    proof {
        lemma_replaced_lines(lv, key@, value@, before, replaced);
    }
    if !replaced {
        if out.len() == 0 {
            out.push(chars_of("# FzComputerAI - preferencias do MODO PORTATIL"));
        }
        out.push(entry);
        assert(out@.map_values(|v: Vec<char>| v@) =~= ini_lines_after(lv, key@, value@));
    }
    let mut text_out: Vec<char> = Vec::new();
    let mut k: usize = 0;
    while k < out.len()
        invariant
            k <= out@.len(),
            out@.len() > 0,
            text_out@ == crlf_text(out@.map_values(|v: Vec<char>| v@).take(k as int)),
        decreases out@.len() - k,
    {
        let ghost ov = out@.map_values(|v: Vec<char>| v@);
        assert(ov.take(k + 1).drop_last() =~= ov.take(k as int));
        assert(ov.take(k + 1).last() == out@[k as int]@);
        push_chars(&mut text_out, out[k].as_slice());
        push_str(&mut text_out, "\r\n");
        k = k + 1;
    }
    assert(out@.map_values(|v: Vec<char>| v@).take(out@.len() as int) =~= out@.map_values(|v: Vec<char>| v@));
    string_of(text_out.as_slice())
}

// ───────────────────────── reading back what was written ─────────────────────────

/// No character of `s` is `c`.
pub open spec fn lacks(s: Seq<char>, c: char) -> bool {
    forall|i: int| 0 <= i < s.len() ==> s[i] != c
}

proof fn lemma_crlf_front(l: Seq<Seq<char>>)
    requires
        l.len() > 0,
    ensures
        crlf_text(l) == l[0] + "\r\n"@ + crlf_text(l.drop_first()),
    decreases l.len(),
{
    if l.len() == 1 {
        assert(l.drop_last() =~= Seq::<Seq<char>>::empty());
        assert(l.drop_first() =~= Seq::<Seq<char>>::empty());
        assert(crlf_text(l) =~= l[0] + "\r\n"@ + crlf_text(l.drop_first()));
    } else {
        lemma_crlf_front(l.drop_last());
        assert(l.drop_last().drop_first() =~= l.drop_first().drop_last());
        assert(l.drop_first().last() == l.last());
        assert(l.drop_last()[0] == l[0]);
        assert(crlf_text(l) =~= l[0] + "\r\n"@ + crlf_text(l.drop_first()));
    }
}

/// The pieces between the line feeds of CRLF-joined lines: each line with its
/// `\r`, then the empty rest.
proof fn lemma_split_crlf(l: Seq<Seq<char>>)
    requires
        forall|i: int| 0 <= i < l.len() ==> lacks(#[trigger] l[i], '\n'),
    ensures
        split_on(crlf_text(l), seq!['\n']) == l.map_values(|x: Seq<char>| x.push('\r')) + seq![Seq::<char>::empty()],
    decreases l.len(),
{
    reveal_strlit("\r\n");
    if l.len() == 0 {
        assert(crlf_text(l) =~= Seq::<char>::empty());
        lemma_first_index_occurs(crlf_text(l), seq!['\n']);
        lemma_split_none(crlf_text(l), seq!['\n']);
        assert(l.map_values(|x: Seq<char>| x.push('\r')) + seq![Seq::<char>::empty()] =~= seq![Seq::<char>::empty()]);
    } else {
        lemma_crlf_front(l);
        let s = crlf_text(l);
        let a = l[0];
        let rest = crlf_text(l.drop_first());
        let i = a.len() as int + 1;
        assert(s =~= a + seq!['\r', '\n'] + rest);
        assert(lacks(a, '\n'));
        assert(s.subrange(i, i + 1) =~= seq!['\n']);
        assert(occurs_at(s, seq!['\n'], i));
        assert forall|j: int| 0 <= j < i implies !occurs_at(s, seq!['\n'], j) by {
            if occurs_at(s, seq!['\n'], j) {
                assert(s.subrange(j, j + 1)[0] == s[j]);
                if j < a.len() {
                    assert(s[j] == a[j]);
                } else {
                    assert(s[j] == '\r');
                }
            }
        }
        lemma_first_index(s, seq!['\n'], i);
        lemma_split_step(s, seq!['\n'], i);
        assert(s.take(i) =~= a.push('\r'));
        assert(s.skip(i + 1) =~= rest);
        assert forall|k: int| 0 <= k < l.drop_first().len() implies lacks(#[trigger] l.drop_first()[k], '\n') by {
            assert(l.drop_first()[k] == l[k + 1]);
        }
        lemma_split_crlf(l.drop_first());
        assert(l.map_values(|x: Seq<char>| x.push('\r')) + seq![Seq::<char>::empty()] =~= seq![a.push('\r')] + (
        l.drop_first().map_values(|x: Seq<char>| x.push('\r')) + seq![Seq::<char>::empty()]));
    }
}

/// Lines without line feeds, joined with CRLF, read back as the same lines.
proof fn lemma_lines_of_crlf(l: Seq<Seq<char>>)
    requires
        forall|i: int| 0 <= i < l.len() ==> lacks(#[trigger] l[i], '\n'),
    ensures
        lines_of(crlf_text(l)) == l,
{
    lemma_split_crlf(l);
    let p = split_on(crlf_text(l), seq!['\n']);
    assert(p.last().len() == 0);
    assert(p.drop_last() =~= l.map_values(|x: Seq<char>| x.push('\r')));
    assert forall|i: int| 0 <= i < l.len() implies #[trigger] strip_cr(l[i].push('\r')) == l[i] by {
        assert(l[i].push('\r').drop_last() =~= l[i]);
    }
    assert(p.drop_last().map_values(|x: Seq<char>| strip_cr(x)) =~= l);
}

/// No piece of a split at line feeds holds one.
proof fn lemma_split_lacks_newline(s: Seq<char>)
    ensures
        forall|i: int| 0 <= i < split_on(s, seq!['\n']).len() ==> lacks(#[trigger] split_on(s, seq!['\n'])[i], '\n'),
    decreases s.len(),
{
    lemma_first_index_occurs(s, seq!['\n']);
    match first_index(s, seq!['\n']) {
        Some(i) => {
            lemma_split_step(s, seq!['\n'], i);
            assert(lacks(s.take(i), '\n')) by {
                assert forall|j: int| 0 <= j < i implies s.take(i)[j] != '\n' by {
                    assert(!occurs_at(s, seq!['\n'], j));
                    assert(s.subrange(j, j + 1)[0] == s[j]);
                    if s[j] == '\n' {
                        assert(s.subrange(j, j + 1) =~= seq!['\n']);
                    }
                }
            }
            lemma_split_lacks_newline(s.skip(i + 1));
            let p = split_on(s, seq!['\n']);
            assert forall|k: int| 0 <= k < p.len() implies lacks(#[trigger] p[k], '\n') by {
                if k > 0 {
                    assert(p[k] == split_on(s.skip(i + 1), seq!['\n'])[k - 1]);
                }
            }
        },
        None => {
            lemma_split_none(s, seq!['\n']);
            assert forall|j: int| 0 <= j < s.len() implies s[j] != '\n' by {
                assert(!occurs_at(s, seq!['\n'], j));
                assert(s.subrange(j, j + 1)[0] == s[j]);
                if s[j] == '\n' {
                    assert(s.subrange(j, j + 1) =~= seq!['\n']);
                }
            }
        },
    }
}

/// No line of a text holds a line feed.
proof fn lemma_lines_lack_newline(text: Seq<char>)
    ensures
        forall|i: int| 0 <= i < lines_of(text).len() ==> lacks(#[trigger] lines_of(text)[i], '\n'),
{
    lemma_split_lacks_newline(text);
    crate::text::lemma_split_nonempty(text, seq!['\n']);
    let p = split_on(text, seq!['\n']);
    let l = lines_of(text);
    assert forall|i: int| 0 <= i < l.len() implies lacks(#[trigger] l[i], '\n') by {
        if i < p.len() - 1 {
            assert(l[i] == strip_cr(p[i]));
            assert(lacks(p[i], '\n'));
        } else {
            assert(l[i] == p.last());
            assert(lacks(p[p.len() - 1], '\n'));
        }
    }
}

/// A text that equals its trim starts and ends with a character that is not
/// whitespace.
proof fn lemma_trimmed_ends(k: Seq<char>)
    requires
        trim(k) == k,
    ensures
        ws_prefix_len(k) == 0,
        ws_suffix_len(k) == 0,
{
    lemma_ws_prefix_len_bound(k);
    let t = trim_start(k);
    lemma_ws_suffix_len_bound(t);
    assert(trim(k).len() == k.len() - ws_prefix_len(k) - ws_suffix_len(t));
    assert(t =~= k);
}

/// The line `key=value` sets `key`, to `value`.
proof fn lemma_entry_sets_key(key: Seq<char>, value: Seq<char>)
    requires
        key.len() > 0,
        trim(key) == key,
        lacks(key, '='),
        key[0] != '#',
        key[0] != ';',
        trim(value) == value,
    ensures
        sets_key(key + "="@ + value, key),
        trim((key_value(trim(key + "="@ + value))->0).1) == value,
        key_value(trim(key + "="@ + value)) == Some((key, value)),
{
    reveal(sets_key);
    reveal_strlit("=");
    lemma_trimmed_ends(key);
    let e = key + "="@ + value;
    assert(e[0] == key[0]);
    assert(!unicode_whitespace(key[0]));
    assert(ws_prefix_len(e) == 0);
    assert(trim_start(e) =~= e);
    if value.len() > 0 {
        lemma_trimmed_ends(value);
        assert(e.last() == value.last());
        assert(!unicode_whitespace(value.last()));
    } else {
        assert(e.last() == '=');
    }
    assert(ws_suffix_len(e) == 0);
    assert(trim(e) =~= e);
    let k = key.len() as int;
    assert(e.subrange(k, k + 1) =~= "="@);
    assert(occurs_at(e, "="@, k));
    assert forall|j: int| 0 <= j < k implies !occurs_at(e, "="@, j) by {
        if occurs_at(e, "="@, j) {
            assert(e.subrange(j, j + 1)[0] == e[j]);
            assert(e[j] == key[j]);
        }
    }
    lemma_first_index(e, "="@, k);
    assert(e.take(k) =~= key);
    assert(e.skip(k + 1) =~= value);
}

/// A line without `=` sets no key.
proof fn lemma_no_equals_sets_nothing(l: Seq<char>, key: Seq<char>)
    requires
        lacks(l, '='),
    ensures
        !sets_key(l, key),
{
    reveal(sets_key);
    reveal_strlit("=");
    lemma_ws_prefix_len_bound(l);
    let t = trim(l);
    let p = ws_prefix_len(l) as int;
    lemma_ws_suffix_len_bound(trim_start(l));
    lemma_first_index_occurs(t, "="@);
    if let Some(i) = first_index(t, "="@) {
        assert(t.subrange(i, i + 1)[0] == t[i]);
        assert(t[i] == l[p + i]);
    }
}

/// The lines with every line that sets `key` replaced by `e`.
pub open spec fn replaced(lines: Seq<Seq<char>>, key: Seq<char>, e: Seq<char>) -> Seq<Seq<char>> {
    Seq::new(lines.len(), |i: int| if sets_key(lines[i], key) { e } else { lines[i] })
}

proof fn lemma_lookup_replaced(lines: Seq<Seq<char>>, key: Seq<char>, e: Seq<char>)
    requires
        sets_key(e, key),
        exists|j: int| 0 <= j < lines.len() && sets_key(#[trigger] lines[j], key),
    ensures
        ini_lookup(replaced(lines, key, e), key) == Some(trim((key_value(trim(e))->0).1)),
    decreases lines.len(),
{
    let r = replaced(lines, key, e);
    if sets_key(lines[0], key) {
        assert(r[0] == e);
    } else {
        let j = choose|j: int| 0 <= j < lines.len() && sets_key(#[trigger] lines[j], key);
        assert(j > 0);
        assert(lines.drop_first()[j - 1] == lines[j]);
        lemma_lookup_replaced(lines.drop_first(), key, e);
        assert(r.drop_first() =~= replaced(lines.drop_first(), key, e));
        assert(r[0] == lines[0]);
    }
}

proof fn lemma_lookup_appended(lines: Seq<Seq<char>>, key: Seq<char>, e: Seq<char>)
    requires
        sets_key(e, key),
        forall|j: int| 0 <= j < lines.len() ==> !sets_key(#[trigger] lines[j], key),
    ensures
        ini_lookup(lines.push(e), key) == Some(trim((key_value(trim(e))->0).1)),
    decreases lines.len(),
{
    if lines.len() == 0 {
        assert(lines.push(e)[0] == e);
    } else {
        assert(!sets_key(lines[0], key));
        assert(lines.push(e)[0] == lines[0]);
        assert(lines.push(e).drop_first() =~= lines.drop_first().push(e));
        assert forall|j: int| 0 <= j < lines.drop_first().len() implies !sets_key(#[trigger] lines.drop_first()[j], key) by {
            assert(lines.drop_first()[j] == lines[j + 1]);
        }
        lemma_lookup_appended(lines.drop_first(), key, e);
    }
}

/// The text written reads back as the lines that were written.
proof fn lemma_written_lines(text: Seq<char>, key: Seq<char>, value: Seq<char>)
    requires
        lacks(key, '\n'),
        lacks(value, '\n'),
    ensures
        lines_of(ini_set_spec(text, key, value)) == ini_lines_after(lines_of(text), key, value),
{
    reveal_strlit("=");
    reveal_strlit("# FzComputerAI - preferencias do MODO PORTATIL");
    let lv = lines_of(text);
    let e = key + "="@ + value;
    lemma_lines_lack_newline(text);
    assert(lacks(e, '\n')) by {
        assert forall|i: int| 0 <= i < e.len() implies e[i] != '\n' by {
            if i < key.len() {
                assert(e[i] == key[i]);
            } else if i > key.len() {
                assert(e[i] == value[i - key.len() - 1]);
            }
        }
    }
    let l = ini_lines_after(lv, key, value);
    let h = "# FzComputerAI - preferencias do MODO PORTATIL"@;
    assert forall|i: int| 0 <= i < l.len() implies lacks(#[trigger] l[i], '\n') by {
        if l[i] != e {
            if exists|j: int| 0 <= j < lv.len() && sets_key(#[trigger] lv[j], key) {
                assert(l[i] == lv[i]);
            } else if lv.len() == 0 {
                assert(i == 0);
                assert forall|k: int| 0 <= k < h.len() implies h[k] != '\n' by {
                    assert(h[k] != '\n');
                }
            } else {
                assert(i < lv.len());
                assert(l[i] == lv[i]);
            }
        }
    }
    if exists|j: int| 0 <= j < lv.len() && sets_key(#[trigger] lv[j], key) {
        let j = choose|j: int| 0 <= j < lv.len() && sets_key(#[trigger] lv[j], key);
        assert(l.len() == lv.len());
        assert(l.len() > 0);
    }
    lemma_lines_of_crlf(l);
}

/// A preference written is read back: after `key` is set to `value`, reading
/// `key` gives `value`. This holds for a key that is trimmed, not empty, with
/// no `=` and no line feed and not starting a comment, and for a value that is
/// trimmed and without a line feed (empty too); whatever the text was before.
pub proof fn ini_value_read_back(text: Seq<char>, key: Seq<char>, value: Seq<char>)
    requires
        key.len() > 0,
        trim(key) == key,
        lacks(key, '='),
        lacks(key, '\n'),
        key[0] != '#',
        key[0] != ';',
        trim(value) == value,
        lacks(value, '\n'),
    ensures
        ini_lookup(lines_of(ini_set_spec(text, key, value)), key) == Some(value),
{
    reveal_strlit("=");
    reveal_strlit("# FzComputerAI - preferencias do MODO PORTATIL");
    let lv = lines_of(text);
    let e = key + "="@ + value;
    lemma_entry_sets_key(key, value);
    lemma_lines_lack_newline(text);
    assert(lacks(e, '\n')) by {
        assert forall|i: int| 0 <= i < e.len() implies e[i] != '\n' by {
            if i < key.len() {
                assert(e[i] == key[i]);
            } else if i > key.len() {
                assert(e[i] == value[i - key.len() - 1]);
            }
        }
    }
    let l = ini_lines_after(lv, key, value);
    if exists|j: int| 0 <= j < lv.len() && sets_key(#[trigger] lv[j], key) {
        assert(l =~= replaced(lv, key, e));
        lemma_lookup_replaced(lv, key, e);
        assert(l.len() > 0);
    } else if lv.len() == 0 {
        let h = "# FzComputerAI - preferencias do MODO PORTATIL"@;
        assert(lacks(h, '=')) by {
            assert forall|i: int| 0 <= i < h.len() implies h[i] != '=' by {
                assert(h[i] != '=');
            }
        }
        lemma_no_equals_sets_nothing(h, key);
        assert(l =~= seq![h].push(e));
        lemma_lookup_appended(seq![h], key, e);
    } else {
        assert(l =~= lv.push(e));
        lemma_lookup_appended(lv, key, e);
    }
    lemma_written_lines(text, key, value);
}


/// A line sets one key at most.
proof fn lemma_sets_one_key(l: Seq<char>, a: Seq<char>, b: Seq<char>)
    requires
        sets_key(l, a),
        sets_key(l, b),
    ensures
        a == b,
{
    reveal(sets_key);
}

proof fn lemma_lookup_replaced_other(lines: Seq<Seq<char>>, key: Seq<char>, e: Seq<char>, other: Seq<char>)
    requires
        !sets_key(e, other),
        key != other,
    ensures
        ini_lookup(replaced(lines, key, e), other) == ini_lookup(lines, other),
    decreases lines.len(),
{
    if lines.len() > 0 {
        let r = replaced(lines, key, e);
        if sets_key(lines[0], key) && sets_key(lines[0], other) {
            lemma_sets_one_key(lines[0], key, other);
        }
        assert(r.drop_first() =~= replaced(lines.drop_first(), key, e));
        lemma_lookup_replaced_other(lines.drop_first(), key, e, other);
    }
}

proof fn lemma_lookup_appended_other(lines: Seq<Seq<char>>, e: Seq<char>, other: Seq<char>)
    requires
        !sets_key(e, other),
    ensures
        ini_lookup(lines.push(e), other) == ini_lookup(lines, other),
    decreases lines.len(),
{
    if lines.len() == 0 {
        assert(lines.push(e).drop_first() =~= Seq::<Seq<char>>::empty());
    } else {
        assert(lines.push(e)[0] == lines[0]);
        assert(lines.push(e).drop_first() =~= lines.drop_first().push(e));
        lemma_lookup_appended_other(lines.drop_first(), e, other);
    }
}

/// Setting one key keeps every other key: after `key` is set to `value`,
/// reading any other key gives what it gave before. Stated for the keys and
/// values for which a written value is read back.
pub proof fn ini_other_keys_kept(text: Seq<char>, key: Seq<char>, value: Seq<char>, other: Seq<char>)
    requires
        key.len() > 0,
        trim(key) == key,
        lacks(key, '='),
        lacks(key, '\n'),
        key[0] != '#',
        key[0] != ';',
        trim(value) == value,
        lacks(value, '\n'),
        other != key,
    ensures
        ini_lookup(lines_of(ini_set_spec(text, key, value)), other) == ini_lookup(lines_of(text), other),
{
    reveal_strlit("=");
    reveal_strlit("# FzComputerAI - preferencias do MODO PORTATIL");
    let lv = lines_of(text);
    let e = key + "="@ + value;
    lemma_entry_sets_key(key, value);
    if sets_key(e, other) {
        lemma_sets_one_key(e, key, other);
    }
    assert(!sets_key(e, other));
    lemma_written_lines(text, key, value);
    let l = ini_lines_after(lv, key, value);
    assert(lines_of(ini_set_spec(text, key, value)) == l);
    if exists|j: int| 0 <= j < lv.len() && sets_key(#[trigger] lv[j], key) {
        assert(l =~= replaced(lv, key, e));
        lemma_lookup_replaced_other(lv, key, e, other);
        assert(ini_lookup(l, other) == ini_lookup(lv, other));
    } else if lv.len() == 0 {
        let h = "# FzComputerAI - preferencias do MODO PORTATIL"@;
        assert(lacks(h, '=')) by {
            assert forall|i: int| 0 <= i < h.len() implies h[i] != '=' by {
                assert(h[i] != '=');
            }
        }
        lemma_no_equals_sets_nothing(h, other);
        assert(l =~= seq![h].push(e));
        lemma_lookup_appended_other(seq![h], e, other);
        assert(seq![h].drop_first() =~= Seq::<Seq<char>>::empty());
        assert(ini_lookup(seq![h], other) == ini_lookup(Seq::<Seq<char>>::empty(), other));
        assert(ini_lookup(l, other) == ini_lookup(lv, other));
    } else {
        assert(l =~= lv.push(e));
        lemma_lookup_appended_other(lv, e, other);
        assert(ini_lookup(l, other) == ini_lookup(lv, other));
    }
}

// ───────────────────────── registry query output ─────────────────────────

/// The text after `REG_SZ`, trimmed, on a line that mentions `name` and holds `REG_SZ`.
#[verifier::opaque]
pub open spec fn reg_line(l: Seq<char>, name: Seq<char>) -> Option<Seq<char>> {
    if contains_seq(l, name) && first_index(l, "REG_SZ"@) is Some {
        Some(trim(l.skip(first_index(l, "REG_SZ"@)->0 + 6)))
    } else {
        None
    }
}

/// The value on the first line that has one for `name`.
pub open spec fn reg_value_of(lines: Seq<Seq<char>>, name: Seq<char>) -> Option<Seq<char>>
    decreases lines.len(),
{
    if lines.len() == 0 {
        None
    } else if reg_line(lines[0], name) is Some {
        reg_line(lines[0], name)
    } else {
        reg_value_of(lines.drop_first(), name)
    }
}

fn line_reg_value(line: &str, name: &str) -> (r: Option<String>)
    ensures
        opt_view(r) == reg_line(line@, name@),
{
    proof {
        reveal(reg_line);
    }
    if !str_contains(line, name) {
        return None;
    }
    let c = chars_of(line);
    let pat = chars_of("REG_SZ");
    proof {
        reveal_strlit("REG_SZ");
        lemma_first_index_occurs(line@, "REG_SZ"@);
    }
    let n = c.len();
    match find_chars(c.as_slice(), pat.as_slice()) {
        Some(p) => {
            assert(occurs_at(line@, "REG_SZ"@, p as int));
            let rest = slice_chars(c.as_slice(), p + 6, n);
            assert(rest@ =~= line@.skip(p + 6));
            let t = trim_chars(rest.as_slice());
            Some(string_of(t.as_slice()))
        },
        None => None,
    }
}

/// The value of `name` in `reg query` output.
pub fn reg_value(text: &str, name: &str) -> (r: Option<String>)
    ensures
        opt_view(r) == reg_value_of(lines_of(text@), name@),
{
    let lines = text_lines(text);
    let ghost lv = string_seqs(lines@);
    let mut i: usize = 0;
    assert(lv.skip(0) =~= lv);
    while i < lines.len()
        invariant
            i <= lines@.len(),
            lv == string_seqs(lines@),
            lv == lines_of(text@),
            reg_value_of(lv.skip(i as int), name@) == reg_value_of(lv, name@),
        decreases lines@.len() - i,
    {
        assert(lv[i as int] == lines@[i as int]@);
        assert(lv.skip(i as int)[0] == lv[i as int]);
        assert(lv.skip(i as int).drop_first() =~= lv.skip(i + 1));
        let v = line_reg_value(lines[i].as_str(), name);
        if v.is_some() {
            return v;
        }
        i = i + 1;
    }
    assert(lv.skip(i as int) =~= Seq::<Seq<char>>::empty());
    None
}

/// The first non-empty value of `name` (an empty value is passed over).
pub open spec fn reg_first_value(lines: Seq<Seq<char>>, name: Seq<char>) -> Option<Seq<char>>
    decreases lines.len(),
{
    if lines.len() == 0 {
        None
    } else if reg_line(lines[0], name) matches Some(v) && v.len() > 0 {
        reg_line(lines[0], name)
    } else {
        reg_first_value(lines.drop_first(), name)
    }
}

/// A user environment variable from `reg query HKCU\Environment /v <name>`
/// output: the first non-empty value.
pub fn reg_user_env(text: &str, name: &str) -> (r: Option<String>)
    ensures
        opt_view(r) == reg_first_value(lines_of(text@), name@),
{
    let lines = text_lines(text);
    let ghost lv = string_seqs(lines@);
    assert(lv.skip(0) =~= lv);
    let mut i: usize = 0;
    while i < lines.len()
        invariant
            i <= lines@.len(),
            lv == string_seqs(lines@),
            lv == lines_of(text@),
            reg_first_value(lv.skip(i as int), name@) == reg_first_value(lv, name@),
        decreases lines@.len() - i,
    {
        assert(lv.skip(i as int)[0] == lines@[i as int]@);
        assert(lv.skip(i as int).drop_first() =~= lv.skip(i + 1));
        match line_reg_value(lines[i].as_str(), name) {
            Some(v) => {
                if !v.as_str().is_empty() {
                    return Some(v);
                }
            },
            None => {},
        }
        i = i + 1;
    }
    assert(lv.skip(i as int) =~= Seq::<Seq<char>>::empty());
    None
}

/// The last non-empty value of `name` in `reg query` output (every matching
/// line is read; an empty value leaves the previous one).
pub open spec fn reg_last_value(lines: Seq<Seq<char>>, name: Seq<char>) -> Option<Seq<char>>
    decreases lines.len(),
{
    if lines.len() == 0 {
        None
    } else {
        let before = reg_last_value(lines.drop_last(), name);
        match reg_line(lines.last(), name) {
            Some(v) => if v.len() > 0 {
                Some(v)
            } else {
                before
            },
            None => before,
        }
    }
}

/// The engine's HTTP token from `reg query HKCU\Environment` output.
pub fn reg_token(text: &str, name: &str) -> (r: Option<String>)
    ensures
        opt_view(r) == reg_last_value(lines_of(text@), name@),
{
    let lines = text_lines(text);
    let ghost lv = string_seqs(lines@);
    let mut found: Option<String> = None;
    let mut i: usize = 0;
    while i < lines.len()
        invariant
            i <= lines@.len(),
            lv == string_seqs(lines@),
            lv == lines_of(text@),
            opt_view(found) == reg_last_value(lv.take(i as int), name@),
        decreases lines@.len() - i,
    {
        assert(lv[i as int] == lines@[i as int]@);
        assert(lv.take(i + 1).drop_last() =~= lv.take(i as int));
        assert(lv.take(i + 1).last() == lv[i as int]);
        match line_reg_value(lines[i].as_str(), name) {
            Some(v) => {
                if !v.as_str().is_empty() {
                    found = Some(v);
                }
            },
            None => {},
        }
        i = i + 1;
    }
    assert(lv.take(lines@.len() as int) =~= lv);
    found
}

pub open spec fn opt_view(o: Option<String>) -> Option<Seq<char>> {
    match o {
        Some(s) => Some(s@),
        None => None,
    }
}

} // verus!
