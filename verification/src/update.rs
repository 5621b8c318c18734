use vstd::prelude::*;
use vstd::utf8::encode_utf8;
use crate::text::{
    chars_of, string_of, push_str, push_chars, slice_chars, trim, trimmed, trim_str, split_on, split_chars,
    replace_all, replace_chars, suffix_within, tail_str, bytes_of, lemma_encode_utf8_append, utf8_len,
};
use crate::tunnel::{all_ascii_digits, digits_value};
use crate::json::{Json, JsonV, json_parse, json_parse_of, json_get_str, json_get_bool, get_str, get_bool};

verus! {

// ───────────────────────── versions ─────────────────────────

/// The leading run of ASCII digits.
pub open spec fn digit_prefix(s: Seq<char>) -> Seq<char>
    decreases s.len(),
{
    if s.len() > 0 && '0' <= s[0] <= '9' {
        seq![s[0]] + digit_prefix(s.drop_first())
    } else {
        seq![]
    }
}

/// A version segment's number: its leading digits, 0 when there are none or
/// they do not fit in a `u64`.
pub open spec fn segment_value(seg: Seq<char>) -> u64 {
    let d = digit_prefix(seg);
    if d.len() > 0 && digits_value(d) <= u64::MAX {
        digits_value(d) as u64
    } else {
        0
    }
}

pub open spec fn segment(parts: Seq<Seq<char>>, i: int) -> u64 {
    if 0 <= i < parts.len() {
        segment_value(parts[i])
    } else {
        0
    }
}

/// Major, minor and patch of a dotted version.
pub open spec fn version_parts(v: Seq<char>) -> (u64, u64, u64) {
    let p = split_on(v, "."@);
    (segment(p, 0), segment(p, 1), segment(p, 2))
}

/// Is `remote` a later version than `local` (by major, then minor, then patch)?
pub open spec fn newer(remote: Seq<char>, local: Seq<char>) -> bool {
    let (a0, a1, a2) = version_parts(remote);
    let (b0, b1, b2) = version_parts(local);
    a0 > b0 || (a0 == b0 && (a1 > b1 || (a1 == b1 && a2 > b2)))
}

proof fn lemma_digit_prefix_digits(s: Seq<char>)
    ensures
        all_ascii_digits(digit_prefix(s)),
        digit_prefix(s).len() <= s.len(),
        forall|i: int| 0 <= i < digit_prefix(s).len() ==> digit_prefix(s)[i] == s[i],
    decreases s.len(),
{
    if s.len() > 0 && '0' <= s[0] <= '9' {
        lemma_digit_prefix_digits(s.drop_first());
        let d = digit_prefix(s);
        assert forall|i: int| 0 <= i < d.len() implies '0' <= #[trigger] d[i] <= '9' && d[i] == s[i] by {
            if i > 0 {
                assert(d[i] == digit_prefix(s.drop_first())[i - 1]);
                assert(s.drop_first()[i - 1] == s[i]);
            }
        }
    }
}

fn segment_number(seg: &[char]) -> (r: u64)
    ensures
        r == segment_value(seg@),
{
    let mut n: usize = 0;
    assert(seg@.skip(0) =~= seg@);
    assert(seg@.take(0) =~= Seq::<char>::empty());
    while n < seg.len() && '0' <= seg[n] && seg[n] <= '9'
        invariant
            n <= seg@.len(),
            forall|i: int| 0 <= i < n ==> '0' <= #[trigger] seg@[i] <= '9',
            digit_prefix(seg@) == seg@.take(n as int) + digit_prefix(seg@.skip(n as int)),
        decreases seg@.len() - n,
    {
        assert(seg@.skip(n as int)[0] == seg@[n as int]);
        assert(seg@.skip(n as int).drop_first() =~= seg@.skip(n + 1));
        assert(seg@.take(n + 1) =~= seg@.take(n as int) + seq![seg@[n as int]]);
        n = n + 1;
    }
    assert(digit_prefix(seg@.skip(n as int)) =~= Seq::<char>::empty()) by {
        if n < seg@.len() {
            assert(seg@.skip(n as int)[0] == seg@[n as int]);
        }
    }
    assert(digit_prefix(seg@) =~= seg@.take(n as int));
    if n == 0 {
        return 0;
    }
    let ghost d = seg@.take(n as int);
    assert(all_ascii_digits(d)) by {
        assert forall|k: int| 0 <= k < d.len() implies '0' <= #[trigger] d[k] <= '9' by {
            assert(d[k] == seg@[k]);
        }
    }
    let mut v: u64 = 0;
    let mut i: usize = 0;
    assert(seg@.take(0) =~= Seq::<char>::empty());
    while i < n
        invariant
            i <= n <= seg@.len(),
            forall|k: int| 0 <= k < n ==> '0' <= #[trigger] seg@[k] <= '9',
            d == seg@.take(n as int),
            d == digit_prefix(seg@),
            d.len() > 0,
            all_ascii_digits(d),
            v as int == digits_value(seg@.take(i as int)),
        decreases n - i,
    {
        assert(seg@.take(i + 1).drop_last() =~= seg@.take(i as int));
        let dig = (seg[i] as u32 - 48) as u64;
        match v.checked_mul(10) {
            Some(m) => match m.checked_add(dig) {
                Some(x) => {
                    v = x;
                },
                None => {
                    proof {
                        lemma_prefix_value_grows(d, (i + 1) as int);
                        assert(d.take(i + 1) =~= seg@.take(i + 1));
                    }
                    return 0;
                },
            },
            None => {
                proof {
                    lemma_prefix_value_grows(d, (i + 1) as int);
                    assert(d.take(i + 1) =~= seg@.take(i + 1));
                    assert(digits_value(seg@.take(i + 1)) >= v * 10);
                }
                return 0;
            },
        }
        i = i + 1;
    }
    assert(seg@.take(n as int) =~= d);
    v
}

/// A longer run of digits is worth at least as much as its prefix.
proof fn lemma_prefix_value_grows(s: Seq<char>, k: int)
    requires
        0 <= k <= s.len(),
        all_ascii_digits(s),
    ensures
        digits_value(s.take(k)) <= digits_value(s),
        digits_value(s.take(k)) >= 0,
    decreases s.len() - k,
{
    if k < s.len() {
        lemma_prefix_value_grows(s, k + 1);
        assert(s.take(k + 1).drop_last() =~= s.take(k));
        assert('0' <= s[k] <= '9');
    } else {
        assert(s.take(k) =~= s);
        lemma_nonneg(s);
    }
}

proof fn lemma_nonneg(s: Seq<char>)
    requires
        all_ascii_digits(s),
    ensures
        digits_value(s) >= 0,
    decreases s.len(),
{
    if s.len() > 0 {
        assert(all_ascii_digits(s.drop_last())) by {
            assert forall|i: int| 0 <= i < s.drop_last().len() implies '0' <= #[trigger] s.drop_last()[i] <= '9' by {
                assert(s.drop_last()[i] == s[i]);
            }
        }
        lemma_nonneg(s.drop_last());
        assert('0' <= s[s.len() - 1] <= '9');
    }
}

fn parts_of(v: &str) -> (r: (u64, u64, u64))
    ensures
        r == version_parts(v@),
{
    let c = chars_of(v);
    let dot = chars_of(".");
    proof {
        reveal_strlit(".");
    }
    let p = split_chars(c.as_slice(), dot.as_slice());
    let ghost pv = p@.map_values(|x: Vec<char>| x@);
    let a = if p.len() > 0 {
        segment_number(p[0].as_slice())
    } else {
        0
    };
    let b = if p.len() > 1 {
        segment_number(p[1].as_slice())
    } else {
        0
    };
    let d = if p.len() > 2 {
        segment_number(p[2].as_slice())
    } else {
        0
    };
    (a, b, d)
}

/// Is `remote` a later version than `local`?
pub fn version_newer(remote: &str, local: &str) -> (r: bool)
    ensures
        r == newer(remote@, local@),
{
    let (a0, a1, a2) = parts_of(remote);
    let (b0, b1, b2) = parts_of(local);
    a0 > b0 || (a0 == b0 && (a1 > b1 || (a1 == b1 && a2 > b2)))
}

/// What the latest release means for this program.
#[derive(PartialEq, Eq, Structural, Clone, Copy, Debug)]
pub enum ReleaseCheck {
    /// A later version is published.
    Newer,
    /// The published one is older: never downgrade on one's own.
    Older,
    UpToDate,
}

/// The tag without its leading `v`s.
pub open spec fn strip_v(s: Seq<char>) -> Seq<char>
    decreases s.len(),
{
    if s.len() > 0 && s[0] == 'v' {
        strip_v(s.drop_first())
    } else {
        s
    }
}

pub open spec fn release_check_spec(tag: Seq<char>, current: Seq<char>) -> ReleaseCheck {
    let clean = strip_v(tag);
    if newer(clean, current) {
        ReleaseCheck::Newer
    } else if clean.len() > 0 && clean != current {
        ReleaseCheck::Older
    } else {
        ReleaseCheck::UpToDate
    }
}

/// Compares the latest release tag with the running version.
pub fn check_release(tag: &str, current: &str) -> (r: ReleaseCheck)
    ensures
        r == release_check_spec(tag@, current@),
{
    let c = chars_of(tag);
    let mut k: usize = 0;
    assert(c@.skip(0) =~= c@);
    while k < c.len() && c[k] == 'v'
        invariant
            k <= c@.len(),
            strip_v(c@.skip(k as int)) == strip_v(tag@),
            c@ == tag@,
        decreases c@.len() - k,
    {
        assert(c@.skip(k as int).drop_first() =~= c@.skip(k + 1));
        k = k + 1;
    }
    let clean_c = slice_chars(c.as_slice(), k, c.len());
    assert(clean_c@ =~= c@.skip(k as int));
    let clean = string_of(clean_c.as_slice());
    if version_newer(clean.as_str(), current) {
        ReleaseCheck::Newer
    } else if !clean.as_str().is_empty() && clean != current.to_owned() {
        ReleaseCheck::Older
    } else {
        ReleaseCheck::UpToDate
    }
}

// ───────────────────────── the engine's own report ─────────────────────────

/// What `cua-driver check-update --json` reports.
pub struct DriverInfo {
    pub current_version: String,
    pub latest_version: String,
    pub update_available: bool,
    pub release_notes_url: String,
    pub error: Option<String>,
}

pub open spec fn str_or_empty(o: Option<Seq<char>>) -> Seq<char> {
    match o {
        Some(s) => s,
        None => seq![],
    }
}

/// The report's fields, when the output (trimmed) is JSON.
pub open spec fn driver_info_spec(out: Seq<char>) -> Option<(Seq<char>, Seq<char>, bool, Seq<char>, Option<Seq<char>>)> {
    match json_parse_of(encode_utf8(trim(out))) {
        None => None,
        Some(v) => Some(
            (
                str_or_empty(json_get_str(v, "current_version"@)),
                str_or_empty(json_get_str(v, "latest_version"@)),
                match json_get_bool(v, "update_available"@) {
                    Some(b) => b,
                    None => false,
                },
                str_or_empty(json_get_str(v, "release_notes_url"@)),
                json_get_str(v, "error"@),
            ),
        ),
    }
}

fn str_field(v: &Json, key: &str) -> (r: String)
    ensures
        r@ == str_or_empty(json_get_str(v@, key@)),
{
    match get_str(v, key) {
        Some(s) => s.clone(),
        None => String::new(),
    }
}

/// Reads the engine's update report.
pub fn driver_info(out: &str) -> (r: Option<DriverInfo>)
    ensures
        match r {
            Some(d) => driver_info_spec(out@) == Some(
                (
                    d.current_version@,
                    d.latest_version@,
                    d.update_available,
                    d.release_notes_url@,
                    match d.error {
                        Some(e) => Some(e@),
                        None => None,
                    },
                ),
            ),
            None => driver_info_spec(out@) is None,
        },
{
    let t = trimmed(out);
    let b = bytes_of(t.as_str());
    let v = match json_parse(b.as_slice()) {
        Some(v) => v,
        None => {
            return None;
        },
    };
    let error = match get_str(&v, "error") {
        Some(e) => Some(e.clone()),
        None => None,
    };
    Some(DriverInfo {
        current_version: str_field(&v, "current_version"),
        latest_version: str_field(&v, "latest_version"),
        update_available: match get_bool(&v, "update_available") {
            Some(b) => b,
            None => false,
        },
        release_notes_url: str_field(&v, "release_notes_url"),
        error,
    })
}

// ───────────────────────── the engine installer ─────────────────────────

/// A release that may reach the command line: 1 to 32 digits and dots.
pub open spec fn release_ok(r: Seq<char>) -> bool {
    r.len() > 0 && encode_utf8(r).len() <= 32 && forall|i: int| 0 <= i < r.len() ==> ('0' <= #[trigger] r[i] <= '9'
        || r[i] == '.')
}

/// `'` doubled, for a single-quoted PowerShell string.
pub open spec fn ps_quoted(s: Seq<char>) -> Seq<char> {
    replace_all(s, "'"@, "''"@)
}

pub fn ps_quote(s: &str) -> (r: String)
    ensures
        r@ == ps_quoted(s@),
{
    let c = chars_of(s);
    let q = chars_of("'");
    let qq = chars_of("''");
    proof {
        reveal_strlit("'");
    }
    let out = replace_chars(c.as_slice(), q.as_slice(), qq.as_slice());
    string_of(out.as_slice())
}

/// The PowerShell command that runs the official engine installer: the
/// script shipped next to the program when a release is pinned, else the
/// online script, falling back to the shipped one (or rethrowing).
pub open spec fn installer_spec(no_autostart: bool, release: Seq<char>, embedded: Option<Seq<char>>) -> Seq<char> {
    let flag = if no_autostart {
        " -NoAutoStart"@
    } else {
        seq![]
    };
    let rel = if release_ok(release) {
        " -Release "@ + release
    } else {
        seq![]
    };
    match embedded {
        Some(p) if rel.len() > 0 => "& '"@ + ps_quoted(p) + "'"@ + rel + flag,
        _ => {
            let fallback = match embedded {
                Some(p) => " catch { & '"@ + ps_quoted(p) + "'"@ + rel + flag + " }"@,
                None => " catch { throw }"@,
            };
            "& { try { $s = Join-Path $env:TEMP 'cua-driver-install.ps1'; irm https://cua.ai/driver/install.ps1 -OutFile $s; & $s"@
                + rel + flag + " }"@ + fallback + " }"@
        },
    }
}

pub fn installer_command(no_autostart: bool, release: &str, embedded: Option<&str>) -> (r: String)
    ensures
        r@ == installer_spec(
            no_autostart,
            release@,
            match embedded {
                Some(p) => Some(p@),
                None => None,
            },
        ),
{
    let flag: &str = if no_autostart {
        " -NoAutoStart"
    } else {
        ""
    };
    proof {
        reveal_strlit("");
    }
    let rc = chars_of(release);
    let rb = bytes_of(release);
    let mut ok = rc.len() > 0 && rb.len() <= 32;
    let mut i: usize = 0;
    while i < rc.len()
        invariant
            i <= rc@.len(),
            rc@ == release@,
            rb@ == encode_utf8(release@),
            ok == (rc@.len() > 0 && rb@.len() <= 32 && forall|j: int| 0 <= j < i ==> ('0' <= #[trigger] rc@[j] <= '9'
                || rc@[j] == '.')),
        decreases rc@.len() - i,
    {
        if !(('0' <= rc[i] && rc[i] <= '9') || rc[i] == '.') {
            ok = false;
        }
        i = i + 1;
    }
    let mut rel: Vec<char> = Vec::new();
    if ok {
        push_str(&mut rel, " -Release ");
        push_str(&mut rel, release);
    }
    let ghost ev = match embedded {
        Some(p) => Some(p@),
        None => None,
    };
    let mut out: Vec<char> = Vec::new();
    match embedded {
        Some(p) => {
            if rel.len() > 0 {
                push_str(&mut out, "& '");
                push_str(&mut out, ps_quote(p).as_str());
                push_str(&mut out, "'");
                push_chars(&mut out, rel.as_slice());
                push_str(&mut out, flag);
                assert(out@ =~= installer_spec(no_autostart, release@, ev));
                return string_of(out.as_slice());
            }
        },
        None => {},
    }
    push_str(
        &mut out,
        "& { try { $s = Join-Path $env:TEMP 'cua-driver-install.ps1'; irm https://cua.ai/driver/install.ps1 -OutFile $s; & $s",
    );
    push_chars(&mut out, rel.as_slice());
    push_str(&mut out, flag);
    push_str(&mut out, " }");
    match embedded {
        Some(p) => {
            push_str(&mut out, " catch { & '");
            push_str(&mut out, ps_quote(p).as_str());
            push_str(&mut out, "'");
            push_chars(&mut out, rel.as_slice());
            push_str(&mut out, flag);
            push_str(&mut out, " }");
        },
        None => {
            push_str(&mut out, " catch { throw }");
        },
    }
    push_str(&mut out, " }");
    assert(out@ =~= installer_spec(no_autostart, release@, ev));
    string_of(out.as_slice())
}

// ───────────────────────── the debug console ─────────────────────────

/// The console holds at most this many bytes.
pub const LOG_MAX: usize = 65536;

/// The console after an entry: the entry trimmed (nothing when empty),
/// separated by a blank line, and the oldest text cut to keep at most
/// `LOG_MAX` bytes (at a character boundary).
pub open spec fn log_after(log: Seq<char>, entry: Seq<char>) -> Seq<char> {
    let e = trim(entry);
    if e.len() == 0 {
        log
    } else {
        let grown = if log.len() > 0 {
            log + "\n\n"@ + e
        } else {
            e
        };
        if encode_utf8(grown).len() > LOG_MAX {
            suffix_within(grown, LOG_MAX as nat)
        } else {
            grown
        }
    }
}

/// The longest suffix that fits in `max` bytes.
fn keep_last_bytes(s: &[char], max: usize) -> (r: Vec<char>)
    ensures
        r@ == suffix_within(s@, max as nat),
{
    let whole = string_of(s);
    let b = bytes_of(whole.as_str());
    let mut total: usize = b.len();
    let mut k: usize = 0;
    assert(s@.skip(0) =~= s@);
    while k < s.len() && total > max
        invariant
            k <= s@.len(),
            total == encode_utf8(s@.skip(k as int)).len(),
            suffix_within(s@.skip(k as int), max as nat) == suffix_within(s@, max as nat),
        decreases s@.len() - k,
    {
        let w = utf8_len(s[k]);
        proof {
            let rest = s@.skip(k as int);
            assert(rest =~= seq![s@[k as int]] + s@.skip(k + 1));
            lemma_encode_utf8_append(seq![s@[k as int]], s@.skip(k + 1));
            assert(rest.drop_first() =~= s@.skip(k + 1));
        }
        total = total - w;
        k = k + 1;
    }
    let out = slice_chars(s, k, s.len());
    proof {
        if k == s@.len() {
            assert(s@.skip(k as int) =~= Seq::<char>::empty());
        }
    }
    assert(out@ =~= s@.skip(k as int));
    out
}

/// Appends an entry to the debug console.
pub fn log_append(log: &mut String, entry: &str)
    ensures
        final(log)@ == log_after(old(log)@, entry@),
{
    let e = trimmed(entry);
    if e.as_str().is_empty() {
        return;
    }
    let mut g = chars_of(log.as_str());
    if g.len() > 0 {
        push_str(&mut g, "\n\n");
    }
    push_str(&mut g, e.as_str());
    let gb = bytes_of(string_of(g.as_slice()).as_str());
    if gb.len() > LOG_MAX {
        let kept = keep_last_bytes(g.as_slice(), LOG_MAX);
        *log = string_of(kept.as_slice());
    } else {
        *log = string_of(g.as_slice());
    }
}

proof fn lemma_suffix_within_fits(s: Seq<char>, max: nat)
    ensures
        encode_utf8(suffix_within(s, max)).len() <= max,
    decreases s.len(),
{
    if encode_utf8(s).len() <= max {
    } else if s.len() == 0 {
    } else {
        lemma_suffix_within_fits(s.drop_first(), max);
    }
}

/// The console never grows past `LOG_MAX` bytes: appending any entry to a
/// console within the limit leaves it within the limit.
pub proof fn console_stays_within_limit(log: Seq<char>, entry: Seq<char>)
    requires
        encode_utf8(log).len() <= LOG_MAX,
    ensures
        encode_utf8(log_after(log, entry)).len() <= LOG_MAX,
{
    let e = trim(entry);
    if e.len() > 0 {
        let grown = if log.len() > 0 {
            log + "\n\n"@ + e
        } else {
            e
        };
        lemma_suffix_within_fits(grown, LOG_MAX as nat);
    }
}

/// Version comparison is a strict order: no version is newer than itself,
/// of two versions at most one is newer than the other, and it is transitive.
pub proof fn newer_is_strict_order(a: Seq<char>, b: Seq<char>, c: Seq<char>)
    ensures
        !newer(a, a),
        newer(a, b) ==> !newer(b, a),
        newer(a, b) && newer(b, c) ==> newer(a, c),
{
}

/// The running version itself is never offered as an update, nor as an older
/// release.
pub proof fn same_release_is_up_to_date(tag: Seq<char>, current: Seq<char>)
    requires
        strip_v(tag) == current,
    ensures
        release_check_spec(tag, current) == ReleaseCheck::UpToDate,
{
    newer_is_strict_order(current, current, current);
}

} // verus!
