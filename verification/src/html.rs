use vstd::prelude::*;
use crate::text::{chars_of, string_of, push_chars, push_str};

verus! {

/// One character as HTML text.
pub open spec fn escape_char(c: char) -> Seq<char> {
    if c == '&' {
        "&amp;"@
    } else if c == '<' {
        "&lt;"@
    } else if c == '>' {
        "&gt;"@
    } else if c == '"' {
        "&quot;"@
    } else if c == '\'' {
        "&#39;"@
    } else {
        seq![c]
    }
}

/// Escapes `& < > " '` (the chain of `replace` calls, `&` first, amounts to
/// escaping each character on its own).
pub open spec fn html_escaped(s: Seq<char>) -> Seq<char>
    decreases s.len(),
{
    if s.len() == 0 {
        seq![]
    } else {
        html_escaped(s.drop_last()) + escape_char(s.last())
    }
}

pub fn push_escaped(out: &mut Vec<char>, s: &[char])
    ensures
        final(out)@ == old(out)@ + html_escaped(s@),
{
    let mut i: usize = 0;
    while i < s.len()
        invariant
            i <= s@.len(),
            out@ == old(out)@ + html_escaped(s@.take(i as int)),
        decreases s@.len() - i,
    {
        let c = s[i];
        assert(s@.take(i + 1).drop_last() =~= s@.take(i as int));
        if c == '&' {
            push_str(out, "&amp;");
        } else if c == '<' {
            push_str(out, "&lt;");
        } else if c == '>' {
            push_str(out, "&gt;");
        } else if c == '"' {
            push_str(out, "&quot;");
        } else if c == '\'' {
            push_str(out, "&#39;");
        } else {
            out.push(c);
        }
        i = i + 1;
        assert(out@ =~= old(out)@ + html_escaped(s@.take(i as int)));
    }
    assert(s@.take(s@.len() as int) =~= s@);
}

/// HTML-escapes a string.
pub fn html_escape(s: &str) -> (r: String)
    ensures
        r@ == html_escaped(s@),
{
    let c = chars_of(s);
    let mut out: Vec<char> = Vec::new();
    push_escaped(&mut out, c.as_slice());
    string_of(out.as_slice())
}

/// The complete HTML document around a title and a body fragment.
pub open spec fn page_text(title: Seq<char>, body: Seq<char>) -> Seq<char> {
    let t = html_escaped(title);
    "<!doctype html><html lang=\"pt-BR\"><head><meta charset=\"utf-8\"><meta name=\"viewport\" content=\"width=device-width,initial-scale=1\"><title>"@
        + t
        + " — FzComputerAI</title><style>body{font-family:system-ui,sans-serif;background:#0d1117;color:#e6edf3;margin:0;display:flex;justify-content:center;padding:40px 16px}main{max-width:520px;width:100%;background:#161b22;border:1px solid #30363d;border-radius:8px;padding:28px}h1{font-size:20px;margin:0 0 16px}code{background:#0d1117;padding:2px 6px;border-radius:4px;word-break:break-all}input[type=password]{width:100%;padding:10px;border-radius:6px;border:1px solid #30363d;background:#0d1117;color:#e6edf3;font-size:16px}button{background:#238636;color:#fff;border:0;padding:10px 18px;border-radius:6px;font-size:15px;cursor:pointer}a{color:#8b949e;margin-left:12px}.err{color:#f85149}.foot{color:#8b949e;font-size:12px;margin-top:20px}</style></head><body><main><h1>"@
        + t
        + "</h1>"@
        + body
        + "<p class=\"foot\">FzComputerAI — OAuth 2.1 (PKCE S256). A senha de autorização é definida na aba MCP &amp; Rede → HTTPS → OAuth.</p></main></body></html>"@
}

/// Wraps a body fragment into the styled page.
pub fn page(title: &str, body: &str) -> (r: String)
    ensures
        r@ == page_text(title@, body@),
{
    let tc = chars_of(title);
    let mut t: Vec<char> = Vec::new();
    push_escaped(&mut t, tc.as_slice());
    let mut out: Vec<char> = Vec::new();
    push_str(
        &mut out,
        "<!doctype html><html lang=\"pt-BR\"><head><meta charset=\"utf-8\"><meta name=\"viewport\" content=\"width=device-width,initial-scale=1\"><title>",
    );
    push_chars(&mut out, t.as_slice());
    push_str(
        &mut out,
        " — FzComputerAI</title><style>body{font-family:system-ui,sans-serif;background:#0d1117;color:#e6edf3;margin:0;display:flex;justify-content:center;padding:40px 16px}main{max-width:520px;width:100%;background:#161b22;border:1px solid #30363d;border-radius:8px;padding:28px}h1{font-size:20px;margin:0 0 16px}code{background:#0d1117;padding:2px 6px;border-radius:4px;word-break:break-all}input[type=password]{width:100%;padding:10px;border-radius:6px;border:1px solid #30363d;background:#0d1117;color:#e6edf3;font-size:16px}button{background:#238636;color:#fff;border:0;padding:10px 18px;border-radius:6px;font-size:15px;cursor:pointer}a{color:#8b949e;margin-left:12px}.err{color:#f85149}.foot{color:#8b949e;font-size:12px;margin-top:20px}</style></head><body><main><h1>",
    );
    push_chars(&mut out, t.as_slice());
    push_str(&mut out, "</h1>");
    push_str(&mut out, body);
    push_str(
        &mut out,
        "<p class=\"foot\">FzComputerAI — OAuth 2.1 (PKCE S256). A senha de autorização é definida na aba MCP &amp; Rede → HTTPS → OAuth.</p></main></body></html>",
    );
    assert(out@ =~= page_text(title@, body@));
    string_of(out.as_slice())
}


/// Escaped text holds no markup character: no `<`, `>`, `"` or `'`.
pub proof fn escaped_text_has_no_markup(s: Seq<char>)
    ensures
        forall|i: int| 0 <= i < html_escaped(s).len() ==> {
            let c = #[trigger] html_escaped(s)[i];
            c != '<' && c != '>' && c != '"' && c != '\''
        },
    decreases s.len(),
{
    if s.len() > 0 {
        escaped_text_has_no_markup(s.drop_last());
        let pre = html_escaped(s.drop_last());
        let e = escape_char(s.last());
        reveal_strlit("&amp;");
        reveal_strlit("&lt;");
        reveal_strlit("&gt;");
        reveal_strlit("&quot;");
        reveal_strlit("&#39;");
        assert forall|i: int| 0 <= i < html_escaped(s).len() implies {
            let c = #[trigger] html_escaped(s)[i];
            c != '<' && c != '>' && c != '"' && c != '\''
        } by {
            if i < pre.len() {
                assert(html_escaped(s)[i] == pre[i]);
            } else {
                assert(html_escaped(s)[i] == e[i - pre.len()]);
            }
        }
    }
}
} // verus!
