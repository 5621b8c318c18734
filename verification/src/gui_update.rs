use vstd::prelude::*;
use crate::text::{push_str, string_of, string_seqs};
use crate::update::{ps_quote, ps_quoted};

verus! {

/// Steps joined by a separator: nothing, one step, or the steps before the
/// last joined, the separator and the last.
pub open spec fn joined(steps: Seq<Seq<char>>, sep: Seq<char>) -> Seq<char>
    decreases steps.len(),
{
    if steps.len() == 0 {
        Seq::empty()
    } else if steps.len() == 1 {
        steps[0]
    } else {
        joined(steps.drop_last(), sep) + sep + steps.last()
    }
}

/// The statement that marks the download as ready to install.
pub open spec fn mark_ready_step() -> Seq<char> {
    "New-Item -ItemType File -Force -Path (Join-Path $d 'ready.flag') | Out-Null"@
}

/// The statement that compares the published SHA-256 with the file's, and
/// throws when they differ.
pub open spec fn hash_check_step() -> Seq<char> {
    "if ($expected -ne $actual) { throw \"SHA256 nao confere: esperado $expected, obtido $actual\" }"@
}

/// The statements before the download: stop on any error, the directory,
/// the flags of the last attempt removed, the installer's path.
pub open spec fn update_head_steps(dir: Seq<char>) -> Seq<Seq<char>> {
    seq![
        "$ErrorActionPreference='Stop'"@,
        "$d = '"@ + ps_quoted(dir) + "'"@,
        "New-Item -ItemType Directory -Force -Path $d | Out-Null"@,
        "Remove-Item (Join-Path $d 'ready.flag'),(Join-Path $d 'error.flag') -Force -ErrorAction SilentlyContinue"@,
        "$t = Join-Path $d 'fzcomputerai-setup-windows-x64.exe'"@,
    ]
}

/// The guarded statements: the installer and its `.sha256` of the release
/// `tag`, both hashes, their comparison, and only then the ready flag.
pub open spec fn update_try_steps(tag: Seq<char>) -> Seq<Seq<char>> {
    seq![
        "Invoke-WebRequest -Uri 'https://github.com/RLuf/fzcomputerai/releases/download/"@ + ps_quoted(tag)
            + "/fzcomputerai-setup-windows-x64.exe' -OutFile $t -UseBasicParsing"@,
        "Invoke-WebRequest -Uri 'https://github.com/RLuf/fzcomputerai/releases/download/"@ + ps_quoted(tag)
            + "/fzcomputerai-setup-windows-x64.exe.sha256' -OutFile \"$t.sha256\" -UseBasicParsing"@,
        "$expected = ((Get-Content \"$t.sha256\" -TotalCount 1) -split '\\s+')[0].ToLower()"@,
        "$actual = (Get-FileHash -Path $t -Algorithm SHA256).Hash.ToLower()"@,
        hash_check_step(),
        mark_ready_step(),
    ]
}

/// What a failure does: the error flag with the message, and the installer
/// removed, so that a file whose hash was not confirmed never runs.
pub open spec fn update_catch_steps() -> Seq<Seq<char>> {
    seq![
        "Set-Content -Path (Join-Path $d 'error.flag') -Value $_.Exception.Message"@,
        "Remove-Item $t -Force -ErrorAction SilentlyContinue"@,
    ]
}

/// The PowerShell script that downloads the interface's installer of the
/// release `tag` into `dir`, checks its SHA-256 and marks it ready.
pub open spec fn gui_update_script_text(dir: Seq<char>, tag: Seq<char>) -> Seq<char> {
    joined(update_head_steps(dir), "; "@) + "; try { "@ + joined(update_try_steps(tag), "; "@) + " } catch { "@
        + joined(update_catch_steps(), "; "@) + " }"@
}

fn cat3(a: &str, b: &str, c: &str) -> (r: String)
    ensures
        r@ == a@ + b@ + c@,
{
    let mut out: Vec<char> = Vec::new();
    push_str(&mut out, a);
    push_str(&mut out, b);
    push_str(&mut out, c);
    string_of(out.as_slice())
}

fn push_joined(out: &mut Vec<char>, steps: &Vec<String>, sep: &str)
    ensures
        final(out)@ == old(out)@ + joined(string_seqs(steps@), sep@),
{
    let ghost s = string_seqs(steps@);
    let ghost start = out@;
    let mut i: usize = 0;
    while i < steps.len()
        invariant
            i <= steps@.len(),
            s == string_seqs(steps@),
            s.len() == steps@.len(),
            out@ == start + joined(s.take(i as int), sep@),
        decreases steps@.len() - i,
    {
        assert(s.take(i + 1).drop_last() =~= s.take(i as int));
        assert(s[i as int] == steps@[i as int]@);
        if i > 0 {
            push_str(out, sep);
        } else {
            assert(joined(s.take(0), sep@) =~= Seq::<char>::empty());
        }
        push_str(out, steps[i].as_str());
        assert(out@ =~= start + joined(s.take(i + 1), sep@));
        i = i + 1;
    }
    assert(s.take(steps@.len() as int) =~= s);
}

/// Builds the download script for the release `tag` into `dir`.
pub fn gui_update_script(dir: &str, tag: &str) -> (r: String)
    ensures
        r@ == gui_update_script_text(dir@, tag@),
{
    let qd = ps_quote(dir);
    let qt = ps_quote(tag);
    let mut head: Vec<String> = Vec::new();
    head.push("$ErrorActionPreference='Stop'".to_string());
    head.push(cat3("$d = '", qd.as_str(), "'"));
    head.push("New-Item -ItemType Directory -Force -Path $d | Out-Null".to_string());
    head.push(
        "Remove-Item (Join-Path $d 'ready.flag'),(Join-Path $d 'error.flag') -Force -ErrorAction SilentlyContinue".to_string(),
    );
    head.push("$t = Join-Path $d 'fzcomputerai-setup-windows-x64.exe'".to_string());
    let mut body: Vec<String> = Vec::new();
    body.push(
        cat3(
            "Invoke-WebRequest -Uri 'https://github.com/RLuf/fzcomputerai/releases/download/",
            qt.as_str(),
            "/fzcomputerai-setup-windows-x64.exe' -OutFile $t -UseBasicParsing",
        ),
    );
    body.push(
        cat3(
            "Invoke-WebRequest -Uri 'https://github.com/RLuf/fzcomputerai/releases/download/",
            qt.as_str(),
            "/fzcomputerai-setup-windows-x64.exe.sha256' -OutFile \"$t.sha256\" -UseBasicParsing",
        ),
    );
    body.push("$expected = ((Get-Content \"$t.sha256\" -TotalCount 1) -split '\\s+')[0].ToLower()".to_string());
    body.push("$actual = (Get-FileHash -Path $t -Algorithm SHA256).Hash.ToLower()".to_string());
    body.push(
        "if ($expected -ne $actual) { throw \"SHA256 nao confere: esperado $expected, obtido $actual\" }".to_string(),
    );
    body.push("New-Item -ItemType File -Force -Path (Join-Path $d 'ready.flag') | Out-Null".to_string());
    let mut fail: Vec<String> = Vec::new();
    fail.push("Set-Content -Path (Join-Path $d 'error.flag') -Value $_.Exception.Message".to_string());
    fail.push("Remove-Item $t -Force -ErrorAction SilentlyContinue".to_string());
    assert(string_seqs(head@) =~= update_head_steps(dir@));
    assert(string_seqs(body@) =~= update_try_steps(tag@));
    assert(string_seqs(fail@) =~= update_catch_steps());
    let mut out: Vec<char> = Vec::new();
    push_joined(&mut out, &head, "; ");
    push_str(&mut out, "; try { ");
    push_joined(&mut out, &body, "; ");
    push_str(&mut out, " } catch { ");
    push_joined(&mut out, &fail, "; ");
    push_str(&mut out, " }");
    string_of(out.as_slice())
}


/// The ready flag is written only after the hash check: in the guarded
/// block it is the last statement, right after the comparison that throws
/// on a mismatch (a throw skips the rest of the block), and no other
/// statement of the script writes it.
pub proof fn ready_only_after_hash_check(dir: Seq<char>, tag: Seq<char>)
    ensures
        update_try_steps(tag).len() == 6,
        update_try_steps(tag)[4] == hash_check_step(),
        update_try_steps(tag)[5] == mark_ready_step(),
        forall|i: int| 0 <= i < 5 ==> #[trigger] update_try_steps(tag)[i] != mark_ready_step(),
        forall|i: int| 0 <= i < update_head_steps(dir).len() ==> #[trigger] update_head_steps(dir)[i] != mark_ready_step(),
        forall|i: int| 0 <= i < update_catch_steps().len() ==> #[trigger] update_catch_steps()[i] != mark_ready_step(),
        gui_update_script_text(dir, tag) == joined(update_head_steps(dir), "; "@) + "; try { "@ + joined(
            update_try_steps(tag).take(4),
            "; "@,
        ) + "; "@ + hash_check_step() + "; "@ + mark_ready_step() + " } catch { "@ + joined(update_catch_steps(), "; "@)
            + " }"@,
{
    let m = mark_ready_step();
    let t = update_try_steps(tag);
    let h = update_head_steps(dir);
    let c = update_catch_steps();
    reveal_strlit("New-Item -ItemType File -Force -Path (Join-Path $d 'ready.flag') | Out-Null");
    reveal_strlit("Invoke-WebRequest -Uri 'https://github.com/RLuf/fzcomputerai/releases/download/");
    reveal_strlit("$expected = ((Get-Content \"$t.sha256\" -TotalCount 1) -split '\\s+')[0].ToLower()");
    reveal_strlit("$actual = (Get-FileHash -Path $t -Algorithm SHA256).Hash.ToLower()");
    reveal_strlit("if ($expected -ne $actual) { throw \"SHA256 nao confere: esperado $expected, obtido $actual\" }");
    reveal_strlit("$ErrorActionPreference='Stop'");
    reveal_strlit("$d = '");
    reveal_strlit("New-Item -ItemType Directory -Force -Path $d | Out-Null");
    reveal_strlit("Remove-Item (Join-Path $d 'ready.flag'),(Join-Path $d 'error.flag') -Force -ErrorAction SilentlyContinue");
    reveal_strlit("$t = Join-Path $d 'fzcomputerai-setup-windows-x64.exe'");
    reveal_strlit("Set-Content -Path (Join-Path $d 'error.flag') -Value $_.Exception.Message");
    reveal_strlit("Remove-Item $t -Force -ErrorAction SilentlyContinue");
    assert(t[0][0] != m[0]);
    assert(t[1][0] != m[0]);
    assert(t[2][0] != m[0]);
    assert(t[3][0] != m[0]);
    assert(t[4][0] != m[0]);
    assert(h[0][0] != m[0]);
    assert(h[1][0] != m[0]);
    assert(h[2].len() != m.len());
    assert(h[3][0] != m[0]);
    assert(h[4][0] != m[0]);
    assert(c[0][0] != m[0]);
    assert(c[1][0] != m[0]);
    assert(t.take(5).drop_last() =~= t.take(4));
    assert(t.take(6).drop_last() =~= t.take(5));
    assert(t.take(6) =~= t);
    assert(t.take(5).last() == hash_check_step());
    let sep = "; "@;
    assert(t.drop_last() =~= t.take(5));
    assert(joined(t, sep) == joined(t.take(5), sep) + sep + m);
    assert(joined(t.take(5), sep) == joined(t.take(4), sep) + sep + hash_check_step());
    assert(gui_update_script_text(dir, tag) =~= joined(h, sep) + "; try { "@ + joined(t.take(4), sep) + sep
        + hash_check_step() + sep + m + " } catch { "@ + joined(c, sep) + " }"@);
}

} // verus!
