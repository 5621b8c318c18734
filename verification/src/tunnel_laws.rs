use vstd::prelude::*;
use crate::tunnel::{TunnelSettingsV, TunnelProvider, apply_setting, saved_pairs, slug_of, provider_named, TunnelSettings, tunnel_command_spec};
use crate::text::{trim, words};

verus! {

/// One saved pair applied: its key read without the `tunnelcfg:` prefix.
#[verifier::opaque]
pub open spec fn apply_pair(t: TunnelSettingsV, pair: (Seq<char>, Seq<char>)) -> TunnelSettingsV {
    apply_setting(t, pair.0.skip(10), pair.1)
}

/// The settings after the saved pairs are applied in order.
pub open spec fn apply_saved(t: TunnelSettingsV, pairs: Seq<(Seq<char>, Seq<char>)>) -> TunnelSettingsV
    decreases pairs.len(),
{
    if pairs.len() == 0 {
        t
    } else {
        apply_saved(apply_pair(t, pairs[0]), pairs.drop_first())
    }
}

proof fn lemma_apply_saved_steps(p: Seq<(Seq<char>, Seq<char>)>, steps: Seq<TunnelSettingsV>)
    requires
        steps.len() == p.len() + 1,
        forall|i: int| 0 <= i < p.len() ==> steps[i + 1] == apply_pair(steps[i], #[trigger] p[i]),
    ensures
        apply_saved(steps[0], p) == steps[p.len() as int],
    decreases p.len(),
{
    if p.len() > 0 {
        assert(steps[1] == apply_pair(steps[0], p[0]));
        let rest = steps.drop_first();
        let q = p.drop_first();
        assert forall|i: int| 0 <= i < q.len() implies rest[i + 1] == apply_pair(rest[i], #[trigger] q[i]) by {
            assert(q[i] == p[i + 1]);
            assert(rest[i + 1] == steps[i + 2]);
            assert(rest[i] == steps[i + 1]);
        }
        lemma_apply_saved_steps(q, rest);
    }
}
proof fn lemma_read_provider(s: TunnelSettingsV, t: TunnelSettingsV)
    ensures
        apply_pair(s, ("tunnelcfg:provider"@, slug_of(t.provider))) == (TunnelSettingsV { provider: t.provider, ..s }),
{
    reveal(apply_pair);
    reveal_strlit("tunnelcfg:provider");
    reveal_strlit("provider");
    reveal_strlit("cf_token_file");
    reveal_strlit("public_url");
    reveal_strlit("ngrok_extra");
    reveal_strlit("ngrok_use_policy");
    reveal_strlit("ssh_target");
    reveal_strlit("ssh_remote_port");
    reveal_strlit("ssh_key");
    reveal_strlit("ssh_extra");
    reveal_strlit("cloudflare");
    reveal_strlit("ngrok");
    reveal_strlit("ssh");
    assert("cloudflare"@.len() == 10 && "ngrok"@.len() == 5 && "ssh"@.len() == 3);
    assert(provider_named(slug_of(t.provider)) == t.provider);
    assert("provider"@.len() == 8 && "cf_token_file"@.len() == 13 && "public_url"@.len() == 10);
    assert("ngrok_extra"@.len() == 11 && "ngrok_use_policy"@.len() == 16 && "ssh_target"@.len() == 10);
    assert("ssh_remote_port"@.len() == 15 && "ssh_key"@.len() == 7 && "ssh_extra"@.len() == 9);
    assert("public_url"@[0] != "ssh_target"@[0]);
    assert(("tunnelcfg:provider"@).skip(10) =~= "provider"@);
}
proof fn lemma_read_cf_token_file(s: TunnelSettingsV, t: TunnelSettingsV)
    ensures
        apply_pair(s, ("tunnelcfg:cf_token_file"@, t.cf_token_file)) == (TunnelSettingsV { cf_token_file: t.cf_token_file, ..s }),
{
    reveal(apply_pair);
    reveal_strlit("tunnelcfg:cf_token_file");
    reveal_strlit("provider");
    reveal_strlit("cf_token_file");
    reveal_strlit("public_url");
    reveal_strlit("ngrok_extra");
    reveal_strlit("ngrok_use_policy");
    reveal_strlit("ssh_target");
    reveal_strlit("ssh_remote_port");
    reveal_strlit("ssh_key");
    reveal_strlit("ssh_extra");
    assert("provider"@.len() == 8 && "cf_token_file"@.len() == 13 && "public_url"@.len() == 10);
    assert("ngrok_extra"@.len() == 11 && "ngrok_use_policy"@.len() == 16 && "ssh_target"@.len() == 10);
    assert("ssh_remote_port"@.len() == 15 && "ssh_key"@.len() == 7 && "ssh_extra"@.len() == 9);
    assert("public_url"@[0] != "ssh_target"@[0]);
    assert(("tunnelcfg:cf_token_file"@).skip(10) =~= "cf_token_file"@);
}
proof fn lemma_read_public_url(s: TunnelSettingsV, t: TunnelSettingsV)
    ensures
        apply_pair(s, ("tunnelcfg:public_url"@, t.public_url)) == (TunnelSettingsV { public_url: t.public_url, ..s }),
{
    reveal(apply_pair);
    reveal_strlit("tunnelcfg:public_url");
    reveal_strlit("provider");
    reveal_strlit("cf_token_file");
    reveal_strlit("public_url");
    reveal_strlit("ngrok_extra");
    reveal_strlit("ngrok_use_policy");
    reveal_strlit("ssh_target");
    reveal_strlit("ssh_remote_port");
    reveal_strlit("ssh_key");
    reveal_strlit("ssh_extra");
    assert("provider"@.len() == 8 && "cf_token_file"@.len() == 13 && "public_url"@.len() == 10);
    assert("ngrok_extra"@.len() == 11 && "ngrok_use_policy"@.len() == 16 && "ssh_target"@.len() == 10);
    assert("ssh_remote_port"@.len() == 15 && "ssh_key"@.len() == 7 && "ssh_extra"@.len() == 9);
    assert("public_url"@[0] != "ssh_target"@[0]);
    assert(("tunnelcfg:public_url"@).skip(10) =~= "public_url"@);
}
proof fn lemma_read_ngrok_extra(s: TunnelSettingsV, t: TunnelSettingsV)
    ensures
        apply_pair(s, ("tunnelcfg:ngrok_extra"@, t.ngrok_extra)) == (TunnelSettingsV { ngrok_extra: t.ngrok_extra, ..s }),
{
    reveal(apply_pair);
    reveal_strlit("tunnelcfg:ngrok_extra");
    reveal_strlit("provider");
    reveal_strlit("cf_token_file");
    reveal_strlit("public_url");
    reveal_strlit("ngrok_extra");
    reveal_strlit("ngrok_use_policy");
    reveal_strlit("ssh_target");
    reveal_strlit("ssh_remote_port");
    reveal_strlit("ssh_key");
    reveal_strlit("ssh_extra");
    assert("provider"@.len() == 8 && "cf_token_file"@.len() == 13 && "public_url"@.len() == 10);
    assert("ngrok_extra"@.len() == 11 && "ngrok_use_policy"@.len() == 16 && "ssh_target"@.len() == 10);
    assert("ssh_remote_port"@.len() == 15 && "ssh_key"@.len() == 7 && "ssh_extra"@.len() == 9);
    assert("public_url"@[0] != "ssh_target"@[0]);
    assert(("tunnelcfg:ngrok_extra"@).skip(10) =~= "ngrok_extra"@);
}
proof fn lemma_read_ngrok_use_policy(s: TunnelSettingsV, t: TunnelSettingsV)
    ensures
        apply_pair(s, ("tunnelcfg:ngrok_use_policy"@, if t.ngrok_use_policy { "1"@ } else { "0"@ })) == (TunnelSettingsV { ngrok_use_policy: t.ngrok_use_policy, ..s }),
{
    reveal(apply_pair);
    reveal_strlit("tunnelcfg:ngrok_use_policy");
    reveal_strlit("provider");
    reveal_strlit("cf_token_file");
    reveal_strlit("public_url");
    reveal_strlit("ngrok_extra");
    reveal_strlit("ngrok_use_policy");
    reveal_strlit("ssh_target");
    reveal_strlit("ssh_remote_port");
    reveal_strlit("ssh_key");
    reveal_strlit("ssh_extra");
    reveal_strlit("0");
    reveal_strlit("1");
    assert("1"@[0] == '1' && "0"@[0] == '0');
    assert("1"@ != "0"@);
    assert("provider"@.len() == 8 && "cf_token_file"@.len() == 13 && "public_url"@.len() == 10);
    assert("ngrok_extra"@.len() == 11 && "ngrok_use_policy"@.len() == 16 && "ssh_target"@.len() == 10);
    assert("ssh_remote_port"@.len() == 15 && "ssh_key"@.len() == 7 && "ssh_extra"@.len() == 9);
    assert("public_url"@[0] != "ssh_target"@[0]);
    assert(("tunnelcfg:ngrok_use_policy"@).skip(10) =~= "ngrok_use_policy"@);
}
proof fn lemma_read_ssh_target(s: TunnelSettingsV, t: TunnelSettingsV)
    ensures
        apply_pair(s, ("tunnelcfg:ssh_target"@, t.ssh_target)) == (if t.ssh_target.len() > 0 { TunnelSettingsV { ssh_target: t.ssh_target, ..s } } else { s }),
{
    reveal(apply_pair);
    reveal_strlit("tunnelcfg:ssh_target");
    reveal_strlit("provider");
    reveal_strlit("cf_token_file");
    reveal_strlit("public_url");
    reveal_strlit("ngrok_extra");
    reveal_strlit("ngrok_use_policy");
    reveal_strlit("ssh_target");
    reveal_strlit("ssh_remote_port");
    reveal_strlit("ssh_key");
    reveal_strlit("ssh_extra");
    assert("provider"@.len() == 8 && "cf_token_file"@.len() == 13 && "public_url"@.len() == 10);
    assert("ngrok_extra"@.len() == 11 && "ngrok_use_policy"@.len() == 16 && "ssh_target"@.len() == 10);
    assert("ssh_remote_port"@.len() == 15 && "ssh_key"@.len() == 7 && "ssh_extra"@.len() == 9);
    assert("public_url"@[0] != "ssh_target"@[0]);
    assert(("tunnelcfg:ssh_target"@).skip(10) =~= "ssh_target"@);
}
proof fn lemma_read_ssh_remote_port(s: TunnelSettingsV, t: TunnelSettingsV)
    ensures
        apply_pair(s, ("tunnelcfg:ssh_remote_port"@, t.ssh_remote_port)) == (if t.ssh_remote_port.len() > 0 { TunnelSettingsV { ssh_remote_port: t.ssh_remote_port, ..s } } else { s }),
{
    reveal(apply_pair);
    reveal_strlit("tunnelcfg:ssh_remote_port");
    reveal_strlit("provider");
    reveal_strlit("cf_token_file");
    reveal_strlit("public_url");
    reveal_strlit("ngrok_extra");
    reveal_strlit("ngrok_use_policy");
    reveal_strlit("ssh_target");
    reveal_strlit("ssh_remote_port");
    reveal_strlit("ssh_key");
    reveal_strlit("ssh_extra");
    assert("provider"@.len() == 8 && "cf_token_file"@.len() == 13 && "public_url"@.len() == 10);
    assert("ngrok_extra"@.len() == 11 && "ngrok_use_policy"@.len() == 16 && "ssh_target"@.len() == 10);
    assert("ssh_remote_port"@.len() == 15 && "ssh_key"@.len() == 7 && "ssh_extra"@.len() == 9);
    assert("public_url"@[0] != "ssh_target"@[0]);
    assert(("tunnelcfg:ssh_remote_port"@).skip(10) =~= "ssh_remote_port"@);
}
proof fn lemma_read_ssh_key(s: TunnelSettingsV, t: TunnelSettingsV)
    ensures
        apply_pair(s, ("tunnelcfg:ssh_key"@, t.ssh_key)) == (TunnelSettingsV { ssh_key: t.ssh_key, ..s }),
{
    reveal(apply_pair);
    reveal_strlit("tunnelcfg:ssh_key");
    reveal_strlit("provider");
    reveal_strlit("cf_token_file");
    reveal_strlit("public_url");
    reveal_strlit("ngrok_extra");
    reveal_strlit("ngrok_use_policy");
    reveal_strlit("ssh_target");
    reveal_strlit("ssh_remote_port");
    reveal_strlit("ssh_key");
    reveal_strlit("ssh_extra");
    assert("provider"@.len() == 8 && "cf_token_file"@.len() == 13 && "public_url"@.len() == 10);
    assert("ngrok_extra"@.len() == 11 && "ngrok_use_policy"@.len() == 16 && "ssh_target"@.len() == 10);
    assert("ssh_remote_port"@.len() == 15 && "ssh_key"@.len() == 7 && "ssh_extra"@.len() == 9);
    assert("public_url"@[0] != "ssh_target"@[0]);
    assert(("tunnelcfg:ssh_key"@).skip(10) =~= "ssh_key"@);
}
proof fn lemma_read_ssh_extra(s: TunnelSettingsV, t: TunnelSettingsV)
    ensures
        apply_pair(s, ("tunnelcfg:ssh_extra"@, t.ssh_extra)) == (TunnelSettingsV { ssh_extra: t.ssh_extra, ..s }),
{
    reveal(apply_pair);
    reveal_strlit("tunnelcfg:ssh_extra");
    reveal_strlit("provider");
    reveal_strlit("cf_token_file");
    reveal_strlit("public_url");
    reveal_strlit("ngrok_extra");
    reveal_strlit("ngrok_use_policy");
    reveal_strlit("ssh_target");
    reveal_strlit("ssh_remote_port");
    reveal_strlit("ssh_key");
    reveal_strlit("ssh_extra");
    assert("provider"@.len() == 8 && "cf_token_file"@.len() == 13 && "public_url"@.len() == 10);
    assert("ngrok_extra"@.len() == 11 && "ngrok_use_policy"@.len() == 16 && "ssh_target"@.len() == 10);
    assert("ssh_remote_port"@.len() == 15 && "ssh_key"@.len() == 7 && "ssh_extra"@.len() == 9);
    assert("public_url"@[0] != "ssh_target"@[0]);
    assert(("tunnelcfg:ssh_extra"@).skip(10) =~= "ssh_extra"@);
}
/// Saved settings are read back: applying the pairs that `t` is saved as, to
/// any settings `s`, gives `t`'s saved fields; an empty SSH target or remote
/// port keeps `s`'s, and the binaries, which are not saved, stay `s`'s.
pub proof fn saved_settings_read_back(s: TunnelSettingsV, t: TunnelSettingsV)
    ensures
        apply_saved(s, saved_pairs(t)) == (TunnelSettingsV {
            provider: t.provider,
            public_url: t.public_url,
            cf_bin: s.cf_bin,
            cf_token_file: t.cf_token_file,
            ngrok_bin: s.ngrok_bin,
            ngrok_use_policy: t.ngrok_use_policy,
            ngrok_extra: t.ngrok_extra,
            ssh_bin: s.ssh_bin,
            ssh_target: if t.ssh_target.len() > 0 { t.ssh_target } else { s.ssh_target },
            ssh_remote_port: if t.ssh_remote_port.len() > 0 { t.ssh_remote_port } else { s.ssh_remote_port },
            ssh_key: t.ssh_key,
            ssh_extra: t.ssh_extra,
        }),
{
    let p = saved_pairs(t);
    lemma_read_provider(s, t);
    let s1 = apply_pair(s, p[0]);
    lemma_read_cf_token_file(s1, t);
    let s2 = apply_pair(s1, p[1]);
    lemma_read_public_url(s2, t);
    let s3 = apply_pair(s2, p[2]);
    lemma_read_ngrok_extra(s3, t);
    let s4 = apply_pair(s3, p[3]);
    lemma_read_ngrok_use_policy(s4, t);
    let s5 = apply_pair(s4, p[4]);
    lemma_read_ssh_target(s5, t);
    let s6 = apply_pair(s5, p[5]);
    lemma_read_ssh_remote_port(s6, t);
    let s7 = apply_pair(s6, p[6]);
    lemma_read_ssh_key(s7, t);
    let s8 = apply_pair(s7, p[7]);
    lemma_read_ssh_extra(s8, t);
    let s9 = apply_pair(s8, p[8]);
    let steps = seq![s, s1, s2, s3, s4, s5, s6, s7, s8, s9];
    assert forall|i: int| 0 <= i < p.len() implies steps[i + 1] == apply_pair(steps[i], #[trigger] p[i]) by {
        if i == 0 {
        } else if i == 1 {
        } else if i == 2 {
        } else if i == 3 {
        } else if i == 4 {
        } else if i == 5 {
        } else if i == 6 {
        } else if i == 7 {
        } else {
        }
    }
    lemma_apply_saved_steps(p, steps);
}


/// The user's extra arguments close the command: for SSH, once the binary
/// and the target are given the command is made, and its arguments end with
/// the target followed by the words of `ssh_extra`, in order; for ngrok they
/// end with the words of `ngrok_extra`.
pub proof fn extra_arguments_close_the_command(t: TunnelSettings, port: u16, log: Seq<char>, policy: Option<Seq<char>>)
    ensures
        t.provider == TunnelProvider::Ssh && t.ssh_bin@.len() > 0 && trim(t.ssh_target@).len() > 0 ==> tunnel_command_spec(
            t,
            port,
            log,
            policy,
        ) is Ok,
        t.provider == TunnelProvider::Ssh ==> (tunnel_command_spec(t, port, log, policy) matches Ok((bin, args)) ==> {
            let w = words(t.ssh_extra@);
            &&& bin == t.ssh_bin@
            &&& args.len() >= w.len() + 1
            &&& args.skip(args.len() - w.len()) == w
            &&& args[args.len() - w.len() - 1] == trim(t.ssh_target@)
        }),
        t.provider == TunnelProvider::Ngrok ==> (tunnel_command_spec(t, port, log, policy) matches Ok((bin, args)) ==> {
            let w = words(t.ngrok_extra@);
            &&& bin == t.ngrok_bin@
            &&& args.len() >= w.len()
            &&& args.skip(args.len() - w.len()) == w
        }),
{
    if let Ok((bin, args)) = tunnel_command_spec(t, port, log, policy) {
        if t.provider == TunnelProvider::Ssh {
            let w = words(t.ssh_extra@);
            assert(args.skip(args.len() - w.len()) =~= w);
            assert(args[args.len() - w.len() - 1] == trim(t.ssh_target@));
        } else if t.provider == TunnelProvider::Ngrok {
            let w = words(t.ngrok_extra@);
            assert(args.skip(args.len() - w.len()) =~= w);
        }
    }
}

} // verus!
