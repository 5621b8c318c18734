use vstd::prelude::*;
use crate::tunnel::{tr, Language};

verus! {

/// The three honest states of the LAN rule's badge.
#[derive(PartialEq, Eq, Structural, Clone, Copy, Debug)]
pub enum PortproxyBadge {
    /// The rule exists and its listener is up (seen by netstat).
    Working,
    /// The rule exists but nothing listens on the LAN address.
    NoEffect,
    /// Nothing is set up for the address and port.
    NoRule,
}

/// Whether LAN forwarding exists at all: the program's own forwarding, or
/// (for an address that is not loopback) a netsh rule listed for it.
pub fn forwarding_exists(by_app: bool, lan_is_loopback: bool, rule_listed: bool) -> (r: bool)
    ensures
        r == (by_app || (!lan_is_loopback && rule_listed)),
{
    by_app || (!lan_is_loopback && rule_listed)
}

/// The badge: working only when the forwarding exists and its listener is
/// seen; a rule without a listener has no effect.
pub fn portproxy_badge(rule_present: bool, netstat_lan: bool) -> (r: PortproxyBadge)
    ensures
        r == (if rule_present && netstat_lan {
            PortproxyBadge::Working
        } else if rule_present {
            PortproxyBadge::NoEffect
        } else {
            PortproxyBadge::NoRule
        }),
{
    if rule_present && netstat_lan {
        PortproxyBadge::Working
    } else if rule_present {
        PortproxyBadge::NoEffect
    } else {
        PortproxyBadge::NoRule
    }
}

impl PortproxyBadge {
    /// The badge's text, in each language.
    pub open spec fn shown(self, lang: Language) -> Seq<char> {
        match (self, lang) {
            (PortproxyBadge::Working, Language::PtBr) => "REGRA FUNCIONANDO"@,
            (PortproxyBadge::Working, Language::English) => "RULE WORKING"@,
            (PortproxyBadge::NoEffect, Language::PtBr) => "REGRA SEM EFEITO"@,
            (PortproxyBadge::NoEffect, Language::English) => "RULE NOT EFFECTIVE"@,
            (PortproxyBadge::NoRule, Language::PtBr) => "SEM REGRA"@,
            (PortproxyBadge::NoRule, Language::English) => "NO RULE"@,
        }
    }

    pub fn label(self, lang: Language) -> (r: &'static str)
        ensures
            r@ == self.shown(lang),
    {
        match self {
            PortproxyBadge::Working => tr(lang, "REGRA FUNCIONANDO", "RULE WORKING"),
            PortproxyBadge::NoEffect => tr(lang, "REGRA SEM EFEITO", "RULE NOT EFFECTIVE"),
            PortproxyBadge::NoRule => tr(lang, "SEM REGRA", "NO RULE"),
        }
    }
}

/// Where applying the LAN forwarding stands.
#[derive(PartialEq, Eq, Structural, Clone, Copy, Debug)]
pub enum PortproxyState {
    /// The program tries to listen on the LAN address itself.
    BindingLan,
    /// The bind failed; the engine port that answers is being looked for.
    ConfirmingPort,
    /// The netsh rule list is read, before any change.
    CheckingRule { connect: u16 },
    /// No rule: netstat is asked whether something else listens there.
    CheckingListener { connect: u16 },
    /// `netsh ... add` was run directly.
    Adding { connect: u16 },
    /// `netsh ... add` was run elevated.
    AddingElevated { connect: u16 },
    /// The rule list is read again, the only proof that the rule is there.
    Verifying { connect: u16 },
    /// Finished.
    Done,
}

/// What the host saw after the last action.
#[derive(PartialEq, Eq, Structural, Clone, Copy, Debug)]
pub enum PortproxyEvent {
    /// Whether listening on the LAN address worked.
    LanBound { ok: bool },
    /// The engine port that answered MCP on loopback, if any.
    ConfirmedPort { port: Option<u16> },
    /// Whether `show v4tov4` lists the rule for the address and port.
    RuleListed { present: bool },
    /// Whether netstat shows a listener on the address and port.
    ListenerSeen { present: bool },
    /// Whether the `add` ended with exit 0.
    Added { ok: bool },
}

/// What the host does next.
#[derive(PartialEq, Eq, Structural, Clone, Copy, Debug)]
pub enum PortproxyAction {
    /// Listen on the LAN address and forward to the engine (no netsh, no admin).
    BindLan,
    /// Look for the engine port that answers on loopback.
    ConfirmPort,
    /// Read the netsh rule list.
    ListRule,
    /// Ask netstat for a listener on the address and port.
    CheckListener,
    /// Run `netsh interface portproxy add` to the port, directly.
    AddRule { connect: u16 },
    /// Run the same `add` elevated (UAC).
    AddElevated { connect: u16 },
    /// Record the confirmed rule as this program's, then stop: forwarding by netsh.
    RecordRule { connect: u16 },
    /// Stop: the program forwards by itself.
    LanForwarding,
    /// Stop: no engine port answers, so no rule is made.
    NoConfirmedPort,
    /// Stop: something else listens there; nothing is changed.
    ListenerInTheWay,
    /// Stop: the rule is not listed after the add.
    NotApplied,
}

/// The first step: try the program's own forwarding.
pub fn portproxy_start() -> (r: (PortproxyState, PortproxyAction))
    ensures
        r == (PortproxyState::BindingLan, PortproxyAction::BindLan),
{
    (PortproxyState::BindingLan, PortproxyAction::BindLan)
}

/// The next state and action, for each state and event: netsh only when the
/// program cannot listen on the LAN itself; a rule only to a confirmed port,
/// never over another listener, and counted only when listed afterwards.
pub open spec fn portproxy_step_spec(s: PortproxyState, e: PortproxyEvent) -> (PortproxyState, PortproxyAction) {
    match (s, e) {
        (PortproxyState::BindingLan, PortproxyEvent::LanBound { ok }) => if ok {
            (PortproxyState::Done, PortproxyAction::LanForwarding)
        } else {
            (PortproxyState::ConfirmingPort, PortproxyAction::ConfirmPort)
        },
        (PortproxyState::ConfirmingPort, PortproxyEvent::ConfirmedPort { port }) => match port {
            None => (PortproxyState::Done, PortproxyAction::NoConfirmedPort),
            Some(p) => (PortproxyState::CheckingRule { connect: p }, PortproxyAction::ListRule),
        },
        (PortproxyState::CheckingRule { connect }, PortproxyEvent::RuleListed { present }) => if present {
            (PortproxyState::Verifying { connect }, PortproxyAction::ListRule)
        } else {
            (PortproxyState::CheckingListener { connect }, PortproxyAction::CheckListener)
        },
        (PortproxyState::CheckingListener { connect }, PortproxyEvent::ListenerSeen { present }) => if present {
            (PortproxyState::Done, PortproxyAction::ListenerInTheWay)
        } else {
            (PortproxyState::Adding { connect }, PortproxyAction::AddRule { connect })
        },
        (PortproxyState::Adding { connect }, PortproxyEvent::Added { ok }) => if ok {
            (PortproxyState::Verifying { connect }, PortproxyAction::ListRule)
        } else {
            (PortproxyState::AddingElevated { connect }, PortproxyAction::AddElevated { connect })
        },
        (PortproxyState::AddingElevated { connect }, PortproxyEvent::Added { .. }) => (
            PortproxyState::Verifying { connect },
            PortproxyAction::ListRule,
        ),
        (PortproxyState::Verifying { connect }, PortproxyEvent::RuleListed { present }) => if present {
            (PortproxyState::Done, PortproxyAction::RecordRule { connect })
        } else {
            (PortproxyState::Done, PortproxyAction::NotApplied)
        },
        (_, _) => (PortproxyState::Done, PortproxyAction::NotApplied),
    }
}

/// One step of applying the LAN forwarding.
pub fn portproxy_step(s: PortproxyState, e: PortproxyEvent) -> (r: (PortproxyState, PortproxyAction))
    ensures
        r == portproxy_step_spec(s, e),
{
    match (s, e) {
        (PortproxyState::BindingLan, PortproxyEvent::LanBound { ok }) => if ok {
            (PortproxyState::Done, PortproxyAction::LanForwarding)
        } else {
            (PortproxyState::ConfirmingPort, PortproxyAction::ConfirmPort)
        },
        (PortproxyState::ConfirmingPort, PortproxyEvent::ConfirmedPort { port }) => match port {
            None => (PortproxyState::Done, PortproxyAction::NoConfirmedPort),
            Some(p) => (PortproxyState::CheckingRule { connect: p }, PortproxyAction::ListRule),
        },
        (PortproxyState::CheckingRule { connect }, PortproxyEvent::RuleListed { present }) => if present {
            (PortproxyState::Verifying { connect }, PortproxyAction::ListRule)
        } else {
            (PortproxyState::CheckingListener { connect }, PortproxyAction::CheckListener)
        },
        (PortproxyState::CheckingListener { connect }, PortproxyEvent::ListenerSeen { present }) => if present {
            (PortproxyState::Done, PortproxyAction::ListenerInTheWay)
        } else {
            (PortproxyState::Adding { connect }, PortproxyAction::AddRule { connect })
        },
        (PortproxyState::Adding { connect }, PortproxyEvent::Added { ok }) => if ok {
            (PortproxyState::Verifying { connect }, PortproxyAction::ListRule)
        } else {
            (PortproxyState::AddingElevated { connect }, PortproxyAction::AddElevated { connect })
        },
        (PortproxyState::AddingElevated { connect }, PortproxyEvent::Added { .. }) => (
            PortproxyState::Verifying { connect },
            PortproxyAction::ListRule,
        ),
        (PortproxyState::Verifying { connect }, PortproxyEvent::RuleListed { present }) => if present {
            (PortproxyState::Done, PortproxyAction::RecordRule { connect })
        } else {
            (PortproxyState::Done, PortproxyAction::NotApplied)
        },
        (_, _) => (PortproxyState::Done, PortproxyAction::NotApplied),
    }
}

/// An action that changes or records a netsh rule.
pub open spec fn touches_netsh(a: PortproxyAction) -> bool {
    match a {
        PortproxyAction::AddRule { .. } => true,
        PortproxyAction::AddElevated { .. } => true,
        PortproxyAction::RecordRule { .. } => true,
        _ => false,
    }
}

/// netsh is only the fallback: when the program's own bind works, the
/// answer is its own forwarding and the application is over.
pub proof fn netsh_only_when_bind_fails()
    ensures
        portproxy_step_spec(PortproxyState::BindingLan, PortproxyEvent::LanBound { ok: true }) == (
            PortproxyState::Done,
            PortproxyAction::LanForwarding,
        ),
        forall|e: PortproxyEvent| !touches_netsh(#[trigger] portproxy_step_spec(PortproxyState::Done, e).1),
{
}

/// A rule is added only when the rule list and netstat both said there is
/// nothing there, and it is added to the confirmed port it was found for;
/// it is recorded only after the list showed it.
pub proof fn rule_added_only_over_nothing(s: PortproxyState, e: PortproxyEvent)
    ensures
        portproxy_step_spec(s, e).1 matches PortproxyAction::AddRule { connect } ==> s
            == (PortproxyState::CheckingListener { connect }) && e == (PortproxyEvent::ListenerSeen { present: false }),
        portproxy_step_spec(s, e).1 matches PortproxyAction::RecordRule { connect } ==> s
            == (PortproxyState::Verifying { connect }) && e == (PortproxyEvent::RuleListed { present: true }),
{
}

} // verus!
