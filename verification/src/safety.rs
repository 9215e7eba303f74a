//! Flash-safety assessment: which checks fail, in which order, and the warning
//! shown for them. (The quality measures are compared with their limits by
//! the caller; the assessment never modifies vehicle data.)

use crate::state::VehicleState;
use crate::text::{joined, push_joined, push_text, text_string, texts};
use vstd::prelude::*;

verus! {

/// Traffic samples needed before link quality can be certified.
pub const MIN_QUALITY_SAMPLES: u32 = 20;

/// One reason why ECU flashing is not recommended.
#[derive(Debug, Clone, Copy, PartialEq, Eq, Structural)]
pub enum SafetyIssue {
    /// The tunnel peer is not connected.
    PeerDisconnected,
    /// The vehicle ENET link is down.
    LinkDown,
    /// The vehicle appears asleep.
    Asleep,
    /// RTT p99 exceeds its limit.
    RttOverLimit,
    /// Packet loss exceeds its limit.
    LossOverLimit,
    /// Host CPU exceeds its limit.
    CpuOverLimit,
    /// Too few traffic samples to certify the link.
    FewSamples,
}

/// `x` as a one-element sequence when `cond` holds, else nothing.
pub open spec fn issue_if(cond: bool, x: SafetyIssue) -> Seq<SafetyIssue> {
    if cond {
        seq![x]
    } else {
        Seq::empty()
    }
}

/// The failing checks, in the order they are reported.
pub open spec fn issues_of(
    peer_connected: bool,
    link_up: bool,
    awake: bool,
    rtt_over_limit: bool,
    loss_over_limit: bool,
    cpu_over_limit: bool,
    rx_packets: u64,
    min_samples: u32,
) -> Seq<SafetyIssue> {
    issue_if(!peer_connected, SafetyIssue::PeerDisconnected) + issue_if(!link_up, SafetyIssue::LinkDown)
        + issue_if(!awake, SafetyIssue::Asleep) + issue_if(rtt_over_limit, SafetyIssue::RttOverLimit)
        + issue_if(loss_over_limit, SafetyIssue::LossOverLimit) + issue_if(
        cpu_over_limit,
        SafetyIssue::CpuOverLimit,
    ) + issue_if(rx_packets < min_samples, SafetyIssue::FewSamples)
}

fn push_issue_if(v: &mut Vec<SafetyIssue>, cond: bool, x: SafetyIssue)
    ensures
        final(v)@ == old(v)@ + issue_if(cond, x),
{
    if cond {
        v.push(x);
    }
    assert(v@ =~= old(v)@ + issue_if(cond, x));
}

/// The checks that fail for the given link, vehicle and host measures.
pub fn flash_safety_issues(
    peer_connected: bool,
    vehicle: &VehicleState,
    rtt_over_limit: bool,
    loss_over_limit: bool,
    cpu_over_limit: bool,
    rx_packets: u64,
    min_samples: u32,
) -> (issues: Vec<SafetyIssue>)
    ensures
        issues@ == issues_of(
            peer_connected,
            vehicle.link_up,
            vehicle.awake,
            rtt_over_limit,
            loss_over_limit,
            cpu_over_limit,
            rx_packets,
            min_samples,
        ),
{
    let mut v: Vec<SafetyIssue> = Vec::new();
    push_issue_if(&mut v, !peer_connected, SafetyIssue::PeerDisconnected);
    push_issue_if(&mut v, !vehicle.link_up, SafetyIssue::LinkDown);
    push_issue_if(&mut v, !vehicle.awake, SafetyIssue::Asleep);
    push_issue_if(&mut v, rtt_over_limit, SafetyIssue::RttOverLimit);
    push_issue_if(&mut v, loss_over_limit, SafetyIssue::LossOverLimit);
    push_issue_if(&mut v, cpu_over_limit, SafetyIssue::CpuOverLimit);
    push_issue_if(&mut v, rx_packets < min_samples as u64, SafetyIssue::FewSamples);
    assert(v@ =~= issues_of(
        peer_connected,
        vehicle.link_up,
        vehicle.awake,
        rtt_over_limit,
        loss_over_limit,
        cpu_over_limit,
        rx_packets,
        min_samples,
    ));
    v
}

impl SafetyIssue {
    /// The reason text of an issue that carries no measurement (`None` for
    /// the limits, whose text quotes the measured value).
    pub open spec fn fixed_text(self) -> Option<Seq<char>> {
        match self {
            SafetyIssue::PeerDisconnected => Some("Tunnel peer is not connected"@),
            SafetyIssue::LinkDown => Some("Vehicle ENET link is down"@),
            SafetyIssue::Asleep => Some("Vehicle appears asleep (no recent ENET activity)"@),
            SafetyIssue::FewSamples => Some("Insufficient traffic samples to certify link quality"@),
            _ => None,
        }
    }

    /// The reason text of an issue that carries no measurement.
    pub fn fixed_reason(self) -> (r: Option<&'static str>)
        ensures
            match r {
                Some(t) => self.fixed_text() == Some(t@),
                None => self.fixed_text() is None,
            },
    {
        match self {
            SafetyIssue::PeerDisconnected => Some("Tunnel peer is not connected"),
            SafetyIssue::LinkDown => Some("Vehicle ENET link is down"),
            SafetyIssue::Asleep => Some("Vehicle appears asleep (no recent ENET activity)"),
            SafetyIssue::FewSamples => Some("Insufficient traffic samples to certify link quality"),
            _ => None,
        }
    }
}

/// The warning shown with a assessment: reassurance when there is no reason,
/// otherwise every reason, joined with "; ".
pub open spec fn warning_text(reasons: Seq<Seq<char>>) -> Seq<char> {
    if reasons.len() == 0 {
        "Connection quality is within flash-safe thresholds. Proceed only if you accept the risk of remote flashing."@
    } else {
        "FLASHING NOT RECOMMENDED: "@ + joined(reasons, "; "@)
            + ". Do not start ECU programming until these are resolved."@
    }
}

/// The warning shown with a assessment.
pub fn safety_warning(reasons: &[String]) -> (w: String)
    ensures
        w@ == warning_text(texts(reasons@)),
{
    if reasons.len() == 0 {
        text_string(
            "Connection quality is within flash-safe thresholds. Proceed only if you accept the risk of remote flashing.",
        )
    } else {
        let mut w = text_string("FLASHING NOT RECOMMENDED: ");
        push_joined(&mut w, reasons, "; ");
        push_text(&mut w, ". Do not start ECU programming until these are resolved.");
        w
    }
}

/// The note added to the warning on a remote (relay / VPN) path.
pub open spec fn remote_note(safe: bool) -> Seq<char> {
    if safe {
        " Remote link: prefer WireGuard or same-LAN for ECU flashing whenever possible."@
    } else {
        " You are on a remote path (relay/VPN). Expect higher latency than LAN."@
    }
}

/// Adds the remote-path note to a warning when the link is remote.
pub fn add_remote_note(warning: &mut String, remote: bool, safe: bool)
    ensures
        final(warning)@ == (if remote {
            old(warning)@ + remote_note(safe)
        } else {
            old(warning)@
        }),
{
    if remote {
        if safe {
            push_text(
                warning,
                " Remote link: prefer WireGuard or same-LAN for ECU flashing whenever possible.",
            );
        } else {
            push_text(warning, " You are on a remote path (relay/VPN). Expect higher latency than LAN.");
        }
    }
}

/// Flashing is judged safe exactly when every check passes: peer connected,
/// link up, vehicle awake, no limit exceeded and enough samples.
pub proof fn lemma_safe_iff_all_checks_pass(
    peer_connected: bool,
    link_up: bool,
    awake: bool,
    rtt_over_limit: bool,
    loss_over_limit: bool,
    cpu_over_limit: bool,
    rx_packets: u64,
    min_samples: u32,
)
    ensures
        (issues_of(
            peer_connected,
            link_up,
            awake,
            rtt_over_limit,
            loss_over_limit,
            cpu_over_limit,
            rx_packets,
            min_samples,
        ).len() == 0) <==> (peer_connected && link_up && awake && !rtt_over_limit
            && !loss_over_limit && !cpu_over_limit && rx_packets >= min_samples),
{
}

/// Each check appears among the issues exactly when it fails.
pub proof fn lemma_issue_iff_check_fails(
    peer_connected: bool,
    link_up: bool,
    awake: bool,
    rtt_over_limit: bool,
    loss_over_limit: bool,
    cpu_over_limit: bool,
    rx_packets: u64,
    min_samples: u32,
)
    ensures
        ({
            let s = issues_of(
                peer_connected,
                link_up,
                awake,
                rtt_over_limit,
                loss_over_limit,
                cpu_over_limit,
                rx_packets,
                min_samples,
            );
            &&& s.contains(SafetyIssue::PeerDisconnected) <==> !peer_connected
            &&& s.contains(SafetyIssue::LinkDown) <==> !link_up
            &&& s.contains(SafetyIssue::Asleep) <==> !awake
            &&& s.contains(SafetyIssue::RttOverLimit) <==> rtt_over_limit
            &&& s.contains(SafetyIssue::LossOverLimit) <==> loss_over_limit
            &&& s.contains(SafetyIssue::CpuOverLimit) <==> cpu_over_limit
            &&& s.contains(SafetyIssue::FewSamples) <==> rx_packets < min_samples
        }),
{
    let a = issue_if(!peer_connected, SafetyIssue::PeerDisconnected);
    let b = issue_if(!link_up, SafetyIssue::LinkDown);
    let c = issue_if(!awake, SafetyIssue::Asleep);
    let d = issue_if(rtt_over_limit, SafetyIssue::RttOverLimit);
    let e = issue_if(loss_over_limit, SafetyIssue::LossOverLimit);
    let f = issue_if(cpu_over_limit, SafetyIssue::CpuOverLimit);
    let g = issue_if(rx_packets < min_samples, SafetyIssue::FewSamples);
    assert forall|x: SafetyIssue| (a + b + c + d + e + f + g).contains(x) <==> (a.contains(x)
        || b.contains(x) || c.contains(x) || d.contains(x) || e.contains(x) || f.contains(x)
        || g.contains(x)) by {
        lemma_contains_add(a, b, x);
        lemma_contains_add(a + b, c, x);
        lemma_contains_add(a + b + c, d, x);
        lemma_contains_add(a + b + c + d, e, x);
        lemma_contains_add(a + b + c + d + e, f, x);
        lemma_contains_add(a + b + c + d + e + f, g, x);
    }
    let s = a + b + c + d + e + f + g;
    assert(s == issues_of(
        peer_connected,
        link_up,
        awake,
        rtt_over_limit,
        loss_over_limit,
        cpu_over_limit,
        rx_packets,
        min_samples,
    ));
    let all = seq![
        SafetyIssue::PeerDisconnected,
        SafetyIssue::LinkDown,
        SafetyIssue::Asleep,
        SafetyIssue::RttOverLimit,
        SafetyIssue::LossOverLimit,
        SafetyIssue::CpuOverLimit,
        SafetyIssue::FewSamples,
    ];
    assert forall|k: int| 0 <= k < 7 implies {
        let x = #[trigger] all[k];
        &&& a.contains(x) <==> (!peer_connected && x == SafetyIssue::PeerDisconnected)
        &&& b.contains(x) <==> (!link_up && x == SafetyIssue::LinkDown)
        &&& c.contains(x) <==> (!awake && x == SafetyIssue::Asleep)
        &&& d.contains(x) <==> (rtt_over_limit && x == SafetyIssue::RttOverLimit)
        &&& e.contains(x) <==> (loss_over_limit && x == SafetyIssue::LossOverLimit)
        &&& f.contains(x) <==> (cpu_over_limit && x == SafetyIssue::CpuOverLimit)
        &&& g.contains(x) <==> (rx_packets < min_samples && x == SafetyIssue::FewSamples)
    } by {
        let x = all[k];
        lemma_issue_if_contains(!peer_connected, SafetyIssue::PeerDisconnected, x);
        lemma_issue_if_contains(!link_up, SafetyIssue::LinkDown, x);
        lemma_issue_if_contains(!awake, SafetyIssue::Asleep, x);
        lemma_issue_if_contains(rtt_over_limit, SafetyIssue::RttOverLimit, x);
        lemma_issue_if_contains(loss_over_limit, SafetyIssue::LossOverLimit, x);
        lemma_issue_if_contains(cpu_over_limit, SafetyIssue::CpuOverLimit, x);
        lemma_issue_if_contains(rx_packets < min_samples, SafetyIssue::FewSamples, x);
    }
    assert(all[0] == SafetyIssue::PeerDisconnected);
    assert(all[1] == SafetyIssue::LinkDown);
    assert(all[2] == SafetyIssue::Asleep);
    assert(all[3] == SafetyIssue::RttOverLimit);
    assert(all[4] == SafetyIssue::LossOverLimit);
    assert(all[5] == SafetyIssue::CpuOverLimit);
    assert(all[6] == SafetyIssue::FewSamples);
}

proof fn lemma_issue_if_contains(cond: bool, y: SafetyIssue, x: SafetyIssue)
    ensures
        issue_if(cond, y).contains(x) <==> (cond && x == y),
{
    if cond && x == y {
        assert(issue_if(cond, y)[0] == x);
    }
}

proof fn lemma_contains_add(s: Seq<SafetyIssue>, t: Seq<SafetyIssue>, x: SafetyIssue)
    ensures
        (s + t).contains(x) <==> (s.contains(x) || t.contains(x)),
{
    if (s + t).contains(x) {
        let i = choose|i: int| 0 <= i < (s + t).len() && (s + t)[i] == x;
        if i < s.len() {
            assert(s[i] == x);
        } else {
            assert(t[i - s.len()] == x);
        }
    }
    if s.contains(x) {
        let i = choose|i: int| 0 <= i < s.len() && s[i] == x;
        assert((s + t)[i] == x);
    }
    if t.contains(x) {
        let i = choose|i: int| 0 <= i < t.len() && t[i] == x;
        assert((s + t)[s.len() + i] == x);
    }
}

} // verus!
