//! Risk monitoring of authentication.
//!
//! More than `MAX_CONSECUTIVE_FAILURES` consecutive failed authentications of
//! a credential within the last `RISK_WINDOW_SECS` make the risk High: the
//! credential is revoked and the agent must enroll a new one. Otherwise the
//! risk is Low.

use vstd::prelude::*;
use vstd::string::*;
use crate::clock::{self, valid_time};
use crate::entity::{agent, agent_credential, auth_event};
use crate::text::{self, opt_text};

verus! {

/// Risk level assessment result.
#[derive(Clone, Copy, Debug, PartialEq, Eq, Structural)]
pub enum RiskLevel {
    Low,
    High,
}

/// Consecutive authentication failures that are still tolerated.
pub const MAX_CONSECUTIVE_FAILURES: usize = 5;

/// Time window for checking recent auth events (1 hour).
pub const RISK_WINDOW_SECS: u64 = 3600;

/// The start of the window that ends at `now`.
pub open spec fn window_start(now: i64) -> int {
    now - RISK_WINDOW_SECS * 1000000
}

/// An event that the assessment of the credential looks at: about the agent
/// and the credential, and recorded after `since`.
pub open spec fn counts(e: auth_event::Model, agent_id: Seq<char>, credential_id: Seq<char>, since: int) -> bool {
    e.agent_id@ == agent_id && opt_text(e.credential_id) == Some(credential_id) && e.created_at > since
}

/// The failures among the events that count, from the newest one up to the
/// first success. `events` are newest first.
pub open spec fn failure_streak(
    events: Seq<auth_event::Model>,
    agent_id: Seq<char>,
    credential_id: Seq<char>,
    since: int,
) -> nat
    decreases events.len(),
{
    if events.len() == 0 {
        0
    } else if !counts(events[0], agent_id, credential_id, since) {
        failure_streak(events.drop_first(), agent_id, credential_id, since)
    } else if events[0].success {
        0
    } else {
        1 + failure_streak(events.drop_first(), agent_id, credential_id, since)
    }
}

/// The level for a streak of failures.
pub open spec fn level_for(streak: nat) -> RiskLevel {
    if streak > MAX_CONSECUTIVE_FAILURES {
        RiskLevel::High
    } else {
        RiskLevel::Low
    }
}

/// The reason recorded on a credential revoked after `n` failures.
pub open spec fn revoke_reason_for(n: nat) -> Seq<char> {
    "auto-revoked: "@ + text::decimal(n) + " consecutive auth failures"@
}

/// What an assessment decides: the level, the failures it counted, and the
/// rows to save when the credential is revoked.
pub struct RiskAssessment {
    pub level: RiskLevel,
    pub consecutive_failures: usize,
    pub revoked_credential: Option<agent_credential::Model>,
    pub flagged_agent: Option<agent::Model>,
}

/// Count the consecutive failures, newest first, among the events that count.
fn count_failures(events: &Vec<auth_event::Model>, agent_id: &str, credential_id: &str, since: i64) -> (r:
    usize)
    ensures
        r == failure_streak(events@, agent_id@, credential_id@, since as int),
{
    let mut n: usize = 0;
    let mut i: usize = 0;
    proof {
        assert(events@.subrange(0, events@.len() as int) =~= events@);
    }
    while i < events.len()
        invariant
            i <= events.len(),
            n <= i,
            n + failure_streak(
                events@.subrange(i as int, events@.len() as int),
                agent_id@,
                credential_id@,
                since as int,
            ) == failure_streak(events@, agent_id@, credential_id@, since as int),
        decreases events.len() - i,
    {
        let ghost rest = events@.subrange(i as int, events@.len() as int);
        proof {
            assert(rest[0] == events@[i as int]);
            assert(rest.drop_first() =~= events@.subrange(i + 1, events@.len() as int));
        }
        let e = &events[i];
        let relevant = match &e.credential_id {
            Some(c) => text::text_eq(e.agent_id.as_str(), agent_id) && text::text_eq(
                c.as_str(),
                credential_id,
            ) && e.created_at > since,
            None => false,
        };
        if relevant {
            if e.success {
                return n;
            }
            n = n + 1;
        }
        i = i + 1;
    }
    proof {
        assert(events@.subrange(events@.len() as int, events@.len() as int).len() == 0);
    }
    n
}

/// Assess the risk of an agent's credential at `now`. `events` are the
/// authentication events, newest first; `cred` and `agent` the credential and
/// the agent stored under the ids, if any. When the risk is High and the
/// credential is active, it is revoked and the agent flagged for re-authentication.
pub fn assess_risk(
    events: &Vec<auth_event::Model>,
    agent_id: &str,
    credential_id: &str,
    cred: Option<agent_credential::Model>,
    agent: Option<agent::Model>,
    now: i64,
) -> (r: RiskAssessment)
    requires
        valid_time(now),
        clock::TIME_MIN_MICROS <= window_start(now),
    ensures
        r.consecutive_failures == failure_streak(events@, agent_id@, credential_id@, window_start(now)),
        r.level == level_for(r.consecutive_failures as nat),
        r.revoked_credential is Some <==> (r.level == RiskLevel::High && (cred matches Some(c)
            && c.status == agent_credential::CredentialStatus::Active)),
        r.revoked_credential matches Some(v) ==> cred matches Some(c) && v == (agent_credential::Model {
            status: agent_credential::CredentialStatus::RiskRevoked,
            revoked_at: Some(now),
            ..v
        }) && opt_text(v.revoke_reason) == Some(revoke_reason_for(r.consecutive_failures as nat)) && v.id
            == c.id && v.agent_id == c.agent_id && v.public_key == c.public_key && v.public_key_fp
            == c.public_key_fp && v.instance_label == c.instance_label && v.issued_at == c.issued_at
            && v.last_used_at == c.last_used_at && v.replaced_by_id == c.replaced_by_id,
        r.flagged_agent is Some <==> (r.revoked_credential is Some && agent is Some),
        r.flagged_agent matches Some(a2) ==> agent matches Some(a) && a2 == (agent::Model {
            reauth_required: true,
            updated_at: now,
            ..a
        }),
{
    let since = now - (RISK_WINDOW_SECS as i64) * clock::MICROS_PER_SEC;
    let n = count_failures(events, agent_id, credential_id, since);
    if n <= MAX_CONSECUTIVE_FAILURES {
        return RiskAssessment {
            level: RiskLevel::Low,
            consecutive_failures: n,
            revoked_credential: None,
            flagged_agent: None,
        };
    }
    let revoked = match cred {
        Some(c) => {
            if c.status == agent_credential::CredentialStatus::Active {
                proof {
                    reveal_strlit("auto-revoked: ");
                    reveal_strlit(" consecutive auth failures");
                }
                let count = text::decimal_string(n);
                let mut v = c;
                v.status = agent_credential::CredentialStatus::RiskRevoked;
                v.revoke_reason = Some(
                    text::concat3("auto-revoked: ", count.as_str(), " consecutive auth failures"),
                );
                v.revoked_at = Some(now);
                Some(v)
            } else {
                None
            }
        },
        None => None,
    };
    let flagged = if revoked.is_some() {
        match agent {
            Some(a) => {
                let mut f = a;
                f.reauth_required = true;
                f.updated_at = now;
                Some(f)
            },
            None => None,
        }
    } else {
        None
    };
    RiskAssessment {
        level: RiskLevel::High,
        consecutive_failures: n,
        revoked_credential: revoked,
        flagged_agent: flagged,
    }
}

/// A success that counts, newer than every other event, ends the streak:
/// the risk is Low whatever came before.
pub proof fn success_resets_risk(
    e: auth_event::Model,
    older: Seq<auth_event::Model>,
    agent_id: Seq<char>,
    credential_id: Seq<char>,
    since: int,
)
    requires
        counts(e, agent_id, credential_id, since),
        e.success,
    ensures
        failure_streak(seq![e] + older, agent_id, credential_id, since) == 0,
        level_for(failure_streak(seq![e] + older, agent_id, credential_id, since)) == RiskLevel::Low,
{
    assert((seq![e] + older)[0] == e);
}

/// A failure that counts, newer than every other event, adds one to the streak.
pub proof fn failure_extends_streak(
    e: auth_event::Model,
    older: Seq<auth_event::Model>,
    agent_id: Seq<char>,
    credential_id: Seq<char>,
    since: int,
)
    requires
        counts(e, agent_id, credential_id, since),
        !e.success,
    ensures
        failure_streak(seq![e] + older, agent_id, credential_id, since) == 1 + failure_streak(
            older,
            agent_id,
            credential_id,
            since,
        ),
{
    assert((seq![e] + older)[0] == e);
    assert((seq![e] + older).drop_first() =~= older);
}

} // verus!
