//! How the actors are put together for one connection.

use super::mailbox::at_least_one;
use super::router::RouterActor;
use super::xmpp_egress::XmppEgressActor;
use super::xmpp_ingress::XmppIngressActor;
use crate::config::{ActorsConfig, KeepaliveConfig};
use crate::time::{Duration, NANOS_PER_MILLI, NANOS_PER_SEC};
use vstd::prelude::*;

verus! {

/// The actors of a connection and the mailboxes between them.
#[derive(Debug, Clone, Copy)]
pub struct ActorSupervisor {
    /// The places in the mailboxes of the router and of the way out.
    pub router_mailbox: usize,
    /// How long to wait from one ping to the next, where pings are sent.
    pub ping_interval: Option<Duration>,
    pub ingress: XmppIngressActor,
    pub router: RouterActor,
    pub egress: XmppEgressActor,
}

impl ActorSupervisor {
    /// The actors of a connection, as they are configured.
    pub fn new(config: &ActorsConfig, keepalive: &KeepaliveConfig) -> (r: Self)
        ensures
            r.router_mailbox == (if config.router_mailbox == 0 {
                1
            } else {
                config.router_mailbox
            }),
            match r.ping_interval {
                Some(d) => keepalive.enabled && d.nanos == (if keepalive.ping_interval_secs == 0 {
                    1
                } else {
                    keepalive.ping_interval_secs
                }) * NANOS_PER_SEC,
                None => !keepalive.enabled,
            },
            r.ingress.dedupe_ttl.nanos == config.dedupe_ttl_secs * NANOS_PER_SEC,
            r.router == (RouterActor {
                session_mailbox: config.session_mailbox,
                max_active_sessions: config.max_active_sessions,
                session_idle_ttl_secs: config.session_idle_ttl_secs,
                busy_retry_after_secs: config.busy_retry_after_secs,
                restart_backoff_min_ms: config.supervision.restart_backoff_min_ms,
                restart_backoff_max_ms: config.supervision.restart_backoff_max_ms,
                max_restarts_per_minute: config.supervision.max_restarts_per_minute,
            }),
            r.egress.wf(),
            r.egress.send_timeout.nanos == (if config.supervision.egress_send_timeout_ms == 0 {
                1
            } else {
                config.supervision.egress_send_timeout_ms
            }) * NANOS_PER_MILLI,
            r.egress.retry_backoff.nanos == config.supervision.egress_retry_backoff_ms
                * NANOS_PER_MILLI,
            r.egress.max_retries == config.supervision.egress_max_retries,
    {
        ActorSupervisor {
            router_mailbox: at_least_one(config.router_mailbox),
            ping_interval: if keepalive.enabled {
                Some(
                    Duration::from_secs(
                        if keepalive.ping_interval_secs == 0 {
                            1
                        } else {
                            keepalive.ping_interval_secs
                        },
                    ),
                )
            } else {
                None
            },
            ingress: XmppIngressActor::new(config.dedupe_ttl_secs),
            router: RouterActor::with_supervision(
                config.session_mailbox,
                config.max_active_sessions,
                config.session_idle_ttl_secs,
                config.busy_retry_after_secs,
                config.supervision.restart_backoff_min_ms,
                config.supervision.restart_backoff_max_ms,
                config.supervision.max_restarts_per_minute,
            ),
            egress: XmppEgressActor::new(
                config.supervision.egress_send_timeout_ms,
                config.supervision.egress_retry_backoff_ms,
                config.supervision.egress_max_retries,
            ),
        }
    }
}

} // verus!
