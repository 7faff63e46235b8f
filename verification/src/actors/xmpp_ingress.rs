//! Events on their way in from the transport: a message that comes twice is
//! let through once.

use super::types::{carried_id, conversation_of, Envelope};
use crate::ids::is_uuid_text;
use crate::text::{same, texts_come_apart};
use crate::time::{Duration, NANOS_PER_SEC};
use crate::xmpp::{bare, bare_jid, EventView, MessageView, XmppEvent};
use vstd::prelude::*;
use vstd::string::*;

verus! {

/// The settings of the way in.
#[derive(Debug, Clone, Copy)]
pub struct XmppIngressActor {
    pub dedupe_ttl: Duration,
}

/// A message that was let through, and when.
#[derive(Debug)]
pub struct RecentMessage {
    pub conversation_id: String,
    pub msg_id: String,
    pub seen_at: Duration,
}

/// The model of [`RecentMessage`].
pub ghost struct RecentView {
    pub conversation_id: Seq<char>,
    pub msg_id: Seq<char>,
    pub seen_at: Duration,
}

impl DeepView for RecentMessage {
    type V = RecentView;

    open spec fn deep_view(&self) -> RecentView {
        RecentView {
            conversation_id: self.conversation_id@,
            msg_id: self.msg_id@,
            seen_at: self.seen_at,
        }
    }
}

/// What a message is known by.
pub ghost struct KeyView {
    pub conversation_id: Seq<char>,
    pub msg_id: Seq<char>,
}

/// What a message is known by: its conversation and its identifier. Other
/// events, and messages without one, are not known.
pub open spec fn key_of(event: EventView) -> Option<KeyView> {
    match event {
        EventView::Message(m) => match m.id {
            Some(id) => if id.len() > 0 {
                Some(KeyView { conversation_id: bare(m.from), msg_id: id })
            } else {
                None
            },
            None => None,
        },
        _ => None,
    }
}

/// Whether a message was let through no longer ago than `ttl`.
pub open spec fn still_recent(r: RecentView, ttl: Duration, now: Duration) -> bool {
    now.nanos - r.seen_at.nanos <= ttl.nanos
}

/// The messages that were let through no longer ago than `ttl`.
pub open spec fn remembered(recent: Seq<RecentView>, ttl: Duration, now: Duration) -> Seq<
    RecentView,
>
    decreases recent.len(),
{
    if recent.len() == 0 {
        Seq::empty()
    } else if still_recent(recent.last(), ttl, now) {
        remembered(recent.drop_last(), ttl, now).push(recent.last())
    } else {
        remembered(recent.drop_last(), ttl, now)
    }
}

/// Whether a message is among those that were let through.
pub open spec fn known(recent: Seq<RecentView>, key: KeyView) -> bool {
    exists|i: int|
        0 <= i < recent.len() && (#[trigger] recent[i]).conversation_id == key.conversation_id
            && recent[i].msg_id == key.msg_id
}

/// Whether an event is a message that was let through already.
pub open spec fn is_duplicate(
    event: EventView,
    ttl: Duration,
    recent: Seq<RecentView>,
    now: Duration,
) -> bool {
    ttl.nanos > 0 && key_of(event) is Some && known(remembered(recent, ttl, now), key_of(event)->0)
}

/// What is remembered after an event.
pub open spec fn recent_after(
    event: EventView,
    ttl: Duration,
    recent: Seq<RecentView>,
    now: Duration,
) -> Seq<RecentView> {
    if ttl.nanos == 0 || key_of(event) is None {
        recent
    } else if is_duplicate(event, ttl, recent, now) {
        remembered(recent, ttl, now)
    } else {
        remembered(recent, ttl, now).push(
            RecentView {
                conversation_id: key_of(event)->0.conversation_id,
                msg_id: key_of(event)->0.msg_id,
                seen_at: now,
            },
        )
    }
}

fn dedupe_key(event: &XmppEvent) -> (r: Option<(String, String)>)
    ensures
        match r {
            Some(k) => key_of(event.deep_view()) == Some(
                KeyView { conversation_id: k.0@, msg_id: k.1@ },
            ),
            None => key_of(event.deep_view()) is None,
        },
{
    match event {
        XmppEvent::Message(msg) => match &msg.id {
            Some(id) => if id.as_str().is_empty() {
                None
            } else {
                Some((bare_jid(msg.from.as_str()), id.clone()))
            },
            None => None,
        },
        _ => None,
    }
}

fn forget_old(recent: &mut Vec<RecentMessage>, ttl: Duration, now: Duration)
    ensures
        final(recent).deep_view() == remembered(old(recent).deep_view(), ttl, now),
{
    let ghost all = recent.deep_view();
    let mut rest: Vec<RecentMessage> = Vec::new();
    std::mem::swap(&mut rest, recent);
    let ghost mut done: int = 0;
    let mut kept: Vec<RecentMessage> = Vec::new();
    assert(kept.deep_view() =~= remembered(all.take(0), ttl, now));
    assert(rest.deep_view() =~= all.skip(0));
    while rest.len() > 0
        invariant
            0 <= done <= all.len(),
            rest.deep_view() == all.skip(done),
            kept.deep_view() == remembered(all.take(done), ttl, now),
        decreases rest@.len(),
    {
        let ghost left = rest.deep_view();
        assert(left.len() == rest@.len());
        let first = rest.remove(0);
        assert(first.deep_view() == left[0]);
        assert(rest.deep_view() =~= left.remove(0));
        assert(rest.deep_view() =~= all.skip(done + 1));
        assert(all.take(done + 1).drop_last() =~= all.take(done));
        let recent_enough = now.nanos <= first.seen_at.nanos || now.nanos - first.seen_at.nanos
            <= ttl.nanos;
        if recent_enough {
            let ghost so_far = kept.deep_view();
            kept.push(first);
            assert(kept.deep_view() =~= so_far.push(left[0]));
        }
        proof {
            done = done + 1;
        }
    }
    assert(rest.deep_view().len() == rest@.len());
    assert(all.take(done) =~= all);
    *recent = kept;
}

fn is_known(recent: &Vec<RecentMessage>, conversation_id: &str, msg_id: &str) -> (r: bool)
    ensures
        r == known(
            recent.deep_view(),
            (KeyView { conversation_id: conversation_id@, msg_id: msg_id@ }),
        ),
{
    let ghost all = recent.deep_view();
    let mut i: usize = 0;
    while i < recent.len()
        invariant
            all == recent.deep_view(),
            0 <= i <= recent@.len(),
            forall|j: int|
                0 <= j < i ==> !((#[trigger] all[j]).conversation_id == conversation_id@
                    && all[j].msg_id == msg_id@),
        decreases recent@.len() - i,
    {
        assert(all[i as int].conversation_id == recent@[i as int].conversation_id@);
        assert(all[i as int].msg_id == recent@[i as int].msg_id@);
        if same(recent[i].conversation_id.as_str(), conversation_id) && same(
            recent[i].msg_id.as_str(),
            msg_id,
        ) {
            return true;
        }
        i = i + 1;
    }
    assert(all.len() == recent@.len());
    false
}

/// Whether an event is a message that was let through already; one that was
/// not is remembered.
pub fn should_drop_duplicate(
    event: &XmppEvent,
    dedupe_ttl: Duration,
    recent_msg_ids: &mut Vec<RecentMessage>,
    now: Duration,
) -> (r: bool)
    ensures
        r == is_duplicate(event.deep_view(), dedupe_ttl, old(recent_msg_ids).deep_view(), now),
        final(recent_msg_ids).deep_view() == recent_after(
            event.deep_view(),
            dedupe_ttl,
            old(recent_msg_ids).deep_view(),
            now,
        ),
{
    if dedupe_ttl.is_zero() {
        return false;
    }
    let key = match dedupe_key(event) {
        Some(k) => k,
        None => {
            return false;
        },
    };
    forget_old(recent_msg_ids, dedupe_ttl, now);
    let ghost kept = recent_msg_ids.deep_view();
    if is_known(recent_msg_ids, key.0.as_str(), key.1.as_str()) {
        return true;
    }
    let ghost added = RecentView { conversation_id: key.0@, msg_id: key.1@, seen_at: now };
    recent_msg_ids.push(
        RecentMessage { conversation_id: key.0, msg_id: key.1, seen_at: now },
    );
    assert(recent_msg_ids.deep_view() =~= kept.push(added));
    false
}

impl XmppIngressActor {
    /// The way in; with zero seconds every message is let through.
    pub fn new(dedupe_ttl_secs: u64) -> (r: Self)
        ensures
            r.dedupe_ttl.nanos == dedupe_ttl_secs * NANOS_PER_SEC,
    {
        XmppIngressActor { dedupe_ttl: Duration::from_secs(dedupe_ttl_secs) }
    }

    /// What the router gets for an event: its envelope, or nothing where it is
    /// a message that was let through already.
    pub fn run(&self, event: XmppEvent, recent_msg_ids: &mut Vec<RecentMessage>, now: Duration) -> (r:
        Option<Envelope>)
        ensures
            (r is None) == is_duplicate(
                event.deep_view(),
                self.dedupe_ttl,
                old(recent_msg_ids).deep_view(),
                now,
            ),
            r matches Some(e) ==> {
                &&& e.event == event
                &&& e.received_at_ms >= 0
                &&& e.conversation_id@ == conversation_of(event.deep_view())
                &&& match carried_id(event.deep_view()) {
                    Some(id) => e.correlation_id@ == id,
                    None => is_uuid_text(e.correlation_id@),
                }
            },
            final(recent_msg_ids).deep_view() == recent_after(
                event.deep_view(),
                self.dedupe_ttl,
                old(recent_msg_ids).deep_view(),
                now,
            ),
    {
        if should_drop_duplicate(&event, self.dedupe_ttl, recent_msg_ids, now) {
            None
        } else {
            Some(Envelope::from_xmpp_event(event))
        }
    }
}

// ---- laws --------------------------------------------------------------

proof fn lemma_remembered(recent: Seq<RecentView>, ttl: Duration, now: Duration, i: int)
    requires
        0 <= i < recent.len(),
        still_recent(recent[i], ttl, now),
    ensures
        remembered(recent, ttl, now).contains(recent[i]),
    decreases recent.len(),
{
    let before = remembered(recent.drop_last(), ttl, now);
    let after = remembered(recent, ttl, now);
    if i == recent.len() - 1 {
        assert(after[after.len() - 1] == recent[i]);
    } else {
        lemma_remembered(recent.drop_last(), ttl, now, i);
        let j = choose|j: int| 0 <= j < before.len() && before[j] == recent[i];
        assert(after[j] == recent[i]);
    }
}

proof fn lemma_nothing_is_made_up(recent: Seq<RecentView>, ttl: Duration, now: Duration, i: int)
    requires
        0 <= i < remembered(recent, ttl, now).len(),
    ensures
        recent.contains(remembered(recent, ttl, now)[i]),
        still_recent(remembered(recent, ttl, now)[i], ttl, now),
    decreases recent.len(),
{
    let before = remembered(recent.drop_last(), ttl, now);
    let it = remembered(recent, ttl, now)[i];
    if still_recent(recent.last(), ttl, now) && i == before.len() {
        assert(recent[recent.len() - 1] == it);
    } else {
        lemma_nothing_is_made_up(recent.drop_last(), ttl, now, i);
        let j = choose|j: int|
            0 <= j < recent.drop_last().len() && recent.drop_last()[j] == it;
        assert(recent[j] == it);
    }
}

/// A message that was just let through is not let through again within the
/// time to live, whichever resource sends it.
pub proof fn a_repeat_is_dropped(
    first: EventView,
    again: EventView,
    ttl: Duration,
    recent: Seq<RecentView>,
    then: Duration,
    now: Duration,
)
    requires
        ttl.nanos > 0,
        key_of(first) is Some,
        key_of(again) == key_of(first),
        !is_duplicate(first, ttl, recent, then),
        now.nanos - then.nanos <= ttl.nanos,
    ensures
        is_duplicate(again, ttl, recent_after(first, ttl, recent, then), now),
{
    let after = recent_after(first, ttl, recent, then);
    let i = after.len() - 1;
    lemma_remembered(after, ttl, now, i);
    let kept = remembered(after, ttl, now);
    let j = choose|j: int| 0 <= j < kept.len() && kept[j] == after[i];
    assert(kept[j].conversation_id == key_of(again)->0.conversation_id);
}

/// A message is dropped only where one with the same conversation and
/// identifier was let through within the time to live.
pub proof fn only_repeats_are_dropped(
    event: EventView,
    ttl: Duration,
    recent: Seq<RecentView>,
    now: Duration,
)
    requires
        is_duplicate(event, ttl, recent, now),
    ensures
        exists|i: int|
            0 <= i < recent.len() && still_recent(#[trigger] recent[i], ttl, now)
                && recent[i].conversation_id == key_of(event)->0.conversation_id && recent[i].msg_id
                == key_of(event)->0.msg_id,
{
    let kept = remembered(recent, ttl, now);
    let key = key_of(event)->0;
    let i = choose|i: int|
        0 <= i < kept.len() && (#[trigger] kept[i]).conversation_id == key.conversation_id
            && kept[i].msg_id == key.msg_id;
    lemma_nothing_is_made_up(recent, ttl, now, i);
    let j = choose|j: int| 0 <= j < recent.len() && recent[j] == kept[i];
    assert(still_recent(recent[j], ttl, now));
}

/// Events other than messages with an identifier always get in.
pub proof fn unknown_events_get_in(
    event: EventView,
    ttl: Duration,
    recent: Seq<RecentView>,
    now: Duration,
)
    requires
        key_of(event) is None || ttl.nanos == 0,
    ensures
        !is_duplicate(event, ttl, recent, now),
        recent_after(event, ttl, recent, now) == recent,
{
}

/// The same message from the same person, with the same identifier, is not let
/// through twice within the time to live, whichever of their resources sends
/// it; once that time is over it is.
pub proof fn a_repeated_message_is_dropped(
    a: MessageView,
    b: MessageView,
    person: Seq<char>,
    first: Seq<char>,
    second: Seq<char>,
    id: Seq<char>,
    ttl: Duration,
    then: Duration,
    now: Duration,
)
    requires
        a.from == person + seq!['/'] + first,
        b.from == person + seq!['/'] + second,
        !person.contains('/'),
        a.id == Some(id) && b.id == Some(id),
        id.len() > 0,
        ttl.nanos > 0,
        then.nanos <= now.nanos,
    ensures
        ({
            let seen = recent_after(EventView::Message(a), ttl, Seq::empty(), then);
            is_duplicate(EventView::Message(b), ttl, seen, now) <==> now.nanos - then.nanos
                <= ttl.nanos
        }),
{
    texts_come_apart(person, '/', first);
    texts_come_apart(person, '/', second);
    let none = Seq::<RecentView>::empty();
    assert(remembered(none, ttl, then).len() == 0);
    let seen = recent_after(EventView::Message(a), ttl, none, then);
    assert(seen =~= seq![RecentView { conversation_id: person, msg_id: id, seen_at: then }]);
    assert(seen.drop_last() =~= none);
    assert(remembered(seen.drop_last(), ttl, now).len() == 0);
    if now.nanos - then.nanos <= ttl.nanos {
        let kept = remembered(seen, ttl, now);
        assert(kept[0] == seen[0]);
        assert(kept[0].conversation_id == person && kept[0].msg_id == id);
    } else {
        assert(remembered(seen, ttl, now).len() == 0);
    }
}

/// A message from someone else, or with another identifier, is never dropped
/// for one that was seen.
pub proof fn different_messages_get_in(
    m: MessageView,
    person: Seq<char>,
    resource: Seq<char>,
    id: Seq<char>,
    recent: Seq<RecentView>,
    ttl: Duration,
    now: Duration,
)
    requires
        m.from == person + seq!['/'] + resource,
        !person.contains('/'),
        m.id == Some(id),
        forall|i: int|
            0 <= i < recent.len() ==> (#[trigger] recent[i]).conversation_id != person
                || recent[i].msg_id != id,
    ensures
        !is_duplicate(EventView::Message(m), ttl, recent, now),
{
    texts_come_apart(person, '/', resource);
    if is_duplicate(EventView::Message(m), ttl, recent, now) {
        only_repeats_are_dropped(EventView::Message(m), ttl, recent, now);
    }
}

/// What is remembered is what was seen within the time to live, all of it and
/// in its order.
pub proof fn the_recent_are_remembered(
    a: Seq<RecentView>,
    b: Seq<RecentView>,
    one: RecentView,
    ttl: Duration,
    now: Duration,
)
    ensures
        remembered(a + b, ttl, now) == remembered(a, ttl, now) + remembered(b, ttl, now),
        remembered(seq![one], ttl, now) == if now.nanos - one.seen_at.nanos <= ttl.nanos {
            seq![one]
        } else {
            Seq::empty()
        },
    decreases b.len(),
{
    assert(seq![one].drop_last() =~= Seq::empty());
    assert(remembered(seq![one].drop_last(), ttl, now).len() == 0);
    assert(remembered(seq![one], ttl, now) =~= if now.nanos - one.seen_at.nanos <= ttl.nanos {
        seq![one]
    } else {
        Seq::empty()
    });
    if b.len() > 0 {
        assert((a + b).drop_last() =~= a + b.drop_last());
        the_recent_are_remembered(a, b.drop_last(), one, ttl, now);
        assert(remembered(a + b, ttl, now) =~= remembered(a, ttl, now) + remembered(b, ttl, now));
    } else {
        assert(a + b =~= a);
        assert(remembered(b, ttl, now).len() == 0);
        assert(remembered(a, ttl, now) + remembered(b, ttl, now) =~= remembered(a, ttl, now));
    }
}

/// Only messages with an identifier can be repeats.
pub proof fn only_messages_can_repeat(
    event: EventView,
    ttl: Duration,
    recent: Seq<RecentView>,
    now: Duration,
)
    requires
        event matches EventView::Message(m) ==> m.id is None || m.id->0.len() == 0,
    ensures
        !is_duplicate(event, ttl, recent, now),
        recent_after(event, ttl, recent, now) == recent,
{
}

/// A message that is let through is remembered behind the others, at the time
/// when it came; a repeat is not remembered anew.
pub proof fn what_gets_in_is_remembered(
    m: MessageView,
    person: Seq<char>,
    resource: Seq<char>,
    id: Seq<char>,
    recent: Seq<RecentView>,
    ttl: Duration,
    now: Duration,
)
    requires
        m.from == person + seq!['/'] + resource,
        !person.contains('/'),
        m.id == Some(id),
        id.len() > 0,
        ttl.nanos > 0,
    ensures
        ({
            let event = EventView::Message(m);
            let after = recent_after(event, ttl, recent, now);
            if is_duplicate(event, ttl, recent, now) {
                after == remembered(recent, ttl, now)
            } else {
                after == remembered(recent, ttl, now).push(
                    RecentView { conversation_id: person, msg_id: id, seen_at: now },
                )
            }
        }),
{
    texts_come_apart(person, '/', resource);
}

} // verus!
