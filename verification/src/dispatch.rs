//! The shard dispatcher: consumes upstream events in order, keeps the cache
//! current, intercepts `READY` (storing its body, with the guild list
//! emptied, as the shard's template) and `RESUMED`, and hands every other
//! dispatch frame on for broadcast.

use vstd::prelude::*;

use crate::cache::{CacheUpdate, CacheUpdateModel, Guilds, GuildsModel};
use crate::deserializer::{
    skip_ws, string_end, value_end, lemma_skip_ws, lemma_string_end, lemma_value_end,
    spec_scan, EventTypeInfo, EventTypeModel, GatewayEventDeserializer, HeaderModel,
    SequenceInfo,
};
use crate::model::{ReadyTemplate, ReadyTemplateModel};

verus! {

/// What the bus carries for one live frame: its text and, when the frame had
/// one, its sequence number with its position.
pub type BroadcastMessage = (String, Option<SequenceInfo>);

// ---------------------------------------------------------------------------
// Finding one member's value at the top level of a JSON object.
// ---------------------------------------------------------------------------

/// The value span of the first member named `key` at the current level,
/// scanning members from `i` (just after `{` or a `,`).
pub open spec fn find_value(s: Seq<char>, i: int, key: Seq<char>) -> Option<(int, int)>
    decreases s.len() - i,
    via find_value_decreases
{
    if i < 0 {
        None
    } else {
        let i1 = skip_ws(s, i);
        if i1 >= s.len() || s[i1] != '"' {
            None
        } else {
            match string_end(s, i1 + 1) {
                None => None,
                Some(kend) => {
                    let i2 = skip_ws(s, kend);
                    if i2 >= s.len() || s[i2] != ':' {
                        None
                    } else {
                        let vstart = skip_ws(s, i2 + 1);
                        match value_end(s, vstart) {
                            None => None,
                            Some(vend) => {
                                if s.subrange(i1 + 1, kend - 1) == key {
                                    Some((vstart, vend))
                                } else {
                                    let i3 = skip_ws(s, vend);
                                    if i3 < s.len() && s[i3] == ',' {
                                        find_value(s, i3 + 1, key)
                                    } else {
                                        None
                                    }
                                }
                            },
                        }
                    }
                },
            }
        }
    }
}

#[via_fn]
proof fn find_value_decreases(s: Seq<char>, i: int, key: Seq<char>) {
    if i >= 0 {
        lemma_skip_ws(s, i);
        let i1 = skip_ws(s, i);
        if i1 < s.len() && s[i1] == '"' {
            lemma_string_end(s, i1 + 1);
            match string_end(s, i1 + 1) {
                None => {},
                Some(kend) => {
                    lemma_skip_ws(s, kend);
                    let i2 = skip_ws(s, kend);
                    if i2 < s.len() && s[i2] == ':' {
                        lemma_skip_ws(s, i2 + 1);
                        let vstart = skip_ws(s, i2 + 1);
                        lemma_value_end(s, vstart);
                        match value_end(s, vstart) {
                            None => {},
                            Some(vend) => {
                                lemma_skip_ws(s, vend);
                            },
                        }
                    }
                },
            }
        }
    }
}

pub(crate) fn span_eq(s: &str, a: usize, b: usize, pat: &str) -> (r: bool)
    requires
        a <= b <= s@.len(),
    ensures
        r == (s@.subrange(a as int, b as int) == pat@),
{
    let plen = pat.unicode_len();
    if b - a != plen {
        proof {
            assert(s@.subrange(a as int, b as int).len() != pat@.len());
        }
        return false;
    }
    let mut k: usize = 0;
    while k < plen
        invariant
            0 <= k <= plen,
            a <= b <= s@.len(),
            b - a == plen,
            plen == pat@.len(),
            forall|j: int| 0 <= j < k ==> s@.subrange(a as int, b as int)[j] == pat@[j],
        decreases plen - k,
    {
        let c1 = s.get_char(a + k);
        let c2 = pat.get_char(k);
        if c1 != c2 {
            proof {
                assert(s@.subrange(a as int, b as int)[k as int] == s@[a + k]);
            }
            return false;
        }
        proof {
            assert(s@.subrange(a as int, b as int)[k as int] == s@[a + k]);
        }
        k = k + 1;
    }
    proof {
        assert(s@.subrange(a as int, b as int) =~= pat@);
    }
    true
}

fn find_value_x(s: &str, i: usize, key: &str) -> (r: Option<(usize, usize)>)
    requires
        i <= s@.len(),
    ensures
        match r {
            Some(p) => find_value(s@, i as int, key@) == Some((p.0 as int, p.1 as int)) && i <= p.0
                <= p.1 <= s@.len(),
            None => find_value(s@, i as int, key@) is None,
        },
    decreases s@.len() - i,
{
    let i1 = crate::deserializer::skip_whitespace(s, i);
    if i1 >= s.unicode_len() || s.get_char(i1) != '"' {
        return None;
    }
    let kend = match crate::deserializer::string_close(s, i1 + 1) {
        None => {
            return None;
        },
        Some(j) => j,
    };
    let i2 = crate::deserializer::skip_whitespace(s, kend);
    if i2 >= s.unicode_len() || s.get_char(i2) != ':' {
        return None;
    }
    let vstart = crate::deserializer::skip_whitespace(s, i2 + 1);
    let vend = match crate::deserializer::value_close(s, vstart) {
        None => {
            return None;
        },
        Some(j) => j,
    };
    if span_eq(s, i1 + 1, kend - 1, key) {
        Some((vstart, vend))
    } else {
        let i3 = crate::deserializer::skip_whitespace(s, vend);
        if i3 < s.unicode_len() && s.get_char(i3) == ',' {
            find_value_x(s, i3 + 1, key)
        } else {
            None
        }
    }
}

// ---------------------------------------------------------------------------
// Building the READY template from the upstream READY frame.
// ---------------------------------------------------------------------------

pub open spec fn d_chars() -> Seq<char> {
    seq!['d']
}

pub open spec fn guilds_chars() -> Seq<char> {
    seq!['g', 'u', 'i', 'l', 'd', 's']
}

/// The opening of a template whose `guilds` member had to be added:
/// `{"guilds":[]`, with the empty array at position 10.
pub open spec fn empty_guilds_prefix() -> Seq<char> {
    seq!['{', '"', 'g', 'u', 'i', 'l', 'd', 's', '"', ':', '[', ']']
}

/// The `d` object of the upstream `READY`, with its `guilds` value replaced
/// by the empty array (or an empty `guilds` member added when the frame had
/// none): the shard's template. `None` when the frame does not carry a `d`
/// object this scan can take apart.
pub open spec fn spec_ready_template(frame: Seq<char>) -> Option<ReadyTemplateModel> {
    let i0 = skip_ws(frame, 0);
    if i0 >= frame.len() || frame[i0] != '{' {
        None
    } else {
        match find_value(frame, i0 + 1, d_chars()) {
            None => None,
            Some((ds, de)) => {
                if !(ds < de && frame[ds] == '{') {
                    None
                } else {
                    match find_value(frame, ds + 1, guilds_chars()) {
                        Some((gs, ge)) => {
                            if ge <= de {
                                Some(
                                    ReadyTemplateModel {
                                        body: frame.subrange(ds, gs) + seq!['[', ']']
                                            + frame.subrange(ge, de),
                                        guilds_at: gs - ds,
                                    },
                                )
                            } else {
                                None
                            }
                        },
                        None => {
                            let inner = skip_ws(frame, ds + 1);
                            if inner < de && frame[inner] == '}' {
                                Some(
                                    ReadyTemplateModel {
                                        body: empty_guilds_prefix() + seq!['}'],
                                        guilds_at: 10,
                                    },
                                )
                            } else {
                                Some(
                                    ReadyTemplateModel {
                                        body: empty_guilds_prefix() + seq![','] + frame.subrange(
                                            ds + 1,
                                            de,
                                        ),
                                        guilds_at: 10,
                                    },
                                )
                            }
                        },
                    }
                }
            },
        }
    }
}

/// Builds the shard's `READY` template from the raw upstream frame.
pub fn build_ready_template(frame: &str) -> (r: Option<ReadyTemplate>)
    ensures
        match r {
            Some(t) => spec_ready_template(frame@) == Some(t@) && t@.wf(),
            None => spec_ready_template(frame@) is None,
        },
{
    let i0 = crate::deserializer::skip_whitespace(frame, 0);
    if i0 >= frame.unicode_len() || frame.get_char(i0) != '{' {
        return None;
    }
    proof {
        reveal_strlit("d");
        assert("d"@ =~= d_chars());
        reveal_strlit("guilds");
        assert("guilds"@ =~= guilds_chars());
        reveal_strlit("{\"guilds\":[]");
        assert("{\"guilds\":[]"@ =~= empty_guilds_prefix());
        reveal_strlit("[]");
        reveal_strlit("}");
        reveal_strlit(",");
    }
    let (ds, de) = match find_value_x(frame, i0 + 1, "d") {
        None => {
            return None;
        },
        Some(p) => p,
    };
    if !(ds < de && frame.get_char(ds) == '{') {
        return None;
    }
    match find_value_x(frame, ds + 1, "guilds") {
        Some((gs, ge)) => {
            if ge <= de {
                let mut body = frame.substring_char(ds, gs).to_owned();
                body.append("[]");
                body.append(frame.substring_char(ge, de));
                let t = ReadyTemplate { body, guilds_at: gs - ds };
                proof {
                    assert(t@.body =~= frame@.subrange(ds as int, gs as int) + seq!['[', ']']
                        + frame@.subrange(ge as int, de as int));
                    assert(t@.body[t@.guilds_at] == '[');
                    assert(t@.body[t@.guilds_at + 1] == ']');
                }
                Some(t)
            } else {
                None
            }
        },
        None => {
            let inner = crate::deserializer::skip_whitespace(frame, ds + 1);
            if inner < de && frame.get_char(inner) == '}' {
                let mut body = String::from_str("{\"guilds\":[]");
                body.append("}");
                let t = ReadyTemplate { body, guilds_at: 10 };
                proof {
                    assert(t@.body =~= empty_guilds_prefix() + seq!['}']);
                    assert(t@.body[10] == '[');
                    assert(t@.body[11] == ']');
                }
                Some(t)
            } else {
                let mut body = String::from_str("{\"guilds\":[]");
                body.append(",");
                body.append(frame.substring_char(ds + 1, de));
                let t = ReadyTemplate { body, guilds_at: 10 };
                proof {
                    assert(t@.body =~= empty_guilds_prefix() + seq![','] + frame@.subrange(
                        ds + 1,
                        de as int,
                    ));
                    assert(t@.body[10] == '[');
                    assert(t@.body[11] == ']');
                }
                Some(t)
            }
        },
    }
}

// ---------------------------------------------------------------------------
// The dispatcher itself, as a state machine over upstream events.
// ---------------------------------------------------------------------------

/// One upstream event, as the dispatcher sees it: a typed cache update, or a
/// raw frame to scan and fan out.
pub enum GatewayEvent {
    Update(CacheUpdate),
    ShardPayload(String),
}

pub enum GatewayEventModel {
    Update(CacheUpdateModel),
    ShardPayload(Seq<char>),
}

impl View for GatewayEvent {
    type V = GatewayEventModel;

    open spec fn view(&self) -> GatewayEventModel {
        match self {
            GatewayEvent::Update(u) => GatewayEventModel::Update(u@),
            GatewayEvent::ShardPayload(p) => GatewayEventModel::ShardPayload(p@),
        }
    }
}

/// What the dispatcher does with one event.
pub enum DispatchAction {
    /// Publish the frame, with its sequence position, on the shard's bus.
    Broadcast(String, Option<SequenceInfo>),
    /// The frame was the upstream `READY`: its body was stored as the
    /// template, and the ready-latch is to be notified. Not broadcast.
    ReadyStored,
    /// Nothing to publish: a typed update, `RESUMED`, a non-dispatch op, or
    /// a frame the deserializer rejected.
    Swallowed,
}

pub enum DispatchActionModel {
    Broadcast(Seq<char>, Option<SequenceInfo>),
    ReadyStored,
    Swallowed,
}

impl View for DispatchAction {
    type V = DispatchActionModel;

    open spec fn view(&self) -> DispatchActionModel {
        match self {
            DispatchAction::Broadcast(p, si) => DispatchActionModel::Broadcast(p@, *si),
            DispatchAction::ReadyStored => DispatchActionModel::ReadyStored,
            DispatchAction::Swallowed => DispatchActionModel::Swallowed,
        }
    }
}

/// One shard's dispatcher state: its cache and its `READY` template.
pub struct ShardState {
    pub guilds: Guilds,
    pub ready: Option<ReadyTemplate>,
}

pub struct ShardStateModel {
    pub guilds: GuildsModel,
    pub ready: Option<ReadyTemplateModel>,
}

impl View for ShardState {
    type V = ShardStateModel;

    open spec fn view(&self) -> ShardStateModel {
        ShardStateModel {
            guilds: self.guilds@,
            ready: match self.ready {
                Some(ref t) => Some(t@),
                None => None,
            },
        }
    }
}

pub open spec fn ready_chars() -> Seq<char> {
    seq!['R', 'E', 'A', 'D', 'Y']
}

pub open spec fn resumed_chars() -> Seq<char> {
    seq!['R', 'E', 'S', 'U', 'M', 'E', 'D']
}

/// Whether the scanned header carries the event type `name`.
pub open spec fn header_is(h: HeaderModel, name: Seq<char>) -> bool {
    match h.event_type {
        Some(t) => t.name == name,
        None => false,
    }
}

/// The event type the dispatcher's scan finds in one upstream event: for a
/// raw frame, the `t` of its header; for a typed update or an unscannable
/// frame, none.
pub open spec fn spec_event_type(ev: GatewayEventModel) -> Option<EventTypeModel> {
    match ev {
        GatewayEventModel::Update(_) => None,
        GatewayEventModel::ShardPayload(p) => match spec_scan(p) {
            Ok(h) => h.event_type,
            Err(_) => None,
        },
    }
}

/// How the dispatcher treats one upstream event: the state it leaves behind
/// and the action it takes. The cache is transformed by `spec_update`
/// exactly once per typed update; the template is overwritten exactly when a
/// scanned frame carries `t == "READY"` and its `d` object can be taken
/// apart; `READY` and `RESUMED` are never broadcast; every other frame with
/// op 0 is broadcast unchanged.
pub open spec fn spec_handle(st: ShardStateModel, ev: GatewayEventModel) -> (
    ShardStateModel,
    DispatchActionModel,
) {
    match ev {
        GatewayEventModel::Update(u) => (
            ShardStateModel { guilds: st.guilds.spec_update(u), ready: st.ready },
            DispatchActionModel::Swallowed,
        ),
        GatewayEventModel::ShardPayload(p) => match spec_scan(p) {
            Err(_) => (st, DispatchActionModel::Swallowed),
            Ok(h) => {
                if header_is(h, ready_chars()) {
                    match spec_ready_template(p) {
                        None => (st, DispatchActionModel::Swallowed),
                        Some(t) => (
                            ShardStateModel { guilds: st.guilds, ready: Some(t) },
                            DispatchActionModel::ReadyStored,
                        ),
                    }
                } else if header_is(h, resumed_chars()) {
                    (st, DispatchActionModel::Swallowed)
                } else if h.op == 0 {
                    (st, DispatchActionModel::Broadcast(p, h.sequence))
                } else {
                    (st, DispatchActionModel::Swallowed)
                }
            },
        },
    }
}

impl ShardState {
    pub fn new(shard_id: u64) -> (r: ShardState)
        ensures
            r@.guilds == GuildsModel::empty(shard_id),
            r@.guilds.wf(),
            r@.ready is None,
    {
        ShardState { guilds: Guilds::new(shard_id), ready: None }
    }

    /// Consumes one upstream event: applies it to the cache (exactly once),
    /// intercepts `READY` and `RESUMED`, and reports what to broadcast,
    /// together with the scanned event type (for the per-event metric).
    pub fn handle_event(&mut self, event: GatewayEvent) -> (r: (
        DispatchAction,
        Option<EventTypeInfo>,
    ))
        requires
            old(self)@.guilds.wf(),
        ensures
            (final(self)@, r.0@) == spec_handle(old(self)@, event@),
            final(self)@.guilds.wf(),
            (match r.1 {
                Some(t) => Some(t@),
                None => None,
            }) == spec_event_type(event@),
    {
        match event {
            GatewayEvent::Update(u) => {
                self.guilds.update(u);
                (DispatchAction::Swallowed, None)
            },
            GatewayEvent::ShardPayload(p) => {
                let header = match GatewayEventDeserializer::from_json(p.as_str()) {
                    Err(_) => {
                        return (DispatchAction::Swallowed, None);
                    },
                    Ok(h) => h,
                };
                proof {
                    reveal_strlit("READY");
                    assert("READY"@ =~= ready_chars());
                    reveal_strlit("RESUMED");
                    assert("RESUMED"@ =~= resumed_chars());
                }
                let mut is_ready = false;
                let mut is_resumed = false;
                match &header.event_type {
                    Some(t) => {
                        is_ready = t.name == String::from_str("READY");
                        is_resumed = t.name == String::from_str("RESUMED");
                    },
                    None => {},
                }
                let event_type = header.event_type;
                if is_ready {
                    match build_ready_template(p.as_str()) {
                        None => (DispatchAction::Swallowed, event_type),
                        Some(t) => {
                            self.ready = Some(t);
                            (DispatchAction::ReadyStored, event_type)
                        },
                    }
                } else if is_resumed {
                    (DispatchAction::Swallowed, event_type)
                } else if header.op == 0 {
                    let sequence = header.sequence;
                    (DispatchAction::Broadcast(p, sequence), event_type)
                } else {
                    (DispatchAction::Swallowed, event_type)
                }
            },
        }
    }
}

// ---------------------------------------------------------------------------
// Laws about the dispatcher.
// ---------------------------------------------------------------------------

/// `READY`/`RESUMED` suppression, one step: whatever the dispatcher
/// broadcasts is a frame whose scanned event type is neither `READY` nor
/// `RESUMED`, is broadcast unchanged, and has op 0.
pub proof fn lemma_step_suppression(st: ShardStateModel, ev: GatewayEventModel)
    ensures
        match spec_handle(st, ev).1 {
            DispatchActionModel::Broadcast(p, si) => {
                &&& ev == GatewayEventModel::ShardPayload(p)
                &&& match spec_scan(p) {
                    Ok(h) => !header_is(h, ready_chars()) && !header_is(h, resumed_chars())
                        && h.op == 0 && si == h.sequence,
                    Err(_) => false,
                }
            },
            _ => true,
        },
{
}

/// The upstream connection stage, as the gateway driver reports it.
pub enum ConnectionStage {
    Connected,
    Disconnected,
    Handshaking,
    Identifying,
    Resuming,
    Other,
}

/// The metric value reported for each upstream stage; an unknown stage has
/// none (the reporter emits it as a non-number).
pub fn shard_status_code(stage: &ConnectionStage) -> (r: Option<u8>)
    ensures
        r == match stage {
            ConnectionStage::Disconnected => Some(0u8),
            ConnectionStage::Handshaking => Some(1u8),
            ConnectionStage::Identifying => Some(2u8),
            ConnectionStage::Resuming => Some(3u8),
            ConnectionStage::Connected => Some(4u8),
            ConnectionStage::Other => None::<u8>,
        },
{
    match stage {
        ConnectionStage::Disconnected => Some(0),
        ConnectionStage::Handshaking => Some(1),
        ConnectionStage::Identifying => Some(2),
        ConnectionStage::Resuming => Some(3),
        ConnectionStage::Connected => Some(4),
        ConnectionStage::Other => None,
    }
}

/// At-most-once identify, per step: the cache is transformed exactly once
/// per typed update and never by a raw frame, and the stored template
/// changes only when the event is an upstream `READY` whose body could be
/// taken apart — and is then exactly that body with its guild list emptied.
pub proof fn lemma_step_exactly_once(st: ShardStateModel, ev: GatewayEventModel)
    ensures
        ({
            let (st2, a) = spec_handle(st, ev);
            &&& (ev matches GatewayEventModel::Update(u) ==> st2.guilds == st.guilds.spec_update(u)
                && st2.ready == st.ready)
            &&& (ev matches GatewayEventModel::ShardPayload(p) ==> st2.guilds == st.guilds && (
            st2.ready != st.ready ==> a == DispatchActionModel::ReadyStored && st2.ready
                == spec_ready_template(p)))
        }),
{
}

/// The actions of a whole upstream trace, in order.
pub open spec fn run_trace(st: ShardStateModel, evs: Seq<GatewayEventModel>) -> Seq<
    DispatchActionModel,
>
    decreases evs.len(),
{
    if evs.len() == 0 {
        Seq::empty()
    } else {
        let step = spec_handle(st, evs[0]);
        seq![step.1] + run_trace(step.0, evs.drop_first())
    }
}

/// `READY`/`RESUMED` suppression over any upstream trace: no subscriber of
/// the bus ever receives a frame whose scanned `t` is `READY` or `RESUMED`.
pub proof fn lemma_trace_suppression(st: ShardStateModel, evs: Seq<GatewayEventModel>)
    ensures
        run_trace(st, evs).len() == evs.len(),
        forall|k: int|
            0 <= k < evs.len() ==> match #[trigger] run_trace(st, evs)[k] {
                DispatchActionModel::Broadcast(p, si) => match spec_scan(p) {
                    Ok(h) => !header_is(h, ready_chars()) && !header_is(h, resumed_chars())
                        && h.op == 0,
                    Err(_) => false,
                },
                _ => true,
            },
    decreases evs.len(),
{
    if evs.len() > 0 {
        let step = spec_handle(st, evs[0]);
        lemma_step_suppression(st, evs[0]);
        lemma_trace_suppression(step.0, evs.drop_first());
        assert forall|k: int| 0 <= k < evs.len() implies match #[trigger] run_trace(st, evs)[k] {
            DispatchActionModel::Broadcast(p, si) => match spec_scan(p) {
                Ok(h) => !header_is(h, ready_chars()) && !header_is(h, resumed_chars()) && h.op
                    == 0,
                Err(_) => false,
            },
            _ => true,
        } by {
            if k > 0 {
                assert(run_trace(st, evs)[k] == run_trace(step.0, evs.drop_first())[k - 1]);
            }
        }
    }
}

} // verus!
