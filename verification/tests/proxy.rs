use gateway_proxy::cache::{
    CacheUpdate, Event, EventName, Guilds, Payload,
};
use gateway_proxy::deserializer::{FrameError, GatewayEventDeserializer, SequenceInfo};
use gateway_proxy::dispatch::{build_ready_template, DispatchAction, GatewayEvent, ShardState};
use gateway_proxy::model::{
    CachedGuild, CachedMember, CachedVoiceState, Channel, ChannelKind, GuildDelete, ReadyTemplate,
    Role, User,
};
use gateway_proxy::serialize::payload_to_json;
use gateway_proxy::session::ClientSession;
use gateway_proxy::upgrade::{compute_accept_key, server_upgrade, UpgradeDecision};

fn guild(id: u64, name: &str, owner: u64, unavailable: bool) -> CachedGuild {
    CachedGuild {
        id,
        name: name.to_string(),
        owner_id: owner,
        permissions: None,
        member_count: Some(1),
        unavailable,
    }
}

fn channel(id: u64, guild_id: u64, kind: ChannelKind, name: &str) -> Channel {
    Channel { id, guild_id, kind, name: name.to_string() }
}

fn member(guild_id: u64, user_id: u64) -> CachedMember {
    CachedMember {
        guild_id,
        user_id,
        avatar: None,
        communication_disabled_until: None,
        deaf: false,
        flags: 0,
        joined_at: Some(1),
        mute: false,
        nick: None,
        pending: false,
        premium_since: None,
        roles: vec![],
    }
}

fn ready_frame() -> String {
    "{\"op\":0,\"t\":\"READY\",\"s\":1,\"d\":{\"v\":10,\"user\":{\"id\":\"1\"},\"guilds\":[]}}"
        .to_string()
}

fn template_from(frame: &str) -> ReadyTemplate {
    build_ready_template(frame).expect("frame carries a d object")
}

// Scenario: cold client, empty cache. One READY frame with s = 1 and the
// template body unchanged, then nothing.
#[test]
fn cold_client_empty_cache() {
    let cache = Guilds::new(0);
    let mut session = ClientSession::new(false);
    let frames = session.catch_up(&cache, template_from(&ready_frame()));
    assert_eq!(frames.len(), 1);
    let text = payload_to_json(&frames[0]);
    assert_eq!(
        text,
        "{\"op\":0,\"t\":\"READY\",\"s\":1,\"d\":{\"v\":10,\"user\":{\"id\":\"1\"},\"guilds\":[]}}"
    );
    assert_eq!(session.seq, 1);
}

// Scenario: one available guild with a channel, a thread, a role and a
// member; READY lists the guild stub, GUILD_CREATE carries the partition.
#[test]
fn one_available_guild() {
    let mut cache = Guilds::new(0);
    cache.update(CacheUpdate::GuildCreate(guild(42, "G", 7, false)));
    cache.update(CacheUpdate::ChannelCreate(channel(1, 42, ChannelKind::Text, "C1")));
    cache.update(CacheUpdate::ChannelCreate(channel(2, 42, ChannelKind::PublicThread, "T1")));
    cache.update(CacheUpdate::RoleCreate(Role {
        guild_id: 42,
        id: 9,
        name: "R1".to_string(),
        permissions: 0,
    }));
    cache.update(CacheUpdate::MemberAdd {
        member: member(42, 7),
        user: User { id: 7, name: "owner".to_string(), bot: false },
    });

    let mut session = ClientSession::new(false);
    let frames = session.catch_up(&cache, template_from(&ready_frame()));
    assert_eq!(frames.len(), 2);

    assert_eq!(frames[0].s, 1);
    assert_eq!(frames[0].t, EventName::Ready);
    match &frames[0].d {
        Event::Ready(re) => {
            assert_eq!(re.guilds.len(), 1);
            assert_eq!(re.guilds[0].id, 42);
        }
        _ => panic!("first frame must be READY"),
    }

    assert_eq!(frames[1].s, 2);
    assert_eq!(frames[1].t, EventName::GuildCreate);
    match &frames[1].d {
        Event::GuildCreate(g) => {
            assert_eq!(g.id, 42);
            assert_eq!(g.name, "G");
            assert_eq!(g.owner_id, 7);
            assert!(!g.unavailable);
            assert_eq!(g.channels.len(), 1);
            assert_eq!(g.channels[0].id, 1);
            assert_eq!(g.threads.len(), 1);
            assert_eq!(g.threads[0].id, 2);
            assert_eq!(g.roles.len(), 1);
            assert_eq!(g.roles[0].id, 9);
            assert_eq!(g.members.len(), 1);
            assert_eq!(g.members[0].user.id, 7);
        }
        _ => panic!("second frame must be GUILD_CREATE"),
    }
}

// Scenario: an unavailable guild replays as a GUILD_DELETE, byte for byte.
#[test]
fn unavailable_guild_replay() {
    let mut cache = Guilds::new(0);
    cache.update(CacheUpdate::GuildCreate(guild(99, "gone", 1, true)));
    let mut session = ClientSession::new(false);
    let frames = session.catch_up(&cache, template_from(&ready_frame()));
    assert_eq!(frames.len(), 2);
    let text = payload_to_json(&frames[1]);
    assert_eq!(
        text,
        "{\"op\":0,\"t\":\"GUILD_DELETE\",\"s\":2,\"d\":{\"id\":\"99\",\"unavailable\":true}}"
    );
}

// A GUILD_DELETE with unavailable=false removes the guild and everything
// scoped to it.
#[test]
fn guild_delete_removes() {
    let mut cache = Guilds::new(0);
    cache.update(CacheUpdate::GuildCreate(guild(5, "A", 1, false)));
    cache.update(CacheUpdate::ChannelCreate(channel(50, 5, ChannelKind::Text, "c")));
    cache.update(CacheUpdate::GuildDelete(GuildDelete { id: 5, unavailable: false }));
    let stats = cache.stats();
    assert_eq!(stats.guilds, 0);
    assert_eq!(stats.channels, 0);
}

// A GUILD_DELETE with unavailable=true only marks the guild.
#[test]
fn guild_delete_marks_unavailable() {
    let mut cache = Guilds::new(0);
    cache.update(CacheUpdate::GuildCreate(guild(5, "A", 1, false)));
    cache.update(CacheUpdate::GuildDelete(GuildDelete { id: 5, unavailable: true }));
    assert_eq!(cache.stats().guilds, 1);
    let mut seq = 0usize;
    let frames = cache.get_guild_payloads(&mut seq);
    assert_eq!(frames.len(), 1);
    assert_eq!(frames[0].t, EventName::GuildDelete);
}

// Scenario: sequence rewrite during the live phase. A client that consumed
// READY plus one guild (seq == 2) relays upstream frames with s 1000, 1001,
// 1002 as 3, 4, 5, all other bytes unchanged.
#[test]
fn sequence_rewrite() {
    let mut session = ClientSession::new(false);
    session.seq = 2;
    let mut expected = 3u64;
    for upstream_s in [1000u64, 1001, 1002] {
        let frame = format!("{{\"op\":0,\"t\":\"MESSAGE_CREATE\",\"s\":{},\"d\":{{}}}}", upstream_s);
        let header = GatewayEventDeserializer::from_json(&frame).unwrap();
        let (_, sequence, _) = header.into_parts();
        let info = sequence.expect("frame carries s");
        assert_eq!(info.value, upstream_s);
        let out = session.live_step(&frame, Some(&info));
        assert_eq!(
            out,
            format!("{{\"op\":0,\"t\":\"MESSAGE_CREATE\",\"s\":{},\"d\":{{}}}}", expected)
        );
        expected += 1;
    }
    assert_eq!(session.seq, 5);
}

// A frame without a sequence passes through the live phase unchanged.
#[test]
fn live_frame_without_sequence_unchanged() {
    let mut session = ClientSession::new(false);
    let out = session.live_step("{\"op\":11,\"s\":null,\"d\":null}", None);
    assert_eq!(out, "{\"op\":11,\"s\":null,\"d\":null}");
    assert_eq!(session.seq, 1);
}

// Scenario: a request whose Upgrade header is not "websocket" gets a 400.
#[test]
fn bad_upgrade_header() {
    let decision = server_upgrade(Some("h2c"), Some(b"abc".to_vec()), None);
    assert!(matches!(decision, UpgradeDecision::BadRequest));
}

#[test]
fn missing_headers_rejected() {
    assert!(matches!(server_upgrade(None, Some(b"abc".to_vec()), None), UpgradeDecision::BadRequest));
    assert!(matches!(server_upgrade(Some("websocket"), None, None), UpgradeDecision::BadRequest));
}

// Handshake accept key: the RFC 6455 sample key must produce the documented
// accept value; this exercises the real SHA-1 and base64 underneath.
#[test]
fn handshake_accept_key() {
    let key = b"dGhlIHNhbXBsZSBub25jZQ==".to_vec();
    assert_eq!(compute_accept_key(&key), "s3pPLMBiTxaQ9kYGzzhZRbK+xOo=");
    match server_upgrade(Some("websocket"), Some(key), Some("compress=zlib-stream")) {
        UpgradeDecision::Switching { accept_key, use_zlib } => {
            assert_eq!(accept_key, "s3pPLMBiTxaQ9kYGzzhZRbK+xOo=");
            assert!(use_zlib);
        }
        UpgradeDecision::BadRequest => panic!("handshake must succeed"),
    }
}

fn zlib_flag(query: Option<&str>) -> bool {
    match server_upgrade(Some("websocket"), Some(b"k".to_vec()), query) {
        UpgradeDecision::Switching { use_zlib, .. } => use_zlib,
        UpgradeDecision::BadRequest => panic!("handshake must succeed"),
    }
}

// Compression is requested iff the compress=zlib-stream parameter is
// present on the connect URL, wherever it stands among the parameters.
#[test]
fn zlib_for_present_parameter() {
    assert!(zlib_flag(Some("compress=zlib-stream")));
    assert!(zlib_flag(Some("v=10&encoding=json&compress=zlib-stream")));
    assert!(zlib_flag(Some("compress=zlib-stream&v=10")));
    assert!(!zlib_flag(Some("compress=gzip")));
    assert!(!zlib_flag(Some("v=10&encoding=json")));
    assert!(!zlib_flag(Some("xcompress=zlib-stream")));
    assert!(!zlib_flag(Some("compress=zlib-streamx")));
    assert!(!zlib_flag(Some("")));
    assert!(!zlib_flag(None));
}

// Scenario: a member whose user record is missing is omitted silently.
#[test]
fn member_with_missing_user_omitted() {
    let mut cache = Guilds::new(0);
    cache.update(CacheUpdate::GuildCreate(guild(1, "G", 9, false)));
    cache.members.push(member(1, 5));
    let members = cache.members_in_guild(1);
    assert_eq!(members.len(), 0);
    assert!(cache.member(1, 5).is_none());
}

// Replay completeness: the READY guild stub list has one entry per cached
// guild, each {id, unavailable: true}.
#[test]
fn ready_guilds_complete() {
    let mut cache = Guilds::new(0);
    for id in [3u64, 1, 2] {
        cache.update(CacheUpdate::GuildCreate(guild(id, "g", 1, id == 2)));
    }
    let mut seq = 0usize;
    let ready = cache.get_ready_payload(template_from(&ready_frame()), &mut seq);
    match &ready.d {
        Event::Ready(re) => {
            assert_eq!(re.guilds.len(), 3);
            let ids: Vec<u64> = re.guilds.iter().map(|g| g.id).collect();
            assert_eq!(ids, vec![3, 1, 2]);
        }
        _ => panic!("must be READY"),
    }
    let text = payload_to_json(&ready);
    assert!(text.contains("{\"id\":\"3\",\"unavailable\":true}"));
}

// Thread partition: channels and threads of a guild are disjoint and
// together cover the guild's channels; the kind flag separates them.
#[test]
fn thread_partition() {
    let mut cache = Guilds::new(0);
    cache.update(CacheUpdate::GuildCreate(guild(1, "G", 9, false)));
    cache.update(CacheUpdate::ChannelCreate(channel(1, 1, ChannelKind::Text, "a")));
    cache.update(CacheUpdate::ChannelCreate(channel(2, 1, ChannelKind::PublicThread, "b")));
    cache.update(CacheUpdate::ChannelCreate(channel(3, 1, ChannelKind::Voice, "c")));
    cache.update(CacheUpdate::ChannelCreate(channel(4, 1, ChannelKind::PrivateThread, "d")));
    cache.update(CacheUpdate::ChannelCreate(channel(5, 2, ChannelKind::Text, "other guild")));
    let plain = cache.channels_in_guild(1);
    let threads = cache.threads_in_guild(1);
    assert_eq!(plain.iter().map(|c| c.id).collect::<Vec<_>>(), vec![1, 3]);
    assert_eq!(threads.iter().map(|c| c.id).collect::<Vec<_>>(), vec![2, 4]);
    for c in &plain {
        assert!(!c.kind.is_thread());
    }
    for t in &threads {
        assert!(t.kind.is_thread());
    }
}

// Sequence monotonicity of the replay: s runs 1, 2, 3, ... without gap.
#[test]
fn replay_sequence_monotonic() {
    let mut cache = Guilds::new(0);
    for id in 1u64..=4 {
        cache.update(CacheUpdate::GuildCreate(guild(id, "g", 1, id % 2 == 0)));
    }
    let mut session = ClientSession::new(false);
    let frames = session.catch_up(&cache, template_from(&ready_frame()));
    let seqs: Vec<usize> = frames.iter().map(|p: &Payload| p.s).collect();
    assert_eq!(seqs, vec![1, 2, 3, 4, 5]);
}

// READY/RESUMED suppression and at-most-once template overwrite: the
// dispatcher stores READY without broadcasting, swallows RESUMED, and
// broadcasts every other dispatch frame unchanged.
#[test]
fn ready_resumed_suppressed() {
    let mut shard = ShardState::new(0);
    assert!(shard.ready.is_none());

    let (action, event_type) = shard.handle_event(GatewayEvent::ShardPayload(ready_frame()));
    assert!(matches!(action, DispatchAction::ReadyStored));
    assert_eq!(event_type.unwrap().name, "READY");
    let first_body = shard.ready.as_ref().unwrap().body.clone();
    assert_eq!(first_body, "{\"v\":10,\"user\":{\"id\":\"1\"},\"guilds\":[]}");

    let resumed = "{\"op\":0,\"t\":\"RESUMED\",\"s\":2,\"d\":null}".to_string();
    let (action, event_type) = shard.handle_event(GatewayEvent::ShardPayload(resumed));
    assert!(matches!(action, DispatchAction::Swallowed));
    assert_eq!(event_type.unwrap().name, "RESUMED");

    let live = "{\"op\":0,\"t\":\"MESSAGE_CREATE\",\"s\":3,\"d\":{}}".to_string();
    let (action, event_type) = shard.handle_event(GatewayEvent::ShardPayload(live.clone()));
    match action {
        DispatchAction::Broadcast(text, Some(SequenceInfo { value, .. })) => {
            assert_eq!(text, live);
            assert_eq!(value, 3);
        }
        _ => panic!("dispatch frames must be broadcast"),
    }
    assert_eq!(event_type.unwrap().name, "MESSAGE_CREATE");

    let heartbeat_ack = "{\"op\":11,\"s\":null,\"t\":null}".to_string();
    let (action, event_type) = shard.handle_event(GatewayEvent::ShardPayload(heartbeat_ack));
    assert!(matches!(action, DispatchAction::Swallowed));
    assert!(event_type.is_none());

    // A second upstream READY overwrites the template.
    let ready2 =
        "{\"op\":0,\"t\":\"READY\",\"s\":9,\"d\":{\"v\":10,\"user\":{\"id\":\"2\"},\"guilds\":[{\"id\":\"8\"}]}}"
            .to_string();
    assert!(matches!(
        shard.handle_event(GatewayEvent::ShardPayload(ready2)).0,
        DispatchAction::ReadyStored
    ));
    let second_body = shard.ready.as_ref().unwrap().body.clone();
    assert_eq!(second_body, "{\"v\":10,\"user\":{\"id\":\"2\"},\"guilds\":[]}");
    assert_ne!(first_body, second_body);
}

// A READY whose d has no guilds member still stores a template with an
// empty guilds array.
#[test]
fn ready_without_guilds_member() {
    let t = build_ready_template("{\"op\":0,\"t\":\"READY\",\"s\":1,\"d\":{\"v\":10}}").unwrap();
    assert_eq!(t.body, "{\"guilds\":[],\"v\":10}");
    let t2 = build_ready_template("{\"op\":0,\"t\":\"READY\",\"s\":1,\"d\":{}}").unwrap();
    assert_eq!(t2.body, "{\"guilds\":[]}");
}

// The dispatcher applies typed updates to the cache exactly once each.
#[test]
fn typed_update_applied_once() {
    let mut shard = ShardState::new(0);
    shard.handle_event(GatewayEvent::Update(CacheUpdate::GuildCreate(guild(1, "G", 9, false))));
    assert_eq!(shard.guilds.stats().guilds, 1);
    shard.handle_event(GatewayEvent::Update(CacheUpdate::GuildCreate(guild(1, "G2", 9, false))));
    assert_eq!(shard.guilds.stats().guilds, 1);
    shard.handle_event(GatewayEvent::Update(CacheUpdate::GuildCreate(guild(2, "H", 9, false))));
    assert_eq!(shard.guilds.stats().guilds, 2);
}

// Deserializer: key order does not matter, null s and t are absent values.
#[test]
fn deserializer_any_order() {
    let h = GatewayEventDeserializer::from_json(
        "{\"s\":17,\"d\":{\"x\":[1,{\"y\":\"}\"}]},\"t\":\"FOO\",\"op\":0}",
    )
    .unwrap();
    let (op, seq, t) = h.into_parts();
    assert_eq!(op, 0);
    let seq = seq.unwrap();
    assert_eq!(seq.value, 17);
    assert_eq!(t.unwrap().name, "FOO");
}

#[test]
fn deserializer_null_s_and_t() {
    let h = GatewayEventDeserializer::from_json("{\"op\":11,\"s\":null,\"t\":null}").unwrap();
    let (op, seq, t) = h.into_parts();
    assert_eq!(op, 11);
    assert!(seq.is_none());
    assert!(t.is_none());
}

#[test]
fn deserializer_missing_op() {
    assert_eq!(
        GatewayEventDeserializer::from_json("{\"s\":1,\"t\":\"X\"}").unwrap_err(),
        FrameError::MissingOp
    );
    assert_eq!(
        GatewayEventDeserializer::from_json("{}").unwrap_err(),
        FrameError::MissingOp
    );
}

#[test]
fn deserializer_malformed() {
    assert_eq!(
        GatewayEventDeserializer::from_json("[1,2,3]").unwrap_err(),
        FrameError::MalformedFrame
    );
    assert_eq!(
        GatewayEventDeserializer::from_json("  ").unwrap_err(),
        FrameError::MalformedFrame
    );
    assert_eq!(
        GatewayEventDeserializer::from_json("{\"op\":}").unwrap_err(),
        FrameError::MalformedFrame
    );
    assert_eq!(
        GatewayEventDeserializer::from_json("{\"op\":99999999999999999999999}").unwrap_err(),
        FrameError::MalformedFrame
    );
}

// The s span reported by the deserializer covers exactly the digits.
#[test]
fn sequence_span_exact() {
    let frame = "{\"op\":0,\"s\":1000,\"t\":\"E\",\"d\":{}}";
    let h = GatewayEventDeserializer::from_json(frame).unwrap();
    let info = h.sequence.unwrap();
    assert_eq!(&frame[info.start..info.end], "1000");
}

// Voice states replay with guild and channel ids populated and the member
// attached when its user is cached.
#[test]
fn voice_state_replay() {
    let mut cache = Guilds::new(0);
    cache.update(CacheUpdate::GuildCreate(guild(1, "G", 9, false)));
    cache.update(CacheUpdate::MemberAdd {
        member: member(1, 4),
        user: User { id: 4, name: "u".to_string(), bot: false },
    });
    cache.update(CacheUpdate::VoiceStateUpdate(CachedVoiceState {
        guild_id: 1,
        user_id: 4,
        channel_id: 77,
        deaf: false,
        mute: false,
        self_deaf: false,
        self_mute: true,
        self_stream: false,
        self_video: false,
        session_id: "abc".to_string(),
        suppress: false,
        request_to_speak_timestamp: None,
    }));
    let vs = cache.voice_states_in_guild(1);
    assert_eq!(vs.len(), 1);
    assert_eq!(vs[0].guild_id, Some(1));
    assert_eq!(vs[0].channel_id, Some(77));
    assert!(vs[0].member.is_some());
    assert!(vs[0].self_mute);
}

// JSON string escaping in serialized payloads.
#[test]
fn guild_name_escaped() {
    let mut cache = Guilds::new(0);
    cache.update(CacheUpdate::GuildCreate(guild(1, "a\"b\\c", 9, false)));
    let mut seq = 0usize;
    let frames = cache.get_guild_payloads(&mut seq);
    let text = payload_to_json(&frames[0]);
    assert!(text.contains("\"name\":\"a\\\"b\\\\c\""));
}

// The remaining typed updates: channel and member removal, and user
// replacement.
#[test]
fn channel_member_user_updates() {
    let mut cache = Guilds::new(0);
    cache.update(CacheUpdate::GuildCreate(guild(1, "G", 9, false)));
    cache.update(CacheUpdate::ChannelCreate(channel(10, 1, ChannelKind::Text, "a")));
    cache.update(CacheUpdate::ChannelDelete { id: 10 });
    assert_eq!(cache.stats().channels, 0);

    cache.update(CacheUpdate::MemberAdd {
        member: member(1, 4),
        user: User { id: 4, name: "u".to_string(), bot: false },
    });
    cache.update(CacheUpdate::UserUpdate(User { id: 4, name: "renamed".to_string(), bot: false }));
    assert_eq!(cache.stats().users, 1);
    assert_eq!(cache.member(1, 4).unwrap().user.name, "renamed");

    cache.update(CacheUpdate::MemberRemove { guild_id: 1, user_id: 4 });
    assert_eq!(cache.stats().members, 0);
    assert!(cache.member(1, 4).is_none());
}
