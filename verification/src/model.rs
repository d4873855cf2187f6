//! The data carried between the cache, the replay engine and the clients:
//! guilds, channels, members, roles, voice states and users, each with a
//! mathematical model (`View`) used by the contracts.

use vstd::prelude::*;

verus! {

/// The kind of a channel; threads are segregated from plain channels at
/// replay time.
#[derive(Clone, Copy, PartialEq, Eq, Structural, Debug)]
pub enum ChannelKind {
    Text,
    Voice,
    Category,
    Announcement,
    AnnouncementThread,
    PublicThread,
    PrivateThread,
    StageVoice,
    Forum,
}

impl ChannelKind {
    /// Whether this kind is one of the three thread kinds.
    pub open spec fn spec_is_thread(self) -> bool {
        self == ChannelKind::AnnouncementThread || self == ChannelKind::PublicThread
            || self == ChannelKind::PrivateThread
    }

    pub fn is_thread(&self) -> (r: bool)
        ensures
            r == self.spec_is_thread(),
    {
        matches!(
            self,
            ChannelKind::AnnouncementThread | ChannelKind::PublicThread | ChannelKind::PrivateThread
        )
    }
}

/// A cached channel or thread; both live in the same collection.
pub struct Channel {
    pub id: u64,
    pub guild_id: u64,
    pub kind: ChannelKind,
    pub name: String,
}

pub struct ChannelModel {
    pub id: u64,
    pub guild_id: u64,
    pub kind: ChannelKind,
    pub name: Seq<char>,
}

impl View for Channel {
    type V = ChannelModel;

    open spec fn view(&self) -> ChannelModel {
        ChannelModel { id: self.id, guild_id: self.guild_id, kind: self.kind, name: self.name@ }
    }
}

/// A cached user record.
pub struct User {
    pub id: u64,
    pub name: String,
    pub bot: bool,
}

pub struct UserModel {
    pub id: u64,
    pub name: Seq<char>,
    pub bot: bool,
}

impl View for User {
    type V = UserModel;

    open spec fn view(&self) -> UserModel {
        UserModel { id: self.id, name: self.name@, bot: self.bot }
    }
}

/// The views of the content of an option.
pub open spec fn opt_view<T: View>(o: Option<T>) -> Option<T::V> {
    match o {
        Some(x) => Some(x@),
        None => None,
    }
}

/// The view of an optional string.
pub open spec fn opt_str_view(o: Option<String>) -> Option<Seq<char>> {
    match o {
        Some(s) => Some(s@),
        None => None,
    }
}

/// A member as the cache stores it, without its user record.
pub struct CachedMember {
    pub guild_id: u64,
    pub user_id: u64,
    pub avatar: Option<String>,
    pub communication_disabled_until: Option<i64>,
    pub deaf: bool,
    pub flags: u64,
    pub joined_at: Option<i64>,
    pub mute: bool,
    pub nick: Option<String>,
    pub pending: bool,
    pub premium_since: Option<i64>,
    pub roles: Vec<u64>,
}

pub struct CachedMemberModel {
    pub guild_id: u64,
    pub user_id: u64,
    pub avatar: Option<Seq<char>>,
    pub communication_disabled_until: Option<i64>,
    pub deaf: bool,
    pub flags: u64,
    pub joined_at: Option<i64>,
    pub mute: bool,
    pub nick: Option<Seq<char>>,
    pub pending: bool,
    pub premium_since: Option<i64>,
    pub roles: Seq<u64>,
}

impl View for CachedMember {
    type V = CachedMemberModel;

    open spec fn view(&self) -> CachedMemberModel {
        CachedMemberModel {
            guild_id: self.guild_id,
            user_id: self.user_id,
            avatar: opt_str_view(self.avatar),
            communication_disabled_until: self.communication_disabled_until,
            deaf: self.deaf,
            flags: self.flags,
            joined_at: self.joined_at,
            mute: self.mute,
            nick: opt_str_view(self.nick),
            pending: self.pending,
            premium_since: self.premium_since,
            roles: self.roles@,
        }
    }
}

/// A member as it is replayed to clients: the cached member with its user
/// record attached.
pub struct Member {
    pub avatar: Option<String>,
    pub communication_disabled_until: Option<i64>,
    pub deaf: bool,
    pub flags: u64,
    pub joined_at: Option<i64>,
    pub mute: bool,
    pub nick: Option<String>,
    pub pending: bool,
    pub premium_since: Option<i64>,
    pub roles: Vec<u64>,
    pub user: User,
}

pub struct MemberModel {
    pub avatar: Option<Seq<char>>,
    pub communication_disabled_until: Option<i64>,
    pub deaf: bool,
    pub flags: u64,
    pub joined_at: Option<i64>,
    pub mute: bool,
    pub nick: Option<Seq<char>>,
    pub pending: bool,
    pub premium_since: Option<i64>,
    pub roles: Seq<u64>,
    pub user: UserModel,
}

impl View for Member {
    type V = MemberModel;

    open spec fn view(&self) -> MemberModel {
        MemberModel {
            avatar: opt_str_view(self.avatar),
            communication_disabled_until: self.communication_disabled_until,
            deaf: self.deaf,
            flags: self.flags,
            joined_at: self.joined_at,
            mute: self.mute,
            nick: opt_str_view(self.nick),
            pending: self.pending,
            premium_since: self.premium_since,
            roles: self.roles@,
            user: self.user@,
        }
    }
}

/// The hydration of a cached member with its user record.
pub open spec fn hydrate(m: CachedMemberModel, u: UserModel) -> MemberModel {
    MemberModel {
        avatar: m.avatar,
        communication_disabled_until: m.communication_disabled_until,
        deaf: m.deaf,
        flags: m.flags,
        joined_at: m.joined_at,
        mute: m.mute,
        nick: m.nick,
        pending: m.pending,
        premium_since: m.premium_since,
        roles: m.roles,
        user: u,
    }
}

/// A cached role.
pub struct Role {
    pub guild_id: u64,
    pub id: u64,
    pub name: String,
    pub permissions: u64,
}

pub struct RoleModel {
    pub guild_id: u64,
    pub id: u64,
    pub name: Seq<char>,
    pub permissions: u64,
}

impl View for Role {
    type V = RoleModel;

    open spec fn view(&self) -> RoleModel {
        RoleModel {
            guild_id: self.guild_id,
            id: self.id,
            name: self.name@,
            permissions: self.permissions,
        }
    }
}

/// A voice state as the cache stores it.
pub struct CachedVoiceState {
    pub guild_id: u64,
    pub user_id: u64,
    pub channel_id: u64,
    pub deaf: bool,
    pub mute: bool,
    pub self_deaf: bool,
    pub self_mute: bool,
    pub self_stream: bool,
    pub self_video: bool,
    pub session_id: String,
    pub suppress: bool,
    pub request_to_speak_timestamp: Option<i64>,
}

pub struct CachedVoiceStateModel {
    pub guild_id: u64,
    pub user_id: u64,
    pub channel_id: u64,
    pub deaf: bool,
    pub mute: bool,
    pub self_deaf: bool,
    pub self_mute: bool,
    pub self_stream: bool,
    pub self_video: bool,
    pub session_id: Seq<char>,
    pub suppress: bool,
    pub request_to_speak_timestamp: Option<i64>,
}

impl View for CachedVoiceState {
    type V = CachedVoiceStateModel;

    open spec fn view(&self) -> CachedVoiceStateModel {
        CachedVoiceStateModel {
            guild_id: self.guild_id,
            user_id: self.user_id,
            channel_id: self.channel_id,
            deaf: self.deaf,
            mute: self.mute,
            self_deaf: self.self_deaf,
            self_mute: self.self_mute,
            self_stream: self.self_stream,
            self_video: self.self_video,
            session_id: self.session_id@,
            suppress: self.suppress,
            request_to_speak_timestamp: self.request_to_speak_timestamp,
        }
    }
}

/// A voice state as it is replayed to clients, with its member attached when
/// the member's user is cached.
pub struct VoiceState {
    pub channel_id: Option<u64>,
    pub deaf: bool,
    pub guild_id: Option<u64>,
    pub member: Option<Member>,
    pub mute: bool,
    pub self_deaf: bool,
    pub self_mute: bool,
    pub self_stream: bool,
    pub self_video: bool,
    pub session_id: String,
    pub suppress: bool,
    pub user_id: u64,
    pub request_to_speak_timestamp: Option<i64>,
}

pub struct VoiceStateModel {
    pub channel_id: Option<u64>,
    pub deaf: bool,
    pub guild_id: Option<u64>,
    pub member: Option<MemberModel>,
    pub mute: bool,
    pub self_deaf: bool,
    pub self_mute: bool,
    pub self_stream: bool,
    pub self_video: bool,
    pub session_id: Seq<char>,
    pub suppress: bool,
    pub user_id: u64,
    pub request_to_speak_timestamp: Option<i64>,
}

impl View for VoiceState {
    type V = VoiceStateModel;

    open spec fn view(&self) -> VoiceStateModel {
        VoiceStateModel {
            channel_id: self.channel_id,
            deaf: self.deaf,
            guild_id: self.guild_id,
            member: match self.member {
                Some(m) => Some(m@),
                None => None,
            },
            mute: self.mute,
            self_deaf: self.self_deaf,
            self_mute: self.self_mute,
            self_stream: self.self_stream,
            self_video: self.self_video,
            session_id: self.session_id@,
            suppress: self.suppress,
            user_id: self.user_id,
            request_to_speak_timestamp: self.request_to_speak_timestamp,
        }
    }
}

/// A guild as the cache stores it; its channels, members, roles and voice
/// states live in their own collections, keyed by `guild_id`.
pub struct CachedGuild {
    pub id: u64,
    pub name: String,
    pub owner_id: u64,
    pub permissions: Option<u64>,
    pub member_count: Option<u64>,
    pub unavailable: bool,
}

pub struct CachedGuildModel {
    pub id: u64,
    pub name: Seq<char>,
    pub owner_id: u64,
    pub permissions: Option<u64>,
    pub member_count: Option<u64>,
    pub unavailable: bool,
}

impl View for CachedGuild {
    type V = CachedGuildModel;

    open spec fn view(&self) -> CachedGuildModel {
        CachedGuildModel {
            id: self.id,
            name: self.name@,
            owner_id: self.owner_id,
            permissions: self.permissions,
            member_count: self.member_count,
            unavailable: self.unavailable,
        }
    }
}

/// A guild as a `GUILD_CREATE` replays it, reconstructed from the cache.
pub struct Guild {
    pub channels: Vec<Channel>,
    pub id: u64,
    pub member_count: Option<u64>,
    pub members: Vec<Member>,
    pub name: String,
    pub owner_id: u64,
    pub permissions: Option<u64>,
    pub roles: Vec<Role>,
    pub threads: Vec<Channel>,
    pub unavailable: bool,
    pub voice_states: Vec<VoiceState>,
}

pub struct GuildModel {
    pub channels: Seq<ChannelModel>,
    pub id: u64,
    pub member_count: Option<u64>,
    pub members: Seq<MemberModel>,
    pub name: Seq<char>,
    pub owner_id: u64,
    pub permissions: Option<u64>,
    pub roles: Seq<RoleModel>,
    pub threads: Seq<ChannelModel>,
    pub unavailable: bool,
    pub voice_states: Seq<VoiceStateModel>,
}

/// The views of the elements of a sequence.
pub open spec fn seq_view<T: View>(s: Seq<T>) -> Seq<T::V> {
    Seq::new(s.len(), |i: int| s[i]@)
}

impl View for Guild {
    type V = GuildModel;

    open spec fn view(&self) -> GuildModel {
        GuildModel {
            channels: seq_view(self.channels@),
            id: self.id,
            member_count: self.member_count,
            members: seq_view(self.members@),
            name: self.name@,
            owner_id: self.owner_id,
            permissions: self.permissions,
            roles: seq_view(self.roles@),
            threads: seq_view(self.threads@),
            unavailable: self.unavailable,
            voice_states: seq_view(self.voice_states@),
        }
    }
}

/// The body of a `GUILD_DELETE` dispatch.
#[derive(Clone, Copy, PartialEq, Eq, Structural, Debug)]
pub struct GuildDelete {
    pub id: u64,
    pub unavailable: bool,
}

/// One entry of the `guilds` array of a synthetic `READY`: it is always
/// written as `{"id": <id as string>, "unavailable": true}`.
#[derive(Clone, Copy, PartialEq, Eq, Structural, Debug)]
pub struct UnavailableGuild {
    pub id: u64,
}

/// The `d` body of the one authoritative upstream `READY`, kept as JSON text
/// whose `guilds` value is the empty array written at `guilds_at`.
pub struct ReadyTemplate {
    pub body: String,
    pub guilds_at: usize,
}

pub struct ReadyTemplateModel {
    pub body: Seq<char>,
    pub guilds_at: int,
}

impl View for ReadyTemplate {
    type V = ReadyTemplateModel;

    open spec fn view(&self) -> ReadyTemplateModel {
        ReadyTemplateModel { body: self.body@, guilds_at: self.guilds_at as int }
    }
}

impl ReadyTemplateModel {
    /// The template stores its `guilds` value as the two characters `[]`.
    pub open spec fn wf(self) -> bool {
        &&& 0 <= self.guilds_at
        &&& self.guilds_at + 2 <= self.body.len()
        &&& self.body[self.guilds_at] == '['
        &&& self.body[self.guilds_at + 1] == ']'
    }
}

impl ReadyTemplate {
    pub fn clone_template(&self) -> (r: ReadyTemplate)
        ensures
            r@ == self@,
    {
        ReadyTemplate { body: self.body.clone(), guilds_at: self.guilds_at }
    }
}

} // verus!
