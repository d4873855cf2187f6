//! The in-memory guild replica and the replay engine: the cache applies
//! typed gateway events, and synthesizes the `READY` and per-guild
//! `GUILD_CREATE` / `GUILD_DELETE` payloads a newly connected client is
//! caught up with.

use vstd::prelude::*;

use crate::model::{
    hydrate, opt_view, seq_view, CachedGuild, CachedGuildModel, CachedMember,
    CachedMemberModel, CachedVoiceState, CachedVoiceStateModel, Channel, ChannelModel, Guild,
    GuildDelete, GuildModel, Member, MemberModel, ReadyTemplate, ReadyTemplateModel, Role,
    RoleModel, UnavailableGuild, User, UserModel, VoiceState, VoiceStateModel,
};

verus! {

/// The name of a dispatch event the proxy synthesizes itself.
#[derive(Clone, Copy, PartialEq, Eq, Structural, Debug)]
pub enum EventName {
    Ready,
    GuildCreate,
    GuildDelete,
}

/// The body of a synthetic `READY`: the stored template plus the guild stubs
/// that overwrite its (empty) `guilds` array.
pub struct ReadyEvent {
    pub template: ReadyTemplate,
    pub guilds: Vec<UnavailableGuild>,
}

pub struct ReadyEventModel {
    pub template: ReadyTemplateModel,
    pub guilds: Seq<UnavailableGuild>,
}

impl View for ReadyEvent {
    type V = ReadyEventModel;

    open spec fn view(&self) -> ReadyEventModel {
        ReadyEventModel { template: self.template@, guilds: self.guilds@ }
    }
}

/// The body of a synthetic dispatch payload.
pub enum Event {
    Ready(ReadyEvent),
    GuildCreate(Box<Guild>),
    GuildDelete(GuildDelete),
}

pub enum EventModel {
    Ready(ReadyEventModel),
    GuildCreate(GuildModel),
    GuildDelete(GuildDelete),
}

impl View for Event {
    type V = EventModel;

    open spec fn view(&self) -> EventModel {
        match self {
            Event::Ready(r) => EventModel::Ready(r@),
            Event::GuildCreate(g) => EventModel::GuildCreate(g@),
            Event::GuildDelete(d) => EventModel::GuildDelete(*d),
        }
    }
}

/// One synthetic dispatch frame: `{op, t, s, d}` with op 0 (Dispatch).
pub struct Payload {
    pub d: Event,
    pub op: u8,
    pub t: EventName,
    pub s: usize,
}

pub struct PayloadModel {
    pub d: EventModel,
    pub op: u8,
    pub t: EventName,
    pub s: usize,
}

impl View for Payload {
    type V = PayloadModel;

    open spec fn view(&self) -> PayloadModel {
        PayloadModel { d: self.d@, op: self.op, t: self.t, s: self.s }
    }
}

/// Counts of the cached entities.
#[derive(Clone, Copy, PartialEq, Eq, Structural, Debug)]
pub struct GuildsStats {
    pub guilds: usize,
    pub channels: usize,
    pub members: usize,
    pub roles: usize,
    pub voice_states: usize,
    pub users: usize,
}

/// A typed gateway event, as far as the cache is concerned.
pub enum CacheUpdate {
    GuildCreate(CachedGuild),
    GuildDelete(GuildDelete),
    ChannelCreate(Channel),
    ChannelDelete { id: u64 },
    MemberAdd { member: CachedMember, user: User },
    MemberRemove { guild_id: u64, user_id: u64 },
    RoleCreate(Role),
    VoiceStateUpdate(CachedVoiceState),
    UserUpdate(User),
}

pub enum CacheUpdateModel {
    GuildCreate(CachedGuildModel),
    GuildDelete(GuildDelete),
    ChannelCreate(ChannelModel),
    ChannelDelete { id: u64 },
    MemberAdd { member: CachedMemberModel, user: UserModel },
    MemberRemove { guild_id: u64, user_id: u64 },
    RoleCreate(RoleModel),
    VoiceStateUpdate(CachedVoiceStateModel),
    UserUpdate(UserModel),
}

impl View for CacheUpdate {
    type V = CacheUpdateModel;

    open spec fn view(&self) -> CacheUpdateModel {
        match self {
            CacheUpdate::GuildCreate(g) => CacheUpdateModel::GuildCreate(g@),
            CacheUpdate::GuildDelete(d) => CacheUpdateModel::GuildDelete(*d),
            CacheUpdate::ChannelCreate(c) => CacheUpdateModel::ChannelCreate(c@),
            CacheUpdate::ChannelDelete { id } => CacheUpdateModel::ChannelDelete { id: *id },
            CacheUpdate::MemberAdd { member, user } => CacheUpdateModel::MemberAdd {
                member: member@,
                user: user@,
            },
            CacheUpdate::MemberRemove { guild_id, user_id } => CacheUpdateModel::MemberRemove {
                guild_id: *guild_id,
                user_id: *user_id,
            },
            CacheUpdate::RoleCreate(r) => CacheUpdateModel::RoleCreate(r@),
            CacheUpdate::VoiceStateUpdate(v) => CacheUpdateModel::VoiceStateUpdate(v@),
            CacheUpdate::UserUpdate(u) => CacheUpdateModel::UserUpdate(u@),
        }
    }
}

/// The in-memory replica of one shard's guild state.
pub struct Guilds {
    pub guilds: Vec<CachedGuild>,
    pub channels: Vec<Channel>,
    pub members: Vec<CachedMember>,
    pub roles: Vec<Role>,
    pub voice_states: Vec<CachedVoiceState>,
    pub users: Vec<User>,
    pub shard_id: u64,
}

pub struct GuildsModel {
    pub guilds: Seq<CachedGuildModel>,
    pub channels: Seq<ChannelModel>,
    pub members: Seq<CachedMemberModel>,
    pub roles: Seq<RoleModel>,
    pub voice_states: Seq<CachedVoiceStateModel>,
    pub users: Seq<UserModel>,
    pub shard_id: u64,
}

impl View for Guilds {
    type V = GuildsModel;

    open spec fn view(&self) -> GuildsModel {
        GuildsModel {
            guilds: seq_view(self.guilds@),
            channels: seq_view(self.channels@),
            members: seq_view(self.members@),
            roles: seq_view(self.roles@),
            voice_states: seq_view(self.voice_states@),
            users: seq_view(self.users@),
            shard_id: self.shard_id,
        }
    }
}

// ---------------------------------------------------------------------------
// Generic sequence machinery for maps keyed by ids.
// ---------------------------------------------------------------------------

/// No two elements of `s` share a key.
pub open spec fn distinct_keys<T, K>(s: Seq<T>, key: spec_fn(T) -> K) -> bool {
    forall|i: int, j: int| 0 <= i < j < s.len() ==> key(s[i]) != key(s[j])
}

/// Replaces the first element from position `i` on that `same` accepts with
/// `x`, or appends `x` when none does.
pub open spec fn upsert_from<T>(s: Seq<T>, x: T, same: spec_fn(T) -> bool, i: int) -> Seq<T>
    decreases s.len() - i,
{
    if i < 0 || i >= s.len() {
        s.push(x)
    } else if same(s[i]) {
        s.update(i, x)
    } else {
        upsert_from(s, x, same, i + 1)
    }
}

/// The elements from position `i` on that `keep` accepts, in order.
pub open spec fn keep_from<T>(s: Seq<T>, keep: spec_fn(T) -> bool, i: int) -> Seq<T>
    decreases s.len() - i,
{
    if i < 0 || i >= s.len() {
        Seq::empty()
    } else {
        let rest = keep_from(s, keep, i + 1);
        if keep(s[i]) {
            seq![s[i]] + rest
        } else {
            rest
        }
    }
}

pub proof fn lemma_keep_sub<T>(s: Seq<T>, keep: spec_fn(T) -> bool, i: int)
    ensures
        forall|x: T|
            keep_from(s, keep, i).contains(x) ==> exists|j: int|
                i <= j < s.len() && s[j] == x && keep(s[j]),
    decreases s.len() - i,
{
    if 0 <= i < s.len() {
        lemma_keep_sub(s, keep, i + 1);
        assert forall|x: T| keep_from(s, keep, i).contains(x) implies exists|j: int|
            i <= j < s.len() && s[j] == x && keep(s[j]) by {
            let rest = keep_from(s, keep, i + 1);
            if keep(s[i]) {
                let k = choose|k: int| 0 <= k < keep_from(s, keep, i).len() && keep_from(s, keep, i)[k] == x;
                if k == 0 {
                    assert(s[i] == x && keep(s[i]));
                } else {
                    assert(rest[k - 1] == x);
                    assert(rest.contains(x));
                }
            } else {
                assert(rest.contains(x));
            }
        }
    }
}

pub proof fn lemma_upsert_distinct<T, K>(
    s: Seq<T>,
    x: T,
    same: spec_fn(T) -> bool,
    key: spec_fn(T) -> K,
    i: int,
)
    requires
        distinct_keys(s, key),
        forall|t: T| #[trigger] same(t) <==> key(t) == key(x),
        0 <= i,
        forall|k: int| 0 <= k < i ==> !same(s[k]),
    ensures
        distinct_keys(upsert_from(s, x, same, i), key),
    decreases s.len() - i,
{
    if i >= s.len() {
        let r = s.push(x);
        assert forall|a: int, b: int| 0 <= a < b < r.len() implies key(r[a]) != key(r[b]) by {
            if b == r.len() - 1 {
                assert(!same(s[a]));
            }
        }
    } else if same(s[i]) {
        let r = s.update(i, x);
        assert forall|a: int, b: int| 0 <= a < b < r.len() implies key(r[a]) != key(r[b]) by {
            assert(key(s[i]) == key(x));
        }
    } else {
        lemma_upsert_distinct(s, x, same, key, i + 1);
    }
}

pub proof fn lemma_keep_distinct<T, K>(s: Seq<T>, keep: spec_fn(T) -> bool, key: spec_fn(T) -> K, i: int)
    requires
        distinct_keys(s, key),
    ensures
        distinct_keys(keep_from(s, keep, i), key),
    decreases s.len() - i,
{
    if 0 <= i < s.len() {
        lemma_keep_distinct(s, keep, key, i + 1);
        lemma_keep_sub(s, keep, i + 1);
        let rest = keep_from(s, keep, i + 1);
        if keep(s[i]) {
            let r = seq![s[i]] + rest;
            assert forall|a: int, b: int| 0 <= a < b < r.len() implies key(r[a]) != key(r[b]) by {
                if a == 0 {
                    assert(rest.contains(rest[b - 1]));
                    let j = choose|j: int| i + 1 <= j < s.len() && s[j] == rest[b - 1] && keep(s[j]);
                    assert(key(s[i]) != key(s[j]));
                } else {
                    assert(key(rest[a - 1]) != key(rest[b - 1]));
                }
            }
        }
    }
}

// Key predicates for the cached collections.

pub open spec fn guild_key() -> spec_fn(CachedGuildModel) -> u64 {
    |g: CachedGuildModel| g.id
}

pub open spec fn channel_key() -> spec_fn(ChannelModel) -> u64 {
    |c: ChannelModel| c.id
}

pub open spec fn member_key() -> spec_fn(CachedMemberModel) -> (u64, u64) {
    |m: CachedMemberModel| (m.guild_id, m.user_id)
}

pub open spec fn role_key() -> spec_fn(RoleModel) -> (u64, u64) {
    |r: RoleModel| (r.guild_id, r.id)
}

pub open spec fn voice_key() -> spec_fn(CachedVoiceStateModel) -> (u64, u64) {
    |v: CachedVoiceStateModel| (v.guild_id, v.user_id)
}

pub open spec fn user_key() -> spec_fn(UserModel) -> u64 {
    |u: UserModel| u.id
}

pub open spec fn by_guild_id(id: u64) -> spec_fn(CachedGuildModel) -> bool {
    |g: CachedGuildModel| g.id == id
}

pub open spec fn by_channel_id(id: u64) -> spec_fn(ChannelModel) -> bool {
    |c: ChannelModel| c.id == id
}

pub open spec fn by_member_key(guild_id: u64, user_id: u64) -> spec_fn(CachedMemberModel) -> bool {
    |m: CachedMemberModel| m.guild_id == guild_id && m.user_id == user_id
}

pub open spec fn by_role_key(guild_id: u64, id: u64) -> spec_fn(RoleModel) -> bool {
    |r: RoleModel| r.guild_id == guild_id && r.id == id
}

pub open spec fn by_voice_key(guild_id: u64, user_id: u64) -> spec_fn(
    CachedVoiceStateModel,
) -> bool {
    |v: CachedVoiceStateModel| v.guild_id == guild_id && v.user_id == user_id
}

pub open spec fn by_user_id(id: u64) -> spec_fn(UserModel) -> bool {
    |u: UserModel| u.id == id
}

pub open spec fn not_guild(id: u64) -> spec_fn(CachedGuildModel) -> bool {
    |g: CachedGuildModel| g.id != id
}

pub open spec fn not_channel(id: u64) -> spec_fn(ChannelModel) -> bool {
    |c: ChannelModel| c.id != id
}

pub open spec fn chan_not_in_guild(guild_id: u64) -> spec_fn(ChannelModel) -> bool {
    |c: ChannelModel| c.guild_id != guild_id
}

pub open spec fn member_not_in_guild(guild_id: u64) -> spec_fn(CachedMemberModel) -> bool {
    |m: CachedMemberModel| m.guild_id != guild_id
}

pub open spec fn not_member_key(guild_id: u64, user_id: u64) -> spec_fn(
    CachedMemberModel,
) -> bool {
    |m: CachedMemberModel| !(m.guild_id == guild_id && m.user_id == user_id)
}

pub open spec fn role_not_in_guild(guild_id: u64) -> spec_fn(RoleModel) -> bool {
    |r: RoleModel| r.guild_id != guild_id
}

pub open spec fn voice_not_in_guild(guild_id: u64) -> spec_fn(CachedVoiceStateModel) -> bool {
    |v: CachedVoiceStateModel| v.guild_id != guild_id
}

/// `g` with its `unavailable` flag set.
pub open spec fn marked_unavailable(g: CachedGuildModel) -> CachedGuildModel {
    CachedGuildModel { unavailable: true, ..g }
}

/// The guilds from position `i` on, those whose id is `id` marked
/// unavailable, the rest untouched.
pub open spec fn mark_from(s: Seq<CachedGuildModel>, id: u64, i: int) -> Seq<CachedGuildModel>
    decreases s.len() - i,
{
    if i < 0 || i >= s.len() {
        Seq::empty()
    } else {
        let rest = mark_from(s, id, i + 1);
        seq![if s[i].id == id {
            marked_unavailable(s[i])
        } else {
            s[i]
        }] + rest
    }
}

pub proof fn lemma_mark_pointwise(s: Seq<CachedGuildModel>, id: u64, i: int)
    requires
        0 <= i <= s.len(),
    ensures
        mark_from(s, id, i).len() == s.len() - i,
        forall|j: int|
            0 <= j < s.len() - i ==> #[trigger] mark_from(s, id, i)[j].id == s[i + j].id,
    decreases s.len() - i,
{
    if i < s.len() {
        lemma_mark_pointwise(s, id, i + 1);
    }
}

// ---------------------------------------------------------------------------
// The replay engine at the model level.
// ---------------------------------------------------------------------------

/// The first user from position `i` on whose id is `user_id`.
pub open spec fn find_user_from(users: Seq<UserModel>, user_id: u64, i: int) -> Option<UserModel>
    decreases users.len() - i,
{
    if i < 0 || i >= users.len() {
        None
    } else if users[i].id == user_id {
        Some(users[i])
    } else {
        find_user_from(users, user_id, i + 1)
    }
}

/// The first member from position `i` on with the given key.
pub open spec fn find_member_from(
    members: Seq<CachedMemberModel>,
    guild_id: u64,
    user_id: u64,
    i: int,
) -> Option<CachedMemberModel>
    decreases members.len() - i,
{
    if i < 0 || i >= members.len() {
        None
    } else if members[i].guild_id == guild_id && members[i].user_id == user_id {
        Some(members[i])
    } else {
        find_member_from(members, guild_id, user_id, i + 1)
    }
}

/// The guild's channels of the wanted kind (threads or non-threads), in cache
/// order, from position `i` on.
pub open spec fn channels_from(
    chans: Seq<ChannelModel>,
    guild_id: u64,
    want_thread: bool,
    i: int,
) -> Seq<ChannelModel>
    decreases chans.len() - i,
{
    if i < 0 || i >= chans.len() {
        Seq::empty()
    } else {
        let rest = channels_from(chans, guild_id, want_thread, i + 1);
        if chans[i].guild_id == guild_id && chans[i].kind.spec_is_thread() == want_thread {
            seq![chans[i]] + rest
        } else {
            rest
        }
    }
}

/// The guild's roles in cache order from position `i` on.
pub open spec fn roles_from(roles: Seq<RoleModel>, guild_id: u64, i: int) -> Seq<RoleModel>
    decreases roles.len() - i,
{
    if i < 0 || i >= roles.len() {
        Seq::empty()
    } else {
        let rest = roles_from(roles, guild_id, i + 1);
        if roles[i].guild_id == guild_id {
            seq![roles[i]] + rest
        } else {
            rest
        }
    }
}

impl GuildsModel {
    pub open spec fn wf(self) -> bool {
        &&& distinct_keys(self.guilds, guild_key())
        &&& distinct_keys(self.channels, channel_key())
        &&& distinct_keys(self.members, member_key())
        &&& distinct_keys(self.roles, role_key())
        &&& distinct_keys(self.voice_states, voice_key())
        &&& distinct_keys(self.users, user_key())
    }

    pub open spec fn spec_user(self, user_id: u64) -> Option<UserModel> {
        find_user_from(self.users, user_id, 0)
    }

    /// The hydrated member, present only when both the member and its user
    /// are cached.
    pub open spec fn spec_member(self, guild_id: u64, user_id: u64) -> Option<MemberModel> {
        match find_member_from(self.members, guild_id, user_id, 0) {
            None => None,
            Some(m) => match self.spec_user(user_id) {
                None => None,
                Some(u) => Some(hydrate(m, u)),
            },
        }
    }

    pub open spec fn spec_channels_in_guild(self, guild_id: u64) -> Seq<ChannelModel> {
        channels_from(self.channels, guild_id, false, 0)
    }

    pub open spec fn spec_threads_in_guild(self, guild_id: u64) -> Seq<ChannelModel> {
        channels_from(self.channels, guild_id, true, 0)
    }

    pub open spec fn spec_roles_in_guild(self, guild_id: u64) -> Seq<RoleModel> {
        roles_from(self.roles, guild_id, 0)
    }

    /// The guild's hydrated members in cache order from position `i` on;
    /// members whose user is missing are omitted silently.
    pub open spec fn members_from(self, guild_id: u64, i: int) -> Seq<MemberModel>
        decreases self.members.len() - i,
    {
        if i < 0 || i >= self.members.len() {
            Seq::empty()
        } else {
            let rest = self.members_from(guild_id, i + 1);
            let m = self.members[i];
            if m.guild_id == guild_id {
                match self.spec_user(m.user_id) {
                    Some(u) => seq![hydrate(m, u)] + rest,
                    None => rest,
                }
            } else {
                rest
            }
        }
    }

    pub open spec fn spec_members_in_guild(self, guild_id: u64) -> Seq<MemberModel> {
        self.members_from(guild_id, 0)
    }

    /// One replayed voice state: `guild_id` and `channel_id` populated, the
    /// member attached when its user is cached.
    pub open spec fn spec_voice_state(self, v: CachedVoiceStateModel) -> VoiceStateModel {
        VoiceStateModel {
            channel_id: Some(v.channel_id),
            deaf: v.deaf,
            guild_id: Some(v.guild_id),
            member: self.spec_member(v.guild_id, v.user_id),
            mute: v.mute,
            self_deaf: v.self_deaf,
            self_mute: v.self_mute,
            self_stream: v.self_stream,
            self_video: v.self_video,
            session_id: v.session_id,
            suppress: v.suppress,
            user_id: v.user_id,
            request_to_speak_timestamp: v.request_to_speak_timestamp,
        }
    }

    pub open spec fn voice_states_from(self, guild_id: u64, i: int) -> Seq<VoiceStateModel>
        decreases self.voice_states.len() - i,
    {
        if i < 0 || i >= self.voice_states.len() {
            Seq::empty()
        } else {
            let rest = self.voice_states_from(guild_id, i + 1);
            let v = self.voice_states[i];
            if v.guild_id == guild_id {
                seq![self.spec_voice_state(v)] + rest
            } else {
                rest
            }
        }
    }

    pub open spec fn spec_voice_states_in_guild(self, guild_id: u64) -> Seq<VoiceStateModel> {
        self.voice_states_from(guild_id, 0)
    }

    /// The `GUILD_CREATE` body reconstructed from the cache for `g`.
    pub open spec fn spec_guild_create(self, g: CachedGuildModel) -> GuildModel {
        GuildModel {
            channels: self.spec_channels_in_guild(g.id),
            id: g.id,
            member_count: g.member_count,
            members: self.spec_members_in_guild(g.id),
            name: g.name,
            owner_id: g.owner_id,
            permissions: g.permissions,
            roles: self.spec_roles_in_guild(g.id),
            threads: self.spec_threads_in_guild(g.id),
            unavailable: false,
            voice_states: self.spec_voice_states_in_guild(g.id),
        }
    }

    /// The payload replayed for `g` with sequence number `s`: a
    /// `GUILD_DELETE` for an unavailable guild, a reconstructed
    /// `GUILD_CREATE` otherwise.
    pub open spec fn spec_guild_payload(self, g: CachedGuildModel, s: usize) -> PayloadModel {
        if g.unavailable {
            PayloadModel {
                d: EventModel::GuildDelete(GuildDelete { id: g.id, unavailable: true }),
                op: 0,
                t: EventName::GuildDelete,
                s,
            }
        } else {
            PayloadModel {
                d: EventModel::GuildCreate(self.spec_guild_create(g)),
                op: 0,
                t: EventName::GuildCreate,
                s,
            }
        }
    }

    /// The per-guild replay payloads for the guilds from position `i` on,
    /// with sequence numbers `s0 + 1 + i`, `s0 + 2 + i`, ...
    pub open spec fn spec_guild_payloads(self, i: int, s0: int) -> Seq<PayloadModel>
        decreases self.guilds.len() - i,
    {
        if i < 0 || i >= self.guilds.len() || s0 + 1 + i > usize::MAX {
            Seq::empty()
        } else {
            seq![self.spec_guild_payload(self.guilds[i], (s0 + 1 + i) as usize)]
                + self.spec_guild_payloads(i + 1, s0)
        }
    }

    /// One `{id, unavailable: true}` stub per cached guild, in cache order.
    pub open spec fn spec_guild_stubs(self) -> Seq<UnavailableGuild> {
        Seq::new(self.guilds.len(), |i: int| UnavailableGuild { id: self.guilds[i].id })
    }

    /// The synthetic `READY` with sequence number `s`.
    pub open spec fn spec_ready_payload(self, template: ReadyTemplateModel, s: usize) -> PayloadModel {
        PayloadModel {
            d: EventModel::Ready(ReadyEventModel { template, guilds: self.spec_guild_stubs() }),
            op: 0,
            t: EventName::Ready,
            s,
        }
    }

    /// The full catch-up stream a client beginning at sequence `s0` receives:
    /// the synthetic `READY`, then one payload per cached guild.
    pub open spec fn spec_replay(self, template: ReadyTemplateModel, s0: int) -> Seq<PayloadModel> {
        seq![self.spec_ready_payload(template, (s0 + 1) as usize)] + self.spec_guild_payloads(
            0,
            s0 + 1,
        )
    }

    /// How one typed gateway event transforms the cache.
    pub open spec fn spec_update(self, u: CacheUpdateModel) -> GuildsModel {
        match u {
            CacheUpdateModel::GuildCreate(g) => GuildsModel {
                guilds: upsert_from(self.guilds, g, by_guild_id(g.id), 0),
                ..self
            },
            CacheUpdateModel::GuildDelete(d) => {
                if d.unavailable {
                    GuildsModel { guilds: mark_from(self.guilds, d.id, 0), ..self }
                } else {
                    GuildsModel {
                        guilds: keep_from(self.guilds, not_guild(d.id), 0),
                        channels: keep_from(self.channels, chan_not_in_guild(d.id), 0),
                        members: keep_from(self.members, member_not_in_guild(d.id), 0),
                        roles: keep_from(self.roles, role_not_in_guild(d.id), 0),
                        voice_states: keep_from(self.voice_states, voice_not_in_guild(d.id), 0),
                        ..self
                    }
                }
            },
            CacheUpdateModel::ChannelCreate(c) => GuildsModel {
                channels: upsert_from(self.channels, c, by_channel_id(c.id), 0),
                ..self
            },
            CacheUpdateModel::ChannelDelete { id } => GuildsModel {
                channels: keep_from(self.channels, not_channel(id), 0),
                ..self
            },
            CacheUpdateModel::MemberAdd { member, user } => GuildsModel {
                members: upsert_from(
                    self.members,
                    member,
                    by_member_key(member.guild_id, member.user_id),
                    0,
                ),
                users: upsert_from(self.users, user, by_user_id(user.id), 0),
                ..self
            },
            CacheUpdateModel::MemberRemove { guild_id, user_id } => GuildsModel {
                members: keep_from(self.members, not_member_key(guild_id, user_id), 0),
                ..self
            },
            CacheUpdateModel::RoleCreate(r) => GuildsModel {
                roles: upsert_from(self.roles, r, by_role_key(r.guild_id, r.id), 0),
                ..self
            },
            CacheUpdateModel::VoiceStateUpdate(v) => GuildsModel {
                voice_states: upsert_from(
                    self.voice_states,
                    v,
                    by_voice_key(v.guild_id, v.user_id),
                    0,
                ),
                ..self
            },
            CacheUpdateModel::UserUpdate(u) => GuildsModel {
                users: upsert_from(self.users, u, by_user_id(u.id), 0),
                ..self
            },
        }
    }
}

// ---------------------------------------------------------------------------
// Executable clones of the cached entities.
// ---------------------------------------------------------------------------

fn copy_ids(v: &Vec<u64>) -> (r: Vec<u64>)
    ensures
        r@ == v@,
{
    let mut r: Vec<u64> = Vec::new();
    let mut i: usize = 0;
    while i < v.len()
        invariant
            i <= v.len(),
            r@ == v@.take(i as int),
        decreases v.len() - i,
    {
        r.push(v[i]);
        i = i + 1;
        proof {
            assert(r@ =~= v@.take(i as int));
        }
    }
    proof {
        assert(v@.take(v@.len() as int) =~= v@);
    }
    r
}

fn clone_opt_string(o: &Option<String>) -> (r: Option<String>)
    ensures
        r == *o,
{
    match o {
        Some(s) => Some(s.clone()),
        None => None,
    }
}

fn clone_guild(g: &CachedGuild) -> (r: CachedGuild)
    ensures
        r@ == g@,
        r.unavailable == g.unavailable,
{
    CachedGuild {
        id: g.id,
        name: g.name.clone(),
        owner_id: g.owner_id,
        permissions: g.permissions,
        member_count: g.member_count,
        unavailable: g.unavailable,
    }
}

fn clone_channel(c: &Channel) -> (r: Channel)
    ensures
        r@ == c@,
{
    Channel { id: c.id, guild_id: c.guild_id, kind: c.kind, name: c.name.clone() }
}

fn clone_user(u: &User) -> (r: User)
    ensures
        r@ == u@,
{
    User { id: u.id, name: u.name.clone(), bot: u.bot }
}

fn clone_member(m: &CachedMember) -> (r: CachedMember)
    ensures
        r@ == m@,
{
    CachedMember {
        guild_id: m.guild_id,
        user_id: m.user_id,
        avatar: clone_opt_string(&m.avatar),
        communication_disabled_until: m.communication_disabled_until,
        deaf: m.deaf,
        flags: m.flags,
        joined_at: m.joined_at,
        mute: m.mute,
        nick: clone_opt_string(&m.nick),
        pending: m.pending,
        premium_since: m.premium_since,
        roles: copy_ids(&m.roles),
    }
}

fn clone_role(r0: &Role) -> (r: Role)
    ensures
        r@ == r0@,
{
    Role { guild_id: r0.guild_id, id: r0.id, name: r0.name.clone(), permissions: r0.permissions }
}

fn clone_voice(v: &CachedVoiceState) -> (r: CachedVoiceState)
    ensures
        r@ == v@,
{
    CachedVoiceState {
        guild_id: v.guild_id,
        user_id: v.user_id,
        channel_id: v.channel_id,
        deaf: v.deaf,
        mute: v.mute,
        self_deaf: v.self_deaf,
        self_mute: v.self_mute,
        self_stream: v.self_stream,
        self_video: v.self_video,
        session_id: v.session_id.clone(),
        suppress: v.suppress,
        request_to_speak_timestamp: v.request_to_speak_timestamp,
    }
}

/// The cached member with its user record attached.
fn hydrate_member(m: &CachedMember, u: User) -> (r: Member)
    ensures
        r@ == hydrate(m@, u@),
{
    Member {
        avatar: clone_opt_string(&m.avatar),
        communication_disabled_until: m.communication_disabled_until,
        deaf: m.deaf,
        flags: m.flags,
        joined_at: m.joined_at,
        mute: m.mute,
        nick: clone_opt_string(&m.nick),
        pending: m.pending,
        premium_since: m.premium_since,
        roles: copy_ids(&m.roles),
        user: u,
    }
}

// ---------------------------------------------------------------------------
// Executable upserts, removals and marks on the cached collections.
// ---------------------------------------------------------------------------

fn upsert_guild_at(v: &mut Vec<CachedGuild>, g: CachedGuild, j: usize)
    requires
        j <= old(v).len(),
        forall|k: int| 0 <= k < j ==> seq_view(old(v)@)[k].id != g@.id,
    ensures
        seq_view(final(v)@) == upsert_from(seq_view(old(v)@), g@, by_guild_id(g.id), j as int),
    decreases old(v).len() - j,
{
    if j >= v.len() {
        v.push(g);
        proof {
            assert(seq_view(v@) =~= seq_view(old(v)@).push(g@));
        }
    } else if v[j].id == g.id {
        v.remove(j);
        v.insert(j, g);
        proof {
            assert(seq_view(v@) =~= seq_view(old(v)@).update(j as int, g@));
        }
    } else {
        upsert_guild_at(v, g, j + 1);
    }
}

fn upsert_channel_at(v: &mut Vec<Channel>, c: Channel, j: usize)
    requires
        j <= old(v).len(),
        forall|k: int| 0 <= k < j ==> seq_view(old(v)@)[k].id != c@.id,
    ensures
        seq_view(final(v)@) == upsert_from(seq_view(old(v)@), c@, by_channel_id(c.id), j as int),
    decreases old(v).len() - j,
{
    if j >= v.len() {
        v.push(c);
        proof {
            assert(seq_view(v@) =~= seq_view(old(v)@).push(c@));
        }
    } else if v[j].id == c.id {
        v.remove(j);
        v.insert(j, c);
        proof {
            assert(seq_view(v@) =~= seq_view(old(v)@).update(j as int, c@));
        }
    } else {
        upsert_channel_at(v, c, j + 1);
    }
}

fn upsert_member_at(v: &mut Vec<CachedMember>, m: CachedMember, j: usize)
    requires
        j <= old(v).len(),
        forall|k: int|
            0 <= k < j ==> !(seq_view(old(v)@)[k].guild_id == m@.guild_id && seq_view(old(v)@)[k].user_id
                == m@.user_id),
    ensures
        seq_view(final(v)@) == upsert_from(
            seq_view(old(v)@),
            m@,
            by_member_key(m.guild_id, m.user_id),
            j as int,
        ),
    decreases old(v).len() - j,
{
    if j >= v.len() {
        v.push(m);
        proof {
            assert(seq_view(v@) =~= seq_view(old(v)@).push(m@));
        }
    } else if v[j].guild_id == m.guild_id && v[j].user_id == m.user_id {
        v.remove(j);
        v.insert(j, m);
        proof {
            assert(seq_view(v@) =~= seq_view(old(v)@).update(j as int, m@));
        }
    } else {
        upsert_member_at(v, m, j + 1);
    }
}

fn upsert_role_at(v: &mut Vec<Role>, r0: Role, j: usize)
    requires
        j <= old(v).len(),
        forall|k: int|
            0 <= k < j ==> !(seq_view(old(v)@)[k].guild_id == r0@.guild_id && seq_view(old(v)@)[k].id
                == r0@.id),
    ensures
        seq_view(final(v)@) == upsert_from(
            seq_view(old(v)@),
            r0@,
            by_role_key(r0.guild_id, r0.id),
            j as int,
        ),
    decreases old(v).len() - j,
{
    if j >= v.len() {
        v.push(r0);
        proof {
            assert(seq_view(v@) =~= seq_view(old(v)@).push(r0@));
        }
    } else if v[j].guild_id == r0.guild_id && v[j].id == r0.id {
        v.remove(j);
        v.insert(j, r0);
        proof {
            assert(seq_view(v@) =~= seq_view(old(v)@).update(j as int, r0@));
        }
    } else {
        upsert_role_at(v, r0, j + 1);
    }
}

fn upsert_voice_at(v: &mut Vec<CachedVoiceState>, s: CachedVoiceState, j: usize)
    requires
        j <= old(v).len(),
        forall|k: int|
            0 <= k < j ==> !(seq_view(old(v)@)[k].guild_id == s@.guild_id && seq_view(old(v)@)[k].user_id
                == s@.user_id),
    ensures
        seq_view(final(v)@) == upsert_from(
            seq_view(old(v)@),
            s@,
            by_voice_key(s.guild_id, s.user_id),
            j as int,
        ),
    decreases old(v).len() - j,
{
    if j >= v.len() {
        v.push(s);
        proof {
            assert(seq_view(v@) =~= seq_view(old(v)@).push(s@));
        }
    } else if v[j].guild_id == s.guild_id && v[j].user_id == s.user_id {
        v.remove(j);
        v.insert(j, s);
        proof {
            assert(seq_view(v@) =~= seq_view(old(v)@).update(j as int, s@));
        }
    } else {
        upsert_voice_at(v, s, j + 1);
    }
}

fn upsert_user_at(v: &mut Vec<User>, u: User, j: usize)
    requires
        j <= old(v).len(),
        forall|k: int| 0 <= k < j ==> seq_view(old(v)@)[k].id != u@.id,
    ensures
        seq_view(final(v)@) == upsert_from(seq_view(old(v)@), u@, by_user_id(u.id), j as int),
    decreases old(v).len() - j,
{
    if j >= v.len() {
        v.push(u);
        proof {
            assert(seq_view(v@) =~= seq_view(old(v)@).push(u@));
        }
    } else if v[j].id == u.id {
        v.remove(j);
        v.insert(j, u);
        proof {
            assert(seq_view(v@) =~= seq_view(old(v)@).update(j as int, u@));
        }
    } else {
        upsert_user_at(v, u, j + 1);
    }
}

fn keep_guilds_at(v: &Vec<CachedGuild>, id: u64, i: usize) -> (r: Vec<CachedGuild>)
    requires
        i <= v.len(),
    ensures
        seq_view(r@) == keep_from(seq_view(v@), not_guild(id), i as int),
    decreases v.len() - i,
{
    if i >= v.len() {
        let r: Vec<CachedGuild> = Vec::new();
        proof {
            assert(seq_view(r@) =~= keep_from(seq_view(v@), not_guild(id), i as int));
        }
        r
    } else {
        let mut rest = keep_guilds_at(v, id, i + 1);
        if v[i].id != id {
            rest.insert(0, clone_guild(&v[i]));
            proof {
                assert(seq_view(rest@) =~= keep_from(seq_view(v@), not_guild(id), i as int));
            }
        }
        rest
    }
}

fn keep_channels_by_guild_at(v: &Vec<Channel>, guild_id: u64, i: usize) -> (r: Vec<Channel>)
    requires
        i <= v.len(),
    ensures
        seq_view(r@) == keep_from(seq_view(v@), chan_not_in_guild(guild_id), i as int),
    decreases v.len() - i,
{
    if i >= v.len() {
        let r: Vec<Channel> = Vec::new();
        proof {
            assert(seq_view(r@) =~= keep_from(seq_view(v@), chan_not_in_guild(guild_id), i as int));
        }
        r
    } else {
        let mut rest = keep_channels_by_guild_at(v, guild_id, i + 1);
        if v[i].guild_id != guild_id {
            rest.insert(0, clone_channel(&v[i]));
            proof {
                assert(seq_view(rest@) =~= keep_from(
                    seq_view(v@),
                    chan_not_in_guild(guild_id),
                    i as int,
                ));
            }
        }
        rest
    }
}

fn keep_channels_by_id_at(v: &Vec<Channel>, id: u64, i: usize) -> (r: Vec<Channel>)
    requires
        i <= v.len(),
    ensures
        seq_view(r@) == keep_from(seq_view(v@), not_channel(id), i as int),
    decreases v.len() - i,
{
    if i >= v.len() {
        let r: Vec<Channel> = Vec::new();
        proof {
            assert(seq_view(r@) =~= keep_from(seq_view(v@), not_channel(id), i as int));
        }
        r
    } else {
        let mut rest = keep_channels_by_id_at(v, id, i + 1);
        if v[i].id != id {
            rest.insert(0, clone_channel(&v[i]));
            proof {
                assert(seq_view(rest@) =~= keep_from(seq_view(v@), not_channel(id), i as int));
            }
        }
        rest
    }
}

fn keep_members_by_guild_at(v: &Vec<CachedMember>, guild_id: u64, i: usize) -> (r: Vec<
    CachedMember,
>)
    requires
        i <= v.len(),
    ensures
        seq_view(r@) == keep_from(seq_view(v@), member_not_in_guild(guild_id), i as int),
    decreases v.len() - i,
{
    if i >= v.len() {
        let r: Vec<CachedMember> = Vec::new();
        proof {
            assert(seq_view(r@) =~= keep_from(
                seq_view(v@),
                member_not_in_guild(guild_id),
                i as int,
            ));
        }
        r
    } else {
        let mut rest = keep_members_by_guild_at(v, guild_id, i + 1);
        if v[i].guild_id != guild_id {
            rest.insert(0, clone_member(&v[i]));
            proof {
                assert(seq_view(rest@) =~= keep_from(
                    seq_view(v@),
                    member_not_in_guild(guild_id),
                    i as int,
                ));
            }
        }
        rest
    }
}

fn keep_members_by_key_at(v: &Vec<CachedMember>, guild_id: u64, user_id: u64, i: usize) -> (r: Vec<
    CachedMember,
>)
    requires
        i <= v.len(),
    ensures
        seq_view(r@) == keep_from(seq_view(v@), not_member_key(guild_id, user_id), i as int),
    decreases v.len() - i,
{
    if i >= v.len() {
        let r: Vec<CachedMember> = Vec::new();
        proof {
            assert(seq_view(r@) =~= keep_from(
                seq_view(v@),
                not_member_key(guild_id, user_id),
                i as int,
            ));
        }
        r
    } else {
        let mut rest = keep_members_by_key_at(v, guild_id, user_id, i + 1);
        if !(v[i].guild_id == guild_id && v[i].user_id == user_id) {
            rest.insert(0, clone_member(&v[i]));
            proof {
                assert(seq_view(rest@) =~= keep_from(
                    seq_view(v@),
                    not_member_key(guild_id, user_id),
                    i as int,
                ));
            }
        }
        rest
    }
}

fn keep_roles_by_guild_at(v: &Vec<Role>, guild_id: u64, i: usize) -> (r: Vec<Role>)
    requires
        i <= v.len(),
    ensures
        seq_view(r@) == keep_from(seq_view(v@), role_not_in_guild(guild_id), i as int),
    decreases v.len() - i,
{
    if i >= v.len() {
        let r: Vec<Role> = Vec::new();
        proof {
            assert(seq_view(r@) =~= keep_from(seq_view(v@), role_not_in_guild(guild_id), i as int));
        }
        r
    } else {
        let mut rest = keep_roles_by_guild_at(v, guild_id, i + 1);
        if v[i].guild_id != guild_id {
            rest.insert(0, clone_role(&v[i]));
            proof {
                assert(seq_view(rest@) =~= keep_from(
                    seq_view(v@),
                    role_not_in_guild(guild_id),
                    i as int,
                ));
            }
        }
        rest
    }
}

fn keep_voice_by_guild_at(v: &Vec<CachedVoiceState>, guild_id: u64, i: usize) -> (r: Vec<
    CachedVoiceState,
>)
    requires
        i <= v.len(),
    ensures
        seq_view(r@) == keep_from(seq_view(v@), voice_not_in_guild(guild_id), i as int),
    decreases v.len() - i,
{
    if i >= v.len() {
        let r: Vec<CachedVoiceState> = Vec::new();
        proof {
            assert(seq_view(r@) =~= keep_from(
                seq_view(v@),
                voice_not_in_guild(guild_id),
                i as int,
            ));
        }
        r
    } else {
        let mut rest = keep_voice_by_guild_at(v, guild_id, i + 1);
        if v[i].guild_id != guild_id {
            rest.insert(0, clone_voice(&v[i]));
            proof {
                assert(seq_view(rest@) =~= keep_from(
                    seq_view(v@),
                    voice_not_in_guild(guild_id),
                    i as int,
                ));
            }
        }
        rest
    }
}

fn mark_guilds_at(v: &Vec<CachedGuild>, id: u64, i: usize) -> (r: Vec<CachedGuild>)
    requires
        i <= v.len(),
    ensures
        seq_view(r@) == mark_from(seq_view(v@), id, i as int),
    decreases v.len() - i,
{
    if i >= v.len() {
        let r: Vec<CachedGuild> = Vec::new();
        proof {
            assert(seq_view(r@) =~= mark_from(seq_view(v@), id, i as int));
        }
        r
    } else {
        let mut rest = mark_guilds_at(v, id, i + 1);
        let mut g = clone_guild(&v[i]);
        if g.id == id {
            g.unavailable = true;
        }
        rest.insert(0, g);
        proof {
            assert(seq_view(rest@) =~= mark_from(seq_view(v@), id, i as int));
        }
        rest
    }
}

// ---------------------------------------------------------------------------
// The cache itself.
// ---------------------------------------------------------------------------

impl GuildsModel {
    /// The state of a freshly created cache.
    pub open spec fn empty(shard_id: u64) -> GuildsModel {
        GuildsModel {
            guilds: Seq::empty(),
            channels: Seq::empty(),
            members: Seq::empty(),
            roles: Seq::empty(),
            voice_states: Seq::empty(),
            users: Seq::empty(),
            shard_id,
        }
    }
}

impl Guilds {
    /// A fresh, empty cache for one shard.
    pub fn new(shard_id: u64) -> (r: Guilds)
        ensures
            r@ == GuildsModel::empty(shard_id),
            r@.wf(),
    {
        let r = Guilds {
            guilds: Vec::new(),
            channels: Vec::new(),
            members: Vec::new(),
            roles: Vec::new(),
            voice_states: Vec::new(),
            users: Vec::new(),
            shard_id,
        };
        proof {
            assert(seq_view(r.guilds@) =~= Seq::<CachedGuildModel>::empty());
            assert(seq_view(r.channels@) =~= Seq::<ChannelModel>::empty());
            assert(seq_view(r.members@) =~= Seq::<CachedMemberModel>::empty());
            assert(seq_view(r.roles@) =~= Seq::<RoleModel>::empty());
            assert(seq_view(r.voice_states@) =~= Seq::<CachedVoiceStateModel>::empty());
            assert(seq_view(r.users@) =~= Seq::<UserModel>::empty());
        }
        r
    }

    /// Counts of the cached entities.
    pub fn stats(&self) -> (r: GuildsStats)
        ensures
            r.guilds == self@.guilds.len(),
            r.channels == self@.channels.len(),
            r.members == self@.members.len(),
            r.roles == self@.roles.len(),
            r.voice_states == self@.voice_states.len(),
            r.users == self@.users.len(),
    {
        GuildsStats {
            guilds: self.guilds.len(),
            channels: self.channels.len(),
            members: self.members.len(),
            roles: self.roles.len(),
            voice_states: self.voice_states.len(),
            users: self.users.len(),
        }
    }

    /// Applies one typed gateway event; the cache changes exactly as
    /// `spec_update` says, exactly once.
    pub fn update(&mut self, value: CacheUpdate)
        requires
            old(self)@.wf(),
        ensures
            final(self)@ == old(self)@.spec_update(value@),
            final(self)@.wf(),
    {
        match value {
            CacheUpdate::GuildCreate(g) => {
                proof {
                    lemma_upsert_distinct(seq_view(self.guilds@), g@, by_guild_id(g.id), guild_key(), 0);
                }
                upsert_guild_at(&mut self.guilds, g, 0);
            },
            CacheUpdate::GuildDelete(d) => {
                if d.unavailable {
                    self.guilds = mark_guilds_at(&self.guilds, d.id, 0);
                    proof {
                        lemma_mark_pointwise(seq_view(old(self).guilds@), d.id, 0);
                    }
                } else {
                    self.guilds = keep_guilds_at(&self.guilds, d.id, 0);
                    self.channels = keep_channels_by_guild_at(&self.channels, d.id, 0);
                    self.members = keep_members_by_guild_at(&self.members, d.id, 0);
                    self.roles = keep_roles_by_guild_at(&self.roles, d.id, 0);
                    self.voice_states = keep_voice_by_guild_at(&self.voice_states, d.id, 0);
                    proof {
                        lemma_keep_distinct(seq_view(old(self).guilds@), not_guild(d.id), guild_key(), 0);
                        lemma_keep_distinct(
                            seq_view(old(self).channels@),
                            chan_not_in_guild(d.id),
                            channel_key(),
                            0,
                        );
                        lemma_keep_distinct(
                            seq_view(old(self).members@),
                            member_not_in_guild(d.id),
                            member_key(),
                            0,
                        );
                        lemma_keep_distinct(
                            seq_view(old(self).roles@),
                            role_not_in_guild(d.id),
                            role_key(),
                            0,
                        );
                        lemma_keep_distinct(
                            seq_view(old(self).voice_states@),
                            voice_not_in_guild(d.id),
                            voice_key(),
                            0,
                        );
                    }
                }
            },
            CacheUpdate::ChannelCreate(c) => {
                proof {
                    lemma_upsert_distinct(
                        seq_view(self.channels@),
                        c@,
                        by_channel_id(c.id),
                        channel_key(),
                        0,
                    );
                }
                upsert_channel_at(&mut self.channels, c, 0);
            },
            CacheUpdate::ChannelDelete { id } => {
                self.channels = keep_channels_by_id_at(&self.channels, id, 0);
                proof {
                    lemma_keep_distinct(
                        seq_view(old(self).channels@),
                        not_channel(id),
                        channel_key(),
                        0,
                    );
                }
            },
            CacheUpdate::MemberAdd { member, user } => {
                proof {
                    lemma_upsert_distinct(
                        seq_view(self.members@),
                        member@,
                        by_member_key(member.guild_id, member.user_id),
                        member_key(),
                        0,
                    );
                    lemma_upsert_distinct(seq_view(self.users@), user@, by_user_id(user.id), user_key(), 0);
                }
                upsert_member_at(&mut self.members, member, 0);
                upsert_user_at(&mut self.users, user, 0);
            },
            CacheUpdate::MemberRemove { guild_id, user_id } => {
                self.members = keep_members_by_key_at(&self.members, guild_id, user_id, 0);
                proof {
                    lemma_keep_distinct(
                        seq_view(old(self).members@),
                        not_member_key(guild_id, user_id),
                        member_key(),
                        0,
                    );
                }
            },
            CacheUpdate::RoleCreate(r) => {
                proof {
                    lemma_upsert_distinct(
                        seq_view(self.roles@),
                        r@,
                        by_role_key(r.guild_id, r.id),
                        role_key(),
                        0,
                    );
                }
                upsert_role_at(&mut self.roles, r, 0);
            },
            CacheUpdate::VoiceStateUpdate(v) => {
                proof {
                    lemma_upsert_distinct(
                        seq_view(self.voice_states@),
                        v@,
                        by_voice_key(v.guild_id, v.user_id),
                        voice_key(),
                        0,
                    );
                }
                upsert_voice_at(&mut self.voice_states, v, 0);
            },
            CacheUpdate::UserUpdate(u) => {
                proof {
                    lemma_upsert_distinct(seq_view(self.users@), u@, by_user_id(u.id), user_key(), 0);
                }
                upsert_user_at(&mut self.users, u, 0);
            },
        }
    }

    fn find_user_at(&self, user_id: u64, i: usize) -> (r: Option<User>)
        requires
            i <= self.users.len(),
        ensures
            opt_view(r) == find_user_from(self@.users, user_id, i as int),
        decreases self.users.len() - i,
    {
        if i >= self.users.len() {
            None
        } else if self.users[i].id == user_id {
            Some(clone_user(&self.users[i]))
        } else {
            self.find_user_at(user_id, i + 1)
        }
    }

    fn find_member_at(&self, guild_id: u64, user_id: u64, i: usize) -> (r: Option<CachedMember>)
        requires
            i <= self.members.len(),
        ensures
            opt_view(r) == find_member_from(self@.members, guild_id, user_id, i as int),
        decreases self.members.len() - i,
    {
        if i >= self.members.len() {
            None
        } else if self.members[i].guild_id == guild_id && self.members[i].user_id == user_id {
            Some(clone_member(&self.members[i]))
        } else {
            self.find_member_at(guild_id, user_id, i + 1)
        }
    }

    /// The hydrated member, or `None` when the member or its user is not
    /// cached.
    pub fn member(&self, guild_id: u64, user_id: u64) -> (r: Option<Member>)
        ensures
            opt_view(r) == self@.spec_member(guild_id, user_id),
    {
        match self.find_member_at(guild_id, user_id, 0) {
            None => None,
            Some(m) => match self.find_user_at(user_id, 0) {
                None => None,
                Some(u) => Some(hydrate_member(&m, u)),
            },
        }
    }

    fn channels_at(&self, guild_id: u64, want_thread: bool, i: usize) -> (r: Vec<Channel>)
        requires
            i <= self.channels.len(),
        ensures
            seq_view(r@) == channels_from(self@.channels, guild_id, want_thread, i as int),
        decreases self.channels.len() - i,
    {
        if i >= self.channels.len() {
            let r: Vec<Channel> = Vec::new();
            proof {
                assert(seq_view(r@) =~= channels_from(self@.channels, guild_id, want_thread, i as int));
            }
            r
        } else {
            let mut rest = self.channels_at(guild_id, want_thread, i + 1);
            let c = &self.channels[i];
            if c.guild_id == guild_id && c.kind.is_thread() == want_thread {
                rest.insert(0, clone_channel(c));
                proof {
                    assert(seq_view(rest@) =~= channels_from(
                        self@.channels,
                        guild_id,
                        want_thread,
                        i as int,
                    ));
                }
            }
            rest
        }
    }

    /// All the guild's non-thread channels, in cache order.
    pub fn channels_in_guild(&self, guild_id: u64) -> (r: Vec<Channel>)
        ensures
            seq_view(r@) == self@.spec_channels_in_guild(guild_id),
    {
        self.channels_at(guild_id, false, 0)
    }

    /// All the guild's threads, in cache order.
    pub fn threads_in_guild(&self, guild_id: u64) -> (r: Vec<Channel>)
        ensures
            seq_view(r@) == self@.spec_threads_in_guild(guild_id),
    {
        self.channels_at(guild_id, true, 0)
    }

    fn roles_at(&self, guild_id: u64, i: usize) -> (r: Vec<Role>)
        requires
            i <= self.roles.len(),
        ensures
            seq_view(r@) == roles_from(self@.roles, guild_id, i as int),
        decreases self.roles.len() - i,
    {
        if i >= self.roles.len() {
            let r: Vec<Role> = Vec::new();
            proof {
                assert(seq_view(r@) =~= roles_from(self@.roles, guild_id, i as int));
            }
            r
        } else {
            let mut rest = self.roles_at(guild_id, i + 1);
            if self.roles[i].guild_id == guild_id {
                rest.insert(0, clone_role(&self.roles[i]));
                proof {
                    assert(seq_view(rest@) =~= roles_from(self@.roles, guild_id, i as int));
                }
            }
            rest
        }
    }

    /// All the guild's roles, in cache order.
    pub fn roles_in_guild(&self, guild_id: u64) -> (r: Vec<Role>)
        ensures
            seq_view(r@) == self@.spec_roles_in_guild(guild_id),
    {
        self.roles_at(guild_id, 0)
    }

    fn members_at(&self, guild_id: u64, i: usize) -> (r: Vec<Member>)
        requires
            i <= self.members.len(),
        ensures
            seq_view(r@) == self@.members_from(guild_id, i as int),
        decreases self.members.len() - i,
    {
        if i >= self.members.len() {
            let r: Vec<Member> = Vec::new();
            proof {
                assert(seq_view(r@) =~= self@.members_from(guild_id, i as int));
            }
            r
        } else {
            let mut rest = self.members_at(guild_id, i + 1);
            let m = &self.members[i];
            if m.guild_id == guild_id {
                match self.find_user_at(m.user_id, 0) {
                    Some(u) => {
                        rest.insert(0, hydrate_member(m, u));
                        proof {
                            assert(seq_view(rest@) =~= self@.members_from(guild_id, i as int));
                        }
                    },
                    None => {},
                }
            }
            rest
        }
    }

    /// The guild's hydrated members; members whose user is not cached are
    /// omitted silently.
    pub fn members_in_guild(&self, guild_id: u64) -> (r: Vec<Member>)
        ensures
            seq_view(r@) == self@.spec_members_in_guild(guild_id),
    {
        self.members_at(guild_id, 0)
    }

    fn voice_states_at(&self, guild_id: u64, i: usize) -> (r: Vec<VoiceState>)
        requires
            i <= self.voice_states.len(),
        ensures
            seq_view(r@) == self@.voice_states_from(guild_id, i as int),
        decreases self.voice_states.len() - i,
    {
        if i >= self.voice_states.len() {
            let r: Vec<VoiceState> = Vec::new();
            proof {
                assert(seq_view(r@) =~= self@.voice_states_from(guild_id, i as int));
            }
            r
        } else {
            let mut rest = self.voice_states_at(guild_id, i + 1);
            let v = &self.voice_states[i];
            if v.guild_id == guild_id {
                let vs = VoiceState {
                    channel_id: Some(v.channel_id),
                    deaf: v.deaf,
                    guild_id: Some(v.guild_id),
                    member: self.member(v.guild_id, v.user_id),
                    mute: v.mute,
                    self_deaf: v.self_deaf,
                    self_mute: v.self_mute,
                    self_stream: v.self_stream,
                    self_video: v.self_video,
                    session_id: v.session_id.clone(),
                    suppress: v.suppress,
                    user_id: v.user_id,
                    request_to_speak_timestamp: v.request_to_speak_timestamp,
                };
                rest.insert(0, vs);
                proof {
                    assert(seq_view(rest@) =~= self@.voice_states_from(guild_id, i as int));
                }
            }
            rest
        }
    }

    /// The guild's voice states, each with `guild_id` and `channel_id`
    /// populated and the member attached when its user is cached.
    pub fn voice_states_in_guild(&self, guild_id: u64) -> (r: Vec<VoiceState>)
        ensures
            seq_view(r@) == self@.spec_voice_states_in_guild(guild_id),
    {
        self.voice_states_at(guild_id, 0)
    }

    fn guild_stubs(&self) -> (r: Vec<UnavailableGuild>)
        ensures
            r@ == self@.spec_guild_stubs(),
    {
        let mut r: Vec<UnavailableGuild> = Vec::new();
        let mut i: usize = 0;
        while i < self.guilds.len()
            invariant
                i <= self.guilds.len(),
                r@ == self@.spec_guild_stubs().take(i as int),
            decreases self.guilds.len() - i,
        {
            r.push(UnavailableGuild { id: self.guilds[i].id });
            i = i + 1;
            proof {
                assert(r@ =~= self@.spec_guild_stubs().take(i as int));
            }
        }
        proof {
            assert(self@.spec_guild_stubs().take(self.guilds@.len() as int) =~= self@.spec_guild_stubs());
        }
        r
    }

    /// The synthetic `READY`: the stored template with a `guilds` array of
    /// one `{id, unavailable: true}` stub per cached guild, under the next
    /// sequence number.
    pub fn get_ready_payload(&self, ready: ReadyTemplate, sequence: &mut usize) -> (r: Payload)
        requires
            *old(sequence) < usize::MAX,
        ensures
            *final(sequence) == *old(sequence) + 1,
            r@ == self@.spec_ready_payload(ready@, (*old(sequence) + 1) as usize),
    {
        *sequence = *sequence + 1;
        Payload {
            d: Event::Ready(ReadyEvent { template: ready, guilds: self.guild_stubs() }),
            op: 0,
            t: EventName::Ready,
            s: *sequence,
        }
    }

    /// The one payload replayed for `g` under sequence number `s`. Public
    /// so a caller can emit the per-guild replay lazily, one payload per
    /// socket write, as `spec_guild_payloads` numbers them.
    pub fn build_guild_payload(&self, g: &CachedGuild, s: usize) -> (p: Payload)
        ensures
            p@ == self@.spec_guild_payload(g@, s),
    {
        if g.unavailable {
            Payload {
                d: Event::GuildDelete(GuildDelete { id: g.id, unavailable: true }),
                op: 0,
                t: EventName::GuildDelete,
                s,
            }
        } else {
            let guild = Guild {
                channels: self.channels_in_guild(g.id),
                id: g.id,
                member_count: g.member_count,
                members: self.members_in_guild(g.id),
                name: g.name.clone(),
                owner_id: g.owner_id,
                permissions: g.permissions,
                roles: self.roles_in_guild(g.id),
                threads: self.threads_in_guild(g.id),
                unavailable: false,
                voice_states: self.voice_states_in_guild(g.id),
            };
            Payload {
                d: Event::GuildCreate(Box::new(guild)),
                op: 0,
                t: EventName::GuildCreate,
                s,
            }
        }
    }

    fn guild_payloads_at(&self, i: usize, s0: usize) -> (r: Vec<Payload>)
        requires
            i <= self.guilds.len(),
            s0 + self.guilds@.len() <= usize::MAX,
        ensures
            seq_view(r@) == self@.spec_guild_payloads(i as int, s0 as int),
        decreases self.guilds.len() - i,
    {
        if i >= self.guilds.len() {
            let r: Vec<Payload> = Vec::new();
            proof {
                assert(seq_view(r@) =~= self@.spec_guild_payloads(i as int, s0 as int));
            }
            r
        } else {
            let p = self.build_guild_payload(&self.guilds[i], s0 + 1 + i);
            let mut rest = self.guild_payloads_at(i + 1, s0);
            rest.insert(0, p);
            proof {
                assert(seq_view(rest@) =~= self@.spec_guild_payloads(i as int, s0 as int));
            }
            rest
        }
    }

    /// One payload per cached guild, in cache order: a reconstructed
    /// `GUILD_CREATE` for an available guild, a `GUILD_DELETE` for an
    /// unavailable one, under consecutive sequence numbers.
    pub fn get_guild_payloads(&self, sequence: &mut usize) -> (r: Vec<Payload>)
        requires
            *old(sequence) + self.guilds@.len() <= usize::MAX,
        ensures
            *final(sequence) == *old(sequence) + self.guilds@.len(),
            seq_view(r@) == self@.spec_guild_payloads(0, *old(sequence) as int),
    {
        let s0: usize = *sequence;
        let r = self.guild_payloads_at(0, s0);
        *sequence = s0 + self.guilds.len();
        r
    }
}

// ---------------------------------------------------------------------------
// Laws about the replay.
// ---------------------------------------------------------------------------

/// Thread partition: every channel of the guild is replayed in exactly one of
/// `channels` and `threads`; everything in `threads` is a thread and nothing
/// in `channels` is.
pub proof fn lemma_channels_from_membership(
    chans: Seq<ChannelModel>,
    guild_id: u64,
    want_thread: bool,
    i: int,
)
    requires
        0 <= i,
    ensures
        forall|c: ChannelModel|
            channels_from(chans, guild_id, want_thread, i).contains(c) <==> exists|j: int|
                i <= j < chans.len() && chans[j] == c && c.guild_id == guild_id
                    && c.kind.spec_is_thread() == want_thread,
    decreases chans.len() - i,
{
    if i < chans.len() {
        lemma_channels_from_membership(chans, guild_id, want_thread, i + 1);
        let rest = channels_from(chans, guild_id, want_thread, i + 1);
        let whole = channels_from(chans, guild_id, want_thread, i);
        assert forall|c: ChannelModel| whole.contains(c) implies exists|j: int|
            i <= j < chans.len() && chans[j] == c && c.guild_id == guild_id
                && c.kind.spec_is_thread() == want_thread by {
            if chans[i].guild_id == guild_id && chans[i].kind.spec_is_thread() == want_thread {
                let k = choose|k: int| 0 <= k < whole.len() && whole[k] == c;
                if k == 0 {
                    assert(chans[i] == c);
                } else {
                    assert(rest[k - 1] == c);
                    assert(rest.contains(c));
                }
            } else {
                assert(rest.contains(c));
            }
        }
        assert forall|c: ChannelModel|
            (exists|j: int|
                i <= j < chans.len() && chans[j] == c && c.guild_id == guild_id
                    && c.kind.spec_is_thread() == want_thread) implies whole.contains(c) by {
            let j = choose|j: int|
                i <= j < chans.len() && chans[j] == c && c.guild_id == guild_id
                    && c.kind.spec_is_thread() == want_thread;
            if j == i {
                assert(whole[0] == c);
            } else {
                assert(rest.contains(c));
                let k = choose|k: int| 0 <= k < rest.len() && rest[k] == c;
                if chans[i].guild_id == guild_id && chans[i].kind.spec_is_thread() == want_thread {
                    assert(whole[k + 1] == c);
                } else {
                    assert(whole[k] == c);
                }
            }
        }
    }
}

/// The thread partition law: in every reconstructed `GUILD_CREATE`, the union
/// of `channels` and `threads` is exactly the guild's cached channel set, the
/// two are disjoint, and the thread flag separates them.
pub proof fn lemma_thread_partition(cm: GuildsModel, guild_id: u64)
    ensures
        forall|c: ChannelModel|
            cm.spec_threads_in_guild(guild_id).contains(c) ==> c.kind.spec_is_thread(),
        forall|c: ChannelModel|
            cm.spec_channels_in_guild(guild_id).contains(c) ==> !c.kind.spec_is_thread(),
        forall|c: ChannelModel|
            !(cm.spec_channels_in_guild(guild_id).contains(c) && cm.spec_threads_in_guild(
                guild_id,
            ).contains(c)),
        forall|c: ChannelModel|
            (cm.channels.contains(c) && c.guild_id == guild_id) <==> (cm.spec_channels_in_guild(
                guild_id,
            ).contains(c) || cm.spec_threads_in_guild(guild_id).contains(c)),
{
    lemma_channels_from_membership(cm.channels, guild_id, false, 0);
    lemma_channels_from_membership(cm.channels, guild_id, true, 0);
    assert forall|c: ChannelModel| cm.channels.contains(c) && c.guild_id == guild_id implies (
    cm.spec_channels_in_guild(guild_id).contains(c) || cm.spec_threads_in_guild(guild_id).contains(
        c,
    )) by {
        let j = choose|j: int| 0 <= j < cm.channels.len() && cm.channels[j] == c;
        assert(exists|k: int|
            0 <= k < cm.channels.len() && cm.channels[k] == c && c.guild_id == guild_id
                && c.kind.spec_is_thread() == c.kind.spec_is_thread());
    }
}

/// Replay completeness: for any cache state, the synthetic `READY` carries
/// one guild stub per cached guild, in cache order, and a stub holds nothing
/// but the guild's id (its serialized form is always
/// `{"id": ..., "unavailable": true}`).
pub proof fn lemma_ready_completeness(cm: GuildsModel, template: ReadyTemplateModel, s: usize)
    ensures
        cm.spec_ready_payload(template, s).d matches EventModel::Ready(re) && re.guilds.len()
            == cm.guilds.len() && (forall|i: int|
            0 <= i < cm.guilds.len() ==> #[trigger] re.guilds[i] == UnavailableGuild {
                id: cm.guilds[i].id,
            }),
{
}

/// Sequence contiguity of the per-guild replay: the `i`th payload carries
/// sequence number `s0 + 1 + i`.
pub proof fn lemma_guild_payload_sequence(cm: GuildsModel, i: int, s0: int)
    requires
        0 <= i <= cm.guilds.len(),
        0 <= s0,
        s0 + cm.guilds.len() <= usize::MAX,
    ensures
        cm.spec_guild_payloads(i, s0).len() == cm.guilds.len() - i,
        forall|j: int|
            0 <= j < cm.guilds.len() - i ==> #[trigger] cm.spec_guild_payloads(i, s0)[j].s == s0 + 1
                + i + j,
    decreases cm.guilds.len() - i,
{
    if i < cm.guilds.len() {
        lemma_guild_payload_sequence(cm, i + 1, s0);
    }
}

/// Sequence monotonicity of the whole catch-up stream: a client that starts
/// at sequence `s0` sees `s0 + 1, s0 + 2, ...` with no gap and no repeat; a
/// fresh client (`s0 == 0`) sees `1, 2, 3, ...`.
pub proof fn lemma_replay_sequence(cm: GuildsModel, template: ReadyTemplateModel, s0: int)
    requires
        0 <= s0,
        s0 + 1 + cm.guilds.len() <= usize::MAX,
    ensures
        cm.spec_replay(template, s0).len() == 1 + cm.guilds.len(),
        forall|j: int|
            0 <= j < 1 + cm.guilds.len() ==> #[trigger] cm.spec_replay(template, s0)[j].s == s0 + 1
                + j,
{
    lemma_guild_payload_sequence(cm, 0, s0 + 1);
    let r = cm.spec_replay(template, s0);
    assert forall|j: int| 0 <= j < 1 + cm.guilds.len() implies #[trigger] r[j].s == s0 + 1 + j by {
        if j > 0 {
            assert(r[j] == cm.spec_guild_payloads(0, s0 + 1)[j - 1]);
        }
    }
}

} // verus!
