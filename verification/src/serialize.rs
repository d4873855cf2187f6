//! Writing the synthetic payloads as JSON text: the exact frames a client
//! is sent, character for character.

use vstd::prelude::*;

use crate::cache::{
    EventModel, EventName, Payload, PayloadModel, ReadyEventModel,
};
use crate::model::{
    seq_view, Channel, ChannelKind, ChannelModel, Guild, GuildDelete, GuildModel, Member,
    MemberModel, Role, RoleModel, UnavailableGuild, User, UserModel, VoiceState, VoiceStateModel,
};
use crate::text::{spec_digits, u64_to_string};

verus! {

// ---------------------------------------------------------------------------
// Scalars.
// ---------------------------------------------------------------------------

/// One character of a JSON string body, with `"` and `\` escaped.
pub open spec fn esc_char(c: char) -> Seq<char> {
    if c == '"' {
        "\\\""@
    } else if c == '\\' {
        "\\\\"@
    } else {
        seq![c]
    }
}

pub open spec fn escape_chars(s: Seq<char>) -> Seq<char>
    decreases s.len(),
{
    if s.len() == 0 {
        Seq::empty()
    } else {
        escape_chars(s.drop_last()) + esc_char(s.last())
    }
}

/// A JSON string: quoted and escaped.
pub open spec fn json_string(s: Seq<char>) -> Seq<char> {
    "\""@ + escape_chars(s) + "\""@
}

pub open spec fn bool_json(b: bool) -> Seq<char> {
    if b {
        "true"@
    } else {
        "false"@
    }
}

/// A signed number in decimal.
pub open spec fn i64_json(n: int) -> Seq<char> {
    if n < 0 {
        "-"@ + spec_digits((-n) as nat)
    } else {
        spec_digits(n as nat)
    }
}

/// An id written the way the gateway writes snowflakes: as a quoted decimal.
pub open spec fn id_json(n: u64) -> Seq<char> {
    "\""@ + spec_digits(n as nat) + "\""@
}

pub open spec fn opt_u64_json(o: Option<u64>) -> Seq<char> {
    match o {
        None => "null"@,
        Some(n) => spec_digits(n as nat),
    }
}

pub open spec fn opt_id_json(o: Option<u64>) -> Seq<char> {
    match o {
        None => "null"@,
        Some(n) => id_json(n),
    }
}

pub open spec fn opt_i64_json(o: Option<i64>) -> Seq<char> {
    match o {
        None => "null"@,
        Some(n) => i64_json(n as int),
    }
}

pub open spec fn opt_string_json(o: Option<Seq<char>>) -> Seq<char> {
    match o {
        None => "null"@,
        Some(s) => json_string(s),
    }
}

fn escape_str(s: &str) -> (r: String)
    ensures
        r@ == escape_chars(s@),
{
    let mut out = String::new();
    let mut i: usize = 0;
    let n = s.unicode_len();
    while i < n
        invariant
            0 <= i <= n,
            n == s@.len(),
            out@ == escape_chars(s@.take(i as int)),
        decreases n - i,
    {
        let c = s.get_char(i);
        if c == '"' {
            out.append("\\\"");
        } else if c == '\\' {
            out.append("\\\\");
        } else {
            out.append(s.substring_char(i, i + 1));
            proof {
                assert(s@.subrange(i as int, i as int + 1) =~= seq![s@[i as int]]);
            }
        }
        i = i + 1;
        proof {
            assert(s@.take(i as int).drop_last() =~= s@.take(i as int - 1));
            assert(s@.take(i as int).last() == s@[i as int - 1]);
        }
    }
    proof {
        assert(s@.take(n as int) =~= s@);
    }
    out
}

fn append_json_string(out: &mut String, s: &str)
    ensures
        final(out)@ == old(out)@ + json_string(s@),
{
    out.append("\"");
    let esc = escape_str(s);
    out.append(esc.as_str());
    out.append("\"");
}

fn append_bool(out: &mut String, b: bool)
    ensures
        final(out)@ == old(out)@ + bool_json(b),
{
    if b {
        out.append("true");
    } else {
        out.append("false");
    }
}

fn append_u64(out: &mut String, n: u64)
    ensures
        final(out)@ == old(out)@ + spec_digits(n as nat),
{
    let d = u64_to_string(n);
    out.append(d.as_str());
}

fn append_id(out: &mut String, n: u64)
    ensures
        final(out)@ == old(out)@ + id_json(n),
{
    out.append("\"");
    append_u64(out, n);
    out.append("\"");
}

fn append_i64(out: &mut String, n: i64)
    ensures
        final(out)@ == old(out)@ + i64_json(n as int),
{
    if n >= 0 {
        append_u64(out, n as u64);
    } else {
        out.append("-");
        let mag: u64 = (-(n as i128)) as u64;
        append_u64(out, mag);
    }
}

fn append_opt_u64(out: &mut String, o: &Option<u64>)
    ensures
        final(out)@ == old(out)@ + opt_u64_json(*o),
{
    match o {
        None => out.append("null"),
        Some(n) => append_u64(out, *n),
    }
}

fn append_opt_id(out: &mut String, o: &Option<u64>)
    ensures
        final(out)@ == old(out)@ + opt_id_json(*o),
{
    match o {
        None => out.append("null"),
        Some(n) => append_id(out, *n),
    }
}

fn append_opt_i64(out: &mut String, o: &Option<i64>)
    ensures
        final(out)@ == old(out)@ + opt_i64_json(*o),
{
    match o {
        None => out.append("null"),
        Some(n) => append_i64(out, *n),
    }
}

fn append_opt_string(out: &mut String, o: &Option<String>)
    ensures
        final(out)@ == old(out)@ + opt_string_json(crate::model::opt_str_view(*o)),
{
    match o {
        None => out.append("null"),
        Some(s) => append_json_string(out, s.as_str()),
    }
}

/// The wire code of a channel kind.
pub open spec fn kind_code(k: ChannelKind) -> nat {
    match k {
        ChannelKind::Text => 0,
        ChannelKind::Voice => 2,
        ChannelKind::Category => 4,
        ChannelKind::Announcement => 5,
        ChannelKind::AnnouncementThread => 10,
        ChannelKind::PublicThread => 11,
        ChannelKind::PrivateThread => 12,
        ChannelKind::StageVoice => 13,
        ChannelKind::Forum => 15,
    }
}

fn kind_code_x(k: &ChannelKind) -> (r: u64)
    ensures
        r as nat == kind_code(*k),
{
    match k {
        ChannelKind::Text => 0,
        ChannelKind::Voice => 2,
        ChannelKind::Category => 4,
        ChannelKind::Announcement => 5,
        ChannelKind::AnnouncementThread => 10,
        ChannelKind::PublicThread => 11,
        ChannelKind::PrivateThread => 12,
        ChannelKind::StageVoice => 13,
        ChannelKind::Forum => 15,
    }
}

// ---------------------------------------------------------------------------
// Entities.
// ---------------------------------------------------------------------------

pub open spec fn channel_json(c: ChannelModel) -> Seq<char> {
    "{\"id\":"@ + id_json(c.id) + ",\"guild_id\":"@ + id_json(c.guild_id) + ",\"type\":"@
        + spec_digits(kind_code(c.kind)) + ",\"name\":"@ + json_string(c.name) + "}"@
}

fn append_channel(out: &mut String, c: &Channel)
    ensures
        final(out)@ == old(out)@ + channel_json(c@),
{
    out.append("{\"id\":");
    append_id(out, c.id);
    out.append(",\"guild_id\":");
    append_id(out, c.guild_id);
    out.append(",\"type\":");
    let code = kind_code_x(&c.kind);
    append_u64(out, code);
    out.append(",\"name\":");
    append_json_string(out, c.name.as_str());
    out.append("}");
}

pub open spec fn user_json(u: UserModel) -> Seq<char> {
    "{\"id\":"@ + id_json(u.id) + ",\"username\":"@ + json_string(u.name) + ",\"bot\":"@
        + bool_json(u.bot) + "}"@
}

fn append_user(out: &mut String, u: &User)
    ensures
        final(out)@ == old(out)@ + user_json(u@),
{
    out.append("{\"id\":");
    append_id(out, u.id);
    out.append(",\"username\":");
    append_json_string(out, u.name.as_str());
    out.append(",\"bot\":");
    append_bool(out, u.bot);
    out.append("}");
}

/// The quoted role ids of a member, comma separated.
pub open spec fn ids_json(ids: Seq<u64>) -> Seq<char>
    decreases ids.len(),
{
    if ids.len() == 0 {
        Seq::empty()
    } else if ids.len() == 1 {
        id_json(ids[0])
    } else {
        ids_json(ids.drop_last()) + ","@ + id_json(ids.last())
    }
}

fn append_ids(out: &mut String, ids: &Vec<u64>)
    ensures
        final(out)@ == old(out)@ + ids_json(ids@),
{
    let mut i: usize = 0;
    while i < ids.len()
        invariant
            0 <= i <= ids@.len(),
            out@ == old(out)@ + ids_json(ids@.take(i as int)),
        decreases ids@.len() - i,
    {
        if i > 0 {
            out.append(",");
        }
        append_id(out, ids[i]);
        i = i + 1;
        proof {
            assert(ids@.take(i as int).drop_last() =~= ids@.take(i as int - 1));
        }
    }
    proof {
        assert(ids@.take(ids@.len() as int) =~= ids@);
    }
}

pub open spec fn member_head_json(m: MemberModel) -> Seq<char> {
    "{\"avatar\":"@ + opt_string_json(m.avatar) + ",\"communication_disabled_until\":"@
        + opt_i64_json(m.communication_disabled_until) + ",\"deaf\":"@ + bool_json(m.deaf)
        + ",\"flags\":"@ + spec_digits(m.flags as nat) + ",\"joined_at\":"@ + opt_i64_json(
        m.joined_at,
    ) + ",\"mute\":"@ + bool_json(m.mute)
}

pub open spec fn member_tail_json(m: MemberModel) -> Seq<char> {
    ",\"nick\":"@ + opt_string_json(m.nick) + ",\"pending\":"@ + bool_json(m.pending)
        + ",\"premium_since\":"@ + opt_i64_json(m.premium_since) + ",\"roles\":["@ + ids_json(
        m.roles,
    ) + "],\"user\":"@ + user_json(m.user) + "}"@
}

pub open spec fn member_json(m: MemberModel) -> Seq<char> {
    member_head_json(m) + member_tail_json(m)
}

#[verifier::rlimit(60)]
fn append_member_head(out: &mut String, m: &Member)
    ensures
        final(out)@ == old(out)@ + member_head_json(m@),
{
    out.append("{\"avatar\":");
    append_opt_string(out, &m.avatar);
    out.append(",\"communication_disabled_until\":");
    append_opt_i64(out, &m.communication_disabled_until);
    out.append(",\"deaf\":");
    append_bool(out, m.deaf);
    out.append(",\"flags\":");
    append_u64(out, m.flags);
    out.append(",\"joined_at\":");
    append_opt_i64(out, &m.joined_at);
    out.append(",\"mute\":");
    append_bool(out, m.mute);
}

#[verifier::rlimit(60)]
fn append_member_tail(out: &mut String, m: &Member)
    ensures
        final(out)@ == old(out)@ + member_tail_json(m@),
{
    out.append(",\"nick\":");
    append_opt_string(out, &m.nick);
    out.append(",\"pending\":");
    append_bool(out, m.pending);
    out.append(",\"premium_since\":");
    append_opt_i64(out, &m.premium_since);
    out.append(",\"roles\":[");
    append_ids(out, &m.roles);
    out.append("],\"user\":");
    append_user(out, &m.user);
    out.append("}");
}

fn append_member(out: &mut String, m: &Member)
    ensures
        final(out)@ == old(out)@ + member_json(m@),
{
    append_member_head(out, m);
    append_member_tail(out, m);
    proof {
        assert(out@ =~= old(out)@ + member_json(m@));
    }
}

pub open spec fn role_json(r: RoleModel) -> Seq<char> {
    "{\"guild_id\":"@ + id_json(r.guild_id) + ",\"id\":"@ + id_json(r.id) + ",\"name\":"@
        + json_string(r.name) + ",\"permissions\":"@ + id_json(r.permissions) + "}"@
}

fn append_role(out: &mut String, r: &Role)
    ensures
        final(out)@ == old(out)@ + role_json(r@),
{
    out.append("{\"guild_id\":");
    append_id(out, r.guild_id);
    out.append(",\"id\":");
    append_id(out, r.id);
    out.append(",\"name\":");
    append_json_string(out, r.name.as_str());
    out.append(",\"permissions\":");
    append_id(out, r.permissions);
    out.append("}");
}

pub open spec fn opt_member_json(o: Option<MemberModel>) -> Seq<char> {
    match o {
        None => "null"@,
        Some(m) => member_json(m),
    }
}

pub open spec fn voice_head_json(v: VoiceStateModel) -> Seq<char> {
    "{\"channel_id\":"@ + opt_id_json(v.channel_id) + ",\"deaf\":"@ + bool_json(v.deaf)
        + ",\"guild_id\":"@ + opt_id_json(v.guild_id) + ",\"member\":"@ + opt_member_json(v.member)
        + ",\"mute\":"@ + bool_json(v.mute) + ",\"self_deaf\":"@ + bool_json(v.self_deaf)
}

pub open spec fn voice_mid_json(v: VoiceStateModel) -> Seq<char> {
    ",\"self_mute\":"@ + bool_json(v.self_mute) + ",\"self_stream\":"@ + bool_json(v.self_stream)
        + ",\"self_video\":"@ + bool_json(v.self_video) + ",\"session_id\":"@ + json_string(
        v.session_id,
    )
}

pub open spec fn voice_tail_json(v: VoiceStateModel) -> Seq<char> {
    voice_mid_json(v) + (",\"suppress\":"@ + bool_json(v.suppress) + ",\"user_id\":"@ + id_json(
        v.user_id,
    ) + ",\"request_to_speak_timestamp\":"@ + opt_i64_json(v.request_to_speak_timestamp) + "}"@)
}

pub open spec fn voice_state_json(v: VoiceStateModel) -> Seq<char> {
    voice_head_json(v) + voice_tail_json(v)
}

#[verifier::rlimit(100)]
fn append_voice_head(out: &mut String, v: &VoiceState)
    ensures
        final(out)@ == old(out)@ + voice_head_json(v@),
{
    out.append("{\"channel_id\":");
    append_opt_id(out, &v.channel_id);
    out.append(",\"deaf\":");
    append_bool(out, v.deaf);
    out.append(",\"guild_id\":");
    append_opt_id(out, &v.guild_id);
    out.append(",\"member\":");
    match &v.member {
        None => out.append("null"),
        Some(m) => append_member(out, m),
    }
    out.append(",\"mute\":");
    append_bool(out, v.mute);
    out.append(",\"self_deaf\":");
    append_bool(out, v.self_deaf);
}

#[verifier::rlimit(60)]
fn append_voice_mid(out: &mut String, v: &VoiceState)
    ensures
        final(out)@ == old(out)@ + voice_mid_json(v@),
{
    out.append(",\"self_mute\":");
    append_bool(out, v.self_mute);
    out.append(",\"self_stream\":");
    append_bool(out, v.self_stream);
    out.append(",\"self_video\":");
    append_bool(out, v.self_video);
    out.append(",\"session_id\":");
    append_json_string(out, v.session_id.as_str());
}

#[verifier::rlimit(60)]
fn append_voice_tail(out: &mut String, v: &VoiceState)
    ensures
        final(out)@ == old(out)@ + voice_tail_json(v@),
{
    append_voice_mid(out, v);
    out.append(",\"suppress\":");
    append_bool(out, v.suppress);
    out.append(",\"user_id\":");
    append_id(out, v.user_id);
    out.append(",\"request_to_speak_timestamp\":");
    append_opt_i64(out, &v.request_to_speak_timestamp);
    out.append("}");
    proof {
        assert(out@ =~= old(out)@ + voice_tail_json(v@));
    }
}

fn append_voice_state(out: &mut String, v: &VoiceState)
    ensures
        final(out)@ == old(out)@ + voice_state_json(v@),
{
    append_voice_head(out, v);
    append_voice_tail(out, v);
    proof {
        assert(out@ =~= old(out)@ + voice_state_json(v@));
    }
}

// ---------------------------------------------------------------------------
// Lists.
// ---------------------------------------------------------------------------

pub open spec fn channels_json(cs: Seq<ChannelModel>) -> Seq<char>
    decreases cs.len(),
{
    if cs.len() == 0 {
        Seq::empty()
    } else if cs.len() == 1 {
        channel_json(cs[0])
    } else {
        channels_json(cs.drop_last()) + ","@ + channel_json(cs.last())
    }
}

fn append_channels(out: &mut String, cs: &Vec<Channel>)
    ensures
        final(out)@ == old(out)@ + channels_json(seq_view(cs@)),
{
    let mut i: usize = 0;
    while i < cs.len()
        invariant
            0 <= i <= cs@.len(),
            out@ == old(out)@ + channels_json(seq_view(cs@).take(i as int)),
        decreases cs@.len() - i,
    {
        if i > 0 {
            out.append(",");
        }
        append_channel(out, &cs[i]);
        i = i + 1;
        proof {
            assert(seq_view(cs@).take(i as int).drop_last() =~= seq_view(cs@).take(i as int - 1));
        }
    }
    proof {
        assert(seq_view(cs@).take(cs@.len() as int) =~= seq_view(cs@));
    }
}

pub open spec fn members_json(ms: Seq<MemberModel>) -> Seq<char>
    decreases ms.len(),
{
    if ms.len() == 0 {
        Seq::empty()
    } else if ms.len() == 1 {
        member_json(ms[0])
    } else {
        members_json(ms.drop_last()) + ","@ + member_json(ms.last())
    }
}

#[verifier::rlimit(60)]
fn append_members(out: &mut String, ms: &Vec<Member>)
    ensures
        final(out)@ == old(out)@ + members_json(seq_view(ms@)),
{
    let mut i: usize = 0;
    while i < ms.len()
        invariant
            0 <= i <= ms@.len(),
            out@ == old(out)@ + members_json(seq_view(ms@).take(i as int)),
        decreases ms@.len() - i,
    {
        if i > 0 {
            out.append(",");
        }
        append_member(out, &ms[i]);
        i = i + 1;
        proof {
            assert(seq_view(ms@).take(i as int).drop_last() =~= seq_view(ms@).take(i as int - 1));
        }
    }
    proof {
        assert(seq_view(ms@).take(ms@.len() as int) =~= seq_view(ms@));
    }
}

pub open spec fn roles_json(rs: Seq<RoleModel>) -> Seq<char>
    decreases rs.len(),
{
    if rs.len() == 0 {
        Seq::empty()
    } else if rs.len() == 1 {
        role_json(rs[0])
    } else {
        roles_json(rs.drop_last()) + ","@ + role_json(rs.last())
    }
}

fn append_roles(out: &mut String, rs: &Vec<Role>)
    ensures
        final(out)@ == old(out)@ + roles_json(seq_view(rs@)),
{
    let mut i: usize = 0;
    while i < rs.len()
        invariant
            0 <= i <= rs@.len(),
            out@ == old(out)@ + roles_json(seq_view(rs@).take(i as int)),
        decreases rs@.len() - i,
    {
        if i > 0 {
            out.append(",");
        }
        append_role(out, &rs[i]);
        i = i + 1;
        proof {
            assert(seq_view(rs@).take(i as int).drop_last() =~= seq_view(rs@).take(i as int - 1));
        }
    }
    proof {
        assert(seq_view(rs@).take(rs@.len() as int) =~= seq_view(rs@));
    }
}

pub open spec fn voice_states_json(vs: Seq<VoiceStateModel>) -> Seq<char>
    decreases vs.len(),
{
    if vs.len() == 0 {
        Seq::empty()
    } else if vs.len() == 1 {
        voice_state_json(vs[0])
    } else {
        voice_states_json(vs.drop_last()) + ","@ + voice_state_json(vs.last())
    }
}

#[verifier::rlimit(60)]
fn append_voice_states(out: &mut String, vs: &Vec<VoiceState>)
    ensures
        final(out)@ == old(out)@ + voice_states_json(seq_view(vs@)),
{
    let mut i: usize = 0;
    while i < vs.len()
        invariant
            0 <= i <= vs@.len(),
            out@ == old(out)@ + voice_states_json(seq_view(vs@).take(i as int)),
        decreases vs@.len() - i,
    {
        if i > 0 {
            out.append(",");
        }
        append_voice_state(out, &vs[i]);
        i = i + 1;
        proof {
            assert(seq_view(vs@).take(i as int).drop_last() =~= seq_view(vs@).take(i as int - 1));
        }
    }
    proof {
        assert(seq_view(vs@).take(vs@.len() as int) =~= seq_view(vs@));
    }
}

/// One `{"id":"..","unavailable":true}` stub of the synthetic `READY`.
pub open spec fn stub_json(u: UnavailableGuild) -> Seq<char> {
    "{\"id\":"@ + id_json(u.id) + ",\"unavailable\":true}"@
}

pub open spec fn stubs_json(us: Seq<UnavailableGuild>) -> Seq<char>
    decreases us.len(),
{
    if us.len() == 0 {
        Seq::empty()
    } else if us.len() == 1 {
        stub_json(us[0])
    } else {
        stubs_json(us.drop_last()) + ","@ + stub_json(us.last())
    }
}

fn append_stubs(out: &mut String, us: &Vec<UnavailableGuild>)
    ensures
        final(out)@ == old(out)@ + stubs_json(us@),
{
    let mut i: usize = 0;
    while i < us.len()
        invariant
            0 <= i <= us@.len(),
            out@ == old(out)@ + stubs_json(us@.take(i as int)),
        decreases us@.len() - i,
    {
        if i > 0 {
            out.append(",");
        }
        out.append("{\"id\":");
        append_id(out, us[i].id);
        out.append(",\"unavailable\":true}");
        i = i + 1;
        proof {
            assert(us@.take(i as int).drop_last() =~= us@.take(i as int - 1));
        }
    }
    proof {
        assert(us@.take(us@.len() as int) =~= us@);
    }
}

// ---------------------------------------------------------------------------
// Whole payloads.
// ---------------------------------------------------------------------------

pub open spec fn guild_head_json(g: GuildModel) -> Seq<char> {
    "{\"channels\":["@ + channels_json(g.channels) + "],\"id\":"@ + id_json(g.id)
        + ",\"member_count\":"@ + opt_u64_json(g.member_count) + ",\"members\":["@ + members_json(
        g.members,
    ) + "],\"name\":"@ + json_string(g.name)
}

pub open spec fn guild_tail_json(g: GuildModel) -> Seq<char> {
    ",\"owner_id\":"@ + id_json(g.owner_id) + ",\"permissions\":"@ + opt_id_json(g.permissions)
        + ",\"roles\":["@ + roles_json(g.roles) + "],\"threads\":["@ + channels_json(g.threads)
        + "],\"unavailable\":"@ + bool_json(g.unavailable) + ",\"voice_states\":["@
        + voice_states_json(g.voice_states) + "]}"@
}

pub open spec fn guild_json(g: GuildModel) -> Seq<char> {
    guild_head_json(g) + guild_tail_json(g)
}

#[verifier::rlimit(60)]
fn append_guild_head(out: &mut String, g: &Guild)
    ensures
        final(out)@ == old(out)@ + guild_head_json(g@),
{
    out.append("{\"channels\":[");
    append_channels(out, &g.channels);
    out.append("],\"id\":");
    append_id(out, g.id);
    out.append(",\"member_count\":");
    append_opt_u64(out, &g.member_count);
    out.append(",\"members\":[");
    append_members(out, &g.members);
    out.append("],\"name\":");
    append_json_string(out, g.name.as_str());
}

#[verifier::rlimit(60)]
fn append_guild_tail(out: &mut String, g: &Guild)
    ensures
        final(out)@ == old(out)@ + guild_tail_json(g@),
{
    out.append(",\"owner_id\":");
    append_id(out, g.owner_id);
    out.append(",\"permissions\":");
    append_opt_id(out, &g.permissions);
    out.append(",\"roles\":[");
    append_roles(out, &g.roles);
    out.append("],\"threads\":[");
    append_channels(out, &g.threads);
    out.append("],\"unavailable\":");
    append_bool(out, g.unavailable);
    out.append(",\"voice_states\":[");
    append_voice_states(out, &g.voice_states);
    out.append("]}");
}

fn append_guild(out: &mut String, g: &Guild)
    ensures
        final(out)@ == old(out)@ + guild_json(g@),
{
    append_guild_head(out, g);
    append_guild_tail(out, g);
    proof {
        assert(out@ =~= old(out)@ + guild_json(g@));
    }
}

pub open spec fn guild_delete_json(d: GuildDelete) -> Seq<char> {
    "{\"id\":"@ + id_json(d.id) + ",\"unavailable\":"@ + bool_json(d.unavailable) + "}"@
}

/// The `READY` body: the stored template with the guild stubs spliced into
/// its (empty) `guilds` array.
pub open spec fn ready_body_json(re: ReadyEventModel) -> Seq<char> {
    re.template.body.subrange(0, re.template.guilds_at + 1) + stubs_json(re.guilds)
        + re.template.body.subrange(re.template.guilds_at + 1, re.template.body.len() as int)
}

pub open spec fn event_name_chars(t: EventName) -> Seq<char> {
    match t {
        EventName::Ready => "READY"@,
        EventName::GuildCreate => "GUILD_CREATE"@,
        EventName::GuildDelete => "GUILD_DELETE"@,
    }
}

pub open spec fn event_json(d: EventModel) -> Seq<char> {
    match d {
        EventModel::Ready(re) => ready_body_json(re),
        EventModel::GuildCreate(g) => guild_json(g),
        EventModel::GuildDelete(gd) => guild_delete_json(gd),
    }
}

/// Whether a payload can be written: a `READY` needs a template whose
/// `guilds` array really sits at `guilds_at`.
pub open spec fn payload_wf(p: PayloadModel) -> bool {
    match p.d {
        EventModel::Ready(re) => re.template.wf(),
        _ => true,
    }
}

/// The frame text of one synthetic payload.
pub open spec fn payload_json(p: PayloadModel) -> Seq<char> {
    "{\"op\":0,\"t\":\""@ + event_name_chars(p.t) + "\",\"s\":"@ + spec_digits(p.s as nat)
        + ",\"d\":"@ + event_json(p.d) + "}"@
}

/// Writes one synthetic payload as the JSON text sent to a client.
#[verifier::rlimit(60)]
pub fn payload_to_json(p: &Payload) -> (r: String)
    requires
        payload_wf(p@),
    ensures
        r@ == payload_json(p@),
{
    let mut out = String::from_str("{\"op\":0,\"t\":\"");
    match &p.t {
        EventName::Ready => out.append("READY"),
        EventName::GuildCreate => out.append("GUILD_CREATE"),
        EventName::GuildDelete => out.append("GUILD_DELETE"),
    }
    out.append("\",\"s\":");
    append_u64(&mut out, p.s as u64);
    out.append(",\"d\":");
    match &p.d {
        crate::cache::Event::Ready(re) => {
            let body = re.template.body.as_str();
            let n = body.unicode_len();
            let at = re.template.guilds_at;
            out.append(body.substring_char(0, at + 1));
            append_stubs(&mut out, &re.guilds);
            out.append(body.substring_char(at + 1, n));
        },
        crate::cache::Event::GuildCreate(g) => {
            append_guild(&mut out, g);
        },
        crate::cache::Event::GuildDelete(gd) => {
            out.append("{\"id\":");
            append_id(&mut out, gd.id);
            out.append(",\"unavailable\":");
            append_bool(&mut out, gd.unavailable);
            out.append("}");
        },
    }
    out.append("}");
    out
}

} // verus!
