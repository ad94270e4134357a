//! The shared server state: connected players, the tick counter, and the
//! externally supplied content (status text and registry blobs) that
//! handlers frame onto the wire.
use vstd::prelude::*;

use crate::codec::i64_bytes;
use crate::connection::{frame_bytes, Connection, SpecNetMessage};

verus! {

use vstd::utf8::encode_utf8;

/// Mathematical value of a connected player.
pub ghost struct SpecPlayer {
    /// The player's UUID as a 128-bit value.
    pub uuid: u128,
    /// The player's name characters.
    pub username: Seq<char>,
}

/// A connected player: the identity under which keep-alives are addressed.
#[derive(Debug, Clone)]
pub struct Player {
    /// The player's UUID as a 128-bit value.
    pub uuid: u128,
    /// The player's name.
    pub username: String,
}

impl View for Player {
    type V = SpecPlayer;

    open spec fn view(&self) -> SpecPlayer {
        SpecPlayer { uuid: self.uuid, username: self.username@ }
    }
}

/// Mathematical value of a registry blob.
pub ghost struct SpecRegistryFile {
    /// The blob's file name characters.
    pub name: Seq<char>,
    /// The blob's bytes, framed as-is.
    pub data: Seq<u8>,
}

/// One externally supplied registry blob, keyed by file name.
#[derive(Debug, Clone)]
pub struct RegistryFile {
    /// The blob's file name.
    pub name: String,
    /// The blob's bytes, framed as-is.
    pub data: Vec<u8>,
}

impl View for RegistryFile {
    type V = SpecRegistryFile;

    open spec fn view(&self) -> SpecRegistryFile {
        SpecRegistryFile { name: self.name@, data: self.data@ }
    }
}

/// The views of a player list.
pub open spec fn player_views(s: Seq<Player>) -> Seq<SpecPlayer> {
    s.map_values(|p: Player| p@)
}

/// The views of a registry blob list.
pub open spec fn registry_file_views(s: Seq<RegistryFile>) -> Seq<SpecRegistryFile> {
    s.map_values(|f: RegistryFile| f@)
}

/// The index of the first session with the given UUID, or the length.
pub open spec fn find_player(s: Seq<SpecPlayer>, uuid: u128) -> int
    decreases s.len(),
{
    if s.len() == 0 {
        0
    } else if s[0].uuid == uuid {
        0
    } else {
        1 + find_player(s.drop_first(), uuid)
    }
}

/// A session list after an insert: the first entry with the same UUID is
/// replaced, or the new entry is appended.
pub open spec fn upsert_player(s: Seq<SpecPlayer>, p: SpecPlayer) -> Seq<SpecPlayer> {
    let i = find_player(s, p.uuid);
    if i < s.len() {
        s.update(i, p)
    } else {
        s.push(p)
    }
}

/// How many ticks pass between keep-alive broadcasts: 15 seconds at 20
/// ticks per second.
pub const KEEP_ALIVE_INTERVAL_TICKS: u64 = 300;

/// The opcode of the keep-alive packet sent during play.
pub const KEEP_ALIVE_OPCODE: i32 = 0x2B;

/// The frame broadcast as a keep-alive: opcode 0x2B with the current
/// wall-clock milliseconds as a signed long.
pub open spec fn keep_alive_frame(now_millis: i64) -> Seq<u8> {
    frame_bytes(0x2B, i64_bytes(now_millis))
}

/// The shared server state.
pub struct World {
    /// The connected players, inserted on login.
    pub players: Vec<Player>,
    /// Ticks since start, incremented once per scheduler tick.
    pub tick_count: u64,
    /// The status text served to list queries, supplied by the host.
    pub status_json: String,
    /// The registry blobs served during configuration, supplied by the host.
    pub registry_files: Vec<RegistryFile>,
    /// Whether a client announcing a brand other than `vanilla` is
    /// rejected; when false the brand only informs.
    pub reject_modded: bool,
}

impl World {
    /// The session list's mathematical value.
    pub open spec fn sessions(&self) -> Seq<SpecPlayer> {
        player_views(self.players@)
    }

    /// The registry blob list's mathematical value.
    pub open spec fn files(&self) -> Seq<SpecRegistryFile> {
        registry_file_views(self.registry_files@)
    }

    /// Whether the externally supplied content fits the wire's limits.
    pub open spec fn wf(&self) -> bool {
        &&& encode_utf8(self.status_json@).len() <= 32767
        &&& forall|i: int| 0 <= i < self.files().len() ==> (#[trigger] self.files()[i]).data.len()
            + 5 <= 0x7fff_ffff
    }

    /// A fresh world around a player list, at tick zero, with no content.
    pub fn new(player_list: Vec<Player>) -> (r: World)
        ensures
            r.sessions() == player_views(player_list@),
            r.tick_count == 0,
            r.status_json@ == Seq::<char>::empty(),
            r.files() == Seq::<SpecRegistryFile>::empty(),
            !r.reject_modded,
            r.wf(),
    {
        let r = World {
            players: player_list,
            tick_count: 0,
            status_json: String::new(),
            registry_files: Vec::new(),
            reject_modded: false,
        };
        proof {
            assert(r.files() =~= Seq::<SpecRegistryFile>::empty());
            assert(encode_utf8(r.status_json@).len() == 0) by {
                vstd::utf8::is_ascii_chars_encode_utf8(r.status_json@);
            }
        }
        r
    }

    /// Records a logged-in player, replacing an earlier session with the
    /// same UUID or appending a new one.
    pub fn insert_player(&mut self, player: Player)
        ensures
            final(self).sessions() == upsert_player(old(self).sessions(), player@),
            final(self).tick_count == old(self).tick_count,
            final(self).status_json == old(self).status_json,
            final(self).registry_files == old(self).registry_files,
            final(self).reject_modded == old(self).reject_modded,
    {
        let ghost s0 = self.sessions();
        let mut i: usize = 0;
        let n = self.players.len();
        while i < n
            invariant
                i <= n,
                n == self.players@.len(),
                forall|j: int| 0 <= j < i ==> (#[trigger] self.players@[j]).uuid != player.uuid,
                s0 == self.sessions(),
                self == old(self),
            decreases n - i,
        {
            if self.players[i].uuid == player.uuid {
                proof {
                    lemma_find_player_at(s0, player@.uuid, i as int);
                }
                self.players.set(i, player);
                proof {
                    assert(final(self).sessions() =~= s0.update(i as int, player@));
                }
                return;
            }
            i = i + 1;
        }
        proof {
            lemma_find_player_at(s0, player@.uuid, n as int);
        }
        self.players.push(player);
        proof {
            assert(final(self).sessions() =~= s0.push(player@));
        }
    }

    /// Advances the tick counter by one, wrapping at the top, and says
    /// whether this tick is a keep-alive tick: one in every three hundred,
    /// starting with tick zero.
    pub fn tick(&mut self) -> (broadcast: bool)
        ensures
            final(self).tick_count == (if old(self).tick_count == u64::MAX {
                0u64
            } else {
                (old(self).tick_count + 1) as u64
            }),
            broadcast == (old(self).tick_count % KEEP_ALIVE_INTERVAL_TICKS == 0),
            final(self).sessions() == old(self).sessions(),
            final(self).status_json == old(self).status_json,
            final(self).registry_files == old(self).registry_files,
            final(self).reject_modded == old(self).reject_modded,
    {
        let due = self.tick_count % KEEP_ALIVE_INTERVAL_TICKS == 0;
        self.tick_count = if self.tick_count == u64::MAX {
            0
        } else {
            self.tick_count + 1
        };
        due
    }

    /// Plans one keep-alive send per session, in session order: each entry
    /// pairs a session's UUID with the keep-alive frame for `now_millis`.
    pub fn broadcast_keep_alive(&self, now_millis: i64) -> (r: Vec<(u128, Vec<u8>)>)
        ensures
            r@.len() == self.sessions().len(),
            forall|i: int| 0 <= i < r@.len() ==> (#[trigger] r@[i]).0 == self.sessions()[i].uuid
                && r@[i].1@ == keep_alive_frame(now_millis),
    {
        let mut out: Vec<(u128, Vec<u8>)> = Vec::new();
        let mut i: usize = 0;
        let n = self.players.len();
        while i < n
            invariant
                i <= n,
                n == self.players@.len(),
                out@.len() == i,
                forall|j: int| 0 <= j < i ==> (#[trigger] out@[j]).0 == self.sessions()[j].uuid
                    && out@[j].1@ == keep_alive_frame(now_millis),
            decreases n - i,
        {
            let uuid = self.players[i].uuid;
            out.push((uuid, make_keep_alive_frame(now_millis)));
            i = i + 1;
        }
        out
    }
}

/// Builds the keep-alive frame for the given clock value.
pub fn make_keep_alive_frame(now_millis: i64) -> (r: Vec<u8>)
    ensures
        r@ == keep_alive_frame(now_millis),
{
    let mut body: Vec<u8> = Vec::new();
    crate::codec::write_i64(now_millis, &mut body);
    let mut payload: Vec<u8> = Vec::new();
    crate::codec::write_varint(KEEP_ALIVE_OPCODE, &mut payload);
    crate::codec::push_bytes(&mut payload, body.as_slice());
    let mut framed: Vec<u8> = Vec::new();
    let n = payload.len();
    proof {
        crate::codec::lemma_varint_encode_len(KEEP_ALIVE_OPCODE as u32);
        crate::codec::lemma_be_bytes_len((now_millis as u64) as nat, 8);
    }
    crate::codec::write_varint(n as i32, &mut framed);
    proof {
        assert((n as u32) == (n as i32) as u32) by (bit_vector)
            requires n <= 0x7fff_ffff;
    }
    crate::codec::push_bytes(&mut framed, payload.as_slice());
    proof {
        assert(framed@ =~= keep_alive_frame(now_millis));
    }
    framed
}

proof fn lemma_find_player_at(s: Seq<SpecPlayer>, uuid: u128, k: int)
    requires
        0 <= k <= s.len(),
        forall|j: int| 0 <= j < k ==> (#[trigger] s[j]).uuid != uuid,
        k < s.len() ==> s[k].uuid == uuid,
    ensures
        find_player(s, uuid) == k,
    decreases s.len(),
{
    if s.len() > 0 {
        if k == 0 {
        } else {
            assert(s[0].uuid != uuid);
            let rest = s.drop_first();
            assert forall|j: int| 0 <= j < k - 1 implies (#[trigger] rest[j]).uuid != uuid by {
                assert(rest[j] == s[j + 1]);
            }
            assert(k - 1 < rest.len() ==> rest[k - 1].uuid == uuid);
            lemma_find_player_at(rest, uuid, k - 1);
        }
    }
}

} // verus!

verus! {

// ---------------------------------------------------------------------------
// Registry delivery: every whitelisted blob framed under opcode 0x07 in
// provider order, then the tag blob, if present, under opcode 0x0D.
// ---------------------------------------------------------------------------

/// The file name under which the tag blob is supplied.
pub open spec fn tags_name_bytes() -> Seq<u8> {
    encode_utf8("packet_tags.bin"@)
}

/// Whether a registry file name is on the list this server sends.
pub open spec fn whitelisted(name_bytes: Seq<u8>) -> bool {
    ||| name_bytes == encode_utf8("minecraft_damage_type.bin"@)
    ||| name_bytes == encode_utf8("minecraft_worldgen_biome.bin"@)
    ||| name_bytes == encode_utf8("minecraft_dimension_type.bin"@)
    ||| name_bytes == encode_utf8("minecraft_cat_variant.bin"@)
    ||| name_bytes == encode_utf8("minecraft_chicken_variant.bin"@)
    ||| name_bytes == encode_utf8("minecraft_cow_variant.bin"@)
    ||| name_bytes == encode_utf8("minecraft_frog_variant.bin"@)
    ||| name_bytes == encode_utf8("minecraft_pig_variant.bin"@)
    ||| name_bytes == encode_utf8("minecraft_wolf_variant.bin"@)
    ||| name_bytes == encode_utf8("minecraft_wolf_sound_variant.bin"@)
    ||| name_bytes == encode_utf8("minecraft_painting_variant.bin"@)
    ||| name_bytes == encode_utf8("minecraft_zombie_nautilus_variant.bin"@)
    ||| name_bytes == encode_utf8("minecraft_timeline.bin"@)
}

/// The registry-data frames for a provider's files, in provider order: one
/// frame under opcode 0x07 for each whitelisted file that is not the tag
/// blob.
pub open spec fn registry_data_frames(files: Seq<SpecRegistryFile>) -> Seq<SpecNetMessage>
    decreases files.len(),
{
    if files.len() == 0 {
        Seq::empty()
    } else {
        registry_data_frames(files.drop_last()) + (if whitelisted(encode_utf8(files.last().name))
            && encode_utf8(files.last().name) != tags_name_bytes() {
            seq![SpecNetMessage::SendPacket(frame_bytes(0x07, files.last().data))]
        } else {
            Seq::empty()
        })
    }
}

/// The data of the first file named `packet_tags.bin`, if any.
pub open spec fn first_tags_data(files: Seq<SpecRegistryFile>) -> Option<Seq<u8>>
    decreases files.len(),
{
    if files.len() == 0 {
        Option::None
    } else if encode_utf8(files[0].name) == tags_name_bytes() {
        Option::Some(files[0].data)
    } else {
        first_tags_data(files.drop_first())
    }
}

/// Everything registry delivery queues: the data frames, then the tag frame
/// under opcode 0x0D if a tag blob is present.
pub open spec fn registry_frames(files: Seq<SpecRegistryFile>) -> Seq<SpecNetMessage> {
    registry_data_frames(files) + (match first_tags_data(files) {
        Option::Some(d) => seq![SpecNetMessage::SendPacket(frame_bytes(0x0D, d))],
        Option::None => Seq::empty(),
    })
}

/// Compares two byte slices for equality.
fn bytes_eq(a: &[u8], b: &[u8]) -> (r: bool)
    ensures
        r == (a@ == b@),
{
    if a.len() != b.len() {
        return false;
    }
    let mut i: usize = 0;
    while i < a.len()
        invariant
            i <= a@.len(),
            a@.len() == b@.len(),
            forall|j: int| 0 <= j < i ==> a@[j] == b@[j],
        decreases a@.len() - i,
    {
        if a[i] != b[i] {
            return false;
        }
        i = i + 1;
    }
    proof {
        assert(a@ =~= b@);
    }
    true
}

/// Whether a file name is on the send list.
fn is_whitelisted(name: &str) -> (r: bool)
    ensures
        r == whitelisted(encode_utf8(name@)),
{
    let nb = name.as_bytes();
    bytes_eq(nb, "minecraft_damage_type.bin".as_bytes())
        || bytes_eq(nb, "minecraft_worldgen_biome.bin".as_bytes())
        || bytes_eq(nb, "minecraft_dimension_type.bin".as_bytes())
        || bytes_eq(nb, "minecraft_cat_variant.bin".as_bytes())
        || bytes_eq(nb, "minecraft_chicken_variant.bin".as_bytes())
        || bytes_eq(nb, "minecraft_cow_variant.bin".as_bytes())
        || bytes_eq(nb, "minecraft_frog_variant.bin".as_bytes())
        || bytes_eq(nb, "minecraft_pig_variant.bin".as_bytes())
        || bytes_eq(nb, "minecraft_wolf_variant.bin".as_bytes())
        || bytes_eq(nb, "minecraft_wolf_sound_variant.bin".as_bytes())
        || bytes_eq(nb, "minecraft_painting_variant.bin".as_bytes())
        || bytes_eq(nb, "minecraft_zombie_nautilus_variant.bin".as_bytes())
        || bytes_eq(nb, "minecraft_timeline.bin".as_bytes())
}

proof fn lemma_first_tags_at(s: Seq<SpecRegistryFile>, k: int)
    requires
        0 <= k <= s.len(),
        forall|j: int| 0 <= j < k ==> encode_utf8((#[trigger] s[j]).name) != tags_name_bytes(),
        k < s.len() ==> encode_utf8(s[k].name) == tags_name_bytes(),
    ensures
        first_tags_data(s) == (if k == s.len() {
            Option::<Seq<u8>>::None
        } else {
            Option::<Seq<u8>>::Some(s[k].data)
        }),
    decreases s.len(),
{
    if s.len() > 0 {
        if k == 0 {
        } else {
            let rest = s.drop_first();
            assert forall|j: int| 0 <= j < k - 1 implies encode_utf8(
                (#[trigger] rest[j]).name) != tags_name_bytes() by {
                assert(rest[j] == s[j + 1]);
            }
            assert(k - 1 < rest.len() ==> rest[k - 1] == s[k]);
            lemma_first_tags_at(rest, k - 1);
        }
    }
}

/// Queues every whitelisted registry blob as an 0x07 frame in provider
/// order, then the tag blob, if present, as an 0x0D frame.
pub fn send_all_registries(ctx: &mut Connection, files: &Vec<RegistryFile>)
    requires
        forall|i: int| 0 <= i < files@.len() ==> (#[trigger] files@[i]).data@.len() + 5
            <= 0x7fff_ffff,
    ensures
        final(ctx).phase == old(ctx).phase,
        final(ctx).is_alive == old(ctx).is_alive,
        final(ctx).queued() == old(ctx).queued() + registry_frames(registry_file_views(files@)),
{
    let ghost views = registry_file_views(files@);
    let n = files.len();
    let mut i: usize = 0;
    proof {
        assert(registry_data_frames(views.subrange(0, 0)) == Seq::<SpecNetMessage>::empty());
        assert(old(ctx).queued() + registry_data_frames(views.subrange(0, 0)) =~= old(ctx).queued());
    }
    while i < n
        invariant
            i <= n,
            n == files@.len(),
            views == registry_file_views(files@),
            forall|k: int| 0 <= k < files@.len() ==> (#[trigger] files@[k]).data@.len() + 5
                <= 0x7fff_ffff,
            ctx.phase == old(ctx).phase,
            ctx.is_alive == old(ctx).is_alive,
            ctx.queued() == old(ctx).queued() + registry_data_frames(views.subrange(0, i as int)),
        decreases n - i,
    {
        proof {
            let pre = views.subrange(0, i as int);
            let post = views.subrange(0, i + 1);
            assert(post.drop_last() =~= pre);
            assert(post.last() == views[i as int]);
        }
        let send_it = is_whitelisted(files[i].name.as_str())
            && !bytes_eq(files[i].name.as_str().as_bytes(), "packet_tags.bin".as_bytes());
        if send_it {
            ctx.send_raw_packet(0x07, files[i].data.as_slice());
            proof {
                assert(ctx.queued() =~= old(ctx).queued() + registry_data_frames(
                    views.subrange(0, i + 1)));
            }
        } else {
            proof {
                assert(registry_data_frames(views.subrange(0, i + 1)) =~= registry_data_frames(
                    views.subrange(0, i as int)));
            }
        }
        i = i + 1;
    }
    proof {
        assert(views.subrange(0, views.len() as int) =~= views);
    }
    // The tag blob, if the provider supplied one.
    let mut t: usize = 0;
    while t < n
        invariant
            t <= n,
            n == files@.len(),
            views == registry_file_views(files@),
            forall|k: int| 0 <= k < files@.len() ==> (#[trigger] files@[k]).data@.len() + 5
                <= 0x7fff_ffff,
            ctx.phase == old(ctx).phase,
            ctx.is_alive == old(ctx).is_alive,
            ctx.queued() == old(ctx).queued() + registry_data_frames(views),
            forall|j: int| 0 <= j < t ==> encode_utf8((#[trigger] views[j]).name)
                != tags_name_bytes(),
        decreases n - t,
    {
        if bytes_eq(files[t].name.as_str().as_bytes(), "packet_tags.bin".as_bytes()) {
            proof {
                lemma_first_tags_at(views, t as int);
            }
            ctx.send_raw_packet(0x0D, files[t].data.as_slice());
            proof {
                assert(ctx.queued() =~= old(ctx).queued() + registry_frames(views));
            }
            return;
        }
        t = t + 1;
    }
    proof {
        lemma_first_tags_at(views, n as int);
        assert(old(ctx).queued() + registry_data_frames(views) + Seq::<SpecNetMessage>::empty()
            =~= old(ctx).queued() + registry_frames(views));
        assert(ctx.queued() =~= old(ctx).queued() + registry_frames(views));
    }
}

} // verus!
