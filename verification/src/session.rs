//! Session protocol state machine: one connection's lifecycle from the
//! first network-settings request through login, encryption setup,
//! resource-pack negotiation and world spawn, into steady-state play.
//!
//! The machine decides; collaborators act. Each handler takes a decoded
//! packet (and, where packs are involved, the pack store) and returns the
//! packets to send, while updating the session's phase and codec flags.
//! The transport that carries the packets, the codec that frames them and
//! the identity checker live outside; they hand the machine plain values.

use crate::protocol::CURRENT_PROTOCOL;
use crate::transfer::{ChunkRequest, PackStore};
use vstd::prelude::*;

verus! {

/// Protocol phase of one connection. A session walks this sequence
/// forward, never backward; fatal conditions close the session instead
/// (see [`Session::closed`]).
#[derive(Clone, Copy, Debug, PartialEq, Eq, Structural)]
pub enum SessionState {
    Start,
    Login,
    Encryption,
    ResourcePack,
    PreSpawn,
    InGame,
    Death,
}

/// Position of a phase along the lifecycle; transitions only ever
/// increase it.
pub open spec fn state_rank(s: SessionState) -> nat {
    match s {
        SessionState::Start => 0,
        SessionState::Login => 1,
        SessionState::Encryption => 2,
        SessionState::ResourcePack => 3,
        SessionState::PreSpawn => 4,
        SessionState::InGame => 5,
        SessionState::Death => 6,
    }
}

/// A client's verdict during resource-pack negotiation.
#[derive(Clone, Copy, Debug, PartialEq, Eq, Structural)]
pub enum PackResponse {
    Refused,
    SendPacks,
    HaveAllPacks,
    Completed,
}

/// A decoded inbound packet, reduced to the fields the machine reads.
#[derive(Debug)]
pub enum InboundPacket {
    RequestNetworkSettings { client_network_version: i32 },
    Login { is_xbox_auth: bool },
    ClientToServerHandshake,
    ResourcePackClientResponse { response: PackResponse, downloading_packs: Vec<String> },
    ResourcePackChunkRequest { request: ChunkRequest },
    PlayerAuthInput,
    Unrecognized,
}

/// Status codes the server reports in a play-status packet.
#[derive(Clone, Copy, Debug, PartialEq, Eq, Structural)]
pub enum PlayStatusKind {
    LoginSuccess,
    LoginFailed,
    FailedClientOld,
    FailedServerOld,
    PlayerSpawn,
}

/// Why a session was told to disconnect.
#[derive(Clone, Copy, Debug, PartialEq, Eq, Structural)]
pub enum DisconnectReason {
    NotAuthenticated,
    OutdatedClient,
    OutdatedServer,
    PackRefused,
    ChunkRequestOutOfRange,
}

/// One entry of the resource-packs announcement: identity, version and
/// total size of a pack the server offers.
#[derive(Debug, PartialEq)]
pub struct PackEntryInfo {
    pub id: String,
    pub version: String,
    pub size: u64,
}

/// An outbound packet, reduced to the fields the machine decides.
/// Constant payload details (world settings, attribute values and the
/// like) belong to the codec layer that writes the wire form.
#[derive(Debug, PartialEq)]
pub enum OutboundPacket {
    PlayStatus { status: PlayStatusKind },
    NetworkSettings { compression_threshold: u16 },
    Disconnect { reason: DisconnectReason },
    ResourcePacksInfo { packs: Vec<PackEntryInfo> },
    ResourcePackStack { pack_ids: Vec<String>, experiments_on: bool },
    ResourcePackDataInfo {
        resource_name: String,
        chunk_size: u32,
        chunk_count: u64,
        file_size: u64,
        content_hash: Vec<u8>,
    },
    ResourcePackChunkData {
        resource_name: String,
        chunk_index: u32,
        byte_offset: u64,
        payload: Vec<u8>,
    },
    StartGame,
    ItemRegistry,
    PlayerList,
    UpdateAttributes,
    LevelChunk { x: i32, z: i32 },
}

/// Codec configuration negotiated during the first handshake step.
#[derive(Clone, Copy, Debug, PartialEq, Eq, Structural)]
pub struct CompressionConfig {
    pub threshold: u16,
    pub level: u8,
}

/// The compression the server enables once network settings are agreed.
pub open spec fn handshake_compression() -> CompressionConfig {
    CompressionConfig { threshold: 256, level: 6 }
}

/// Server-side state for one connected client.
pub struct Session {
    /// Current protocol phase.
    pub state: SessionState,
    /// Codec configuration, set once during the handshake.
    pub compression: Option<CompressionConfig>,
    /// Whether the transport enciphers frames from here on.
    pub encryption_enabled: bool,
    /// Whether session key material has been derived for this client.
    pub key_material_derived: bool,
    /// Terminal condition: a closed session handles nothing further.
    pub closed: bool,
    /// Whether identity verification is mandatory for login.
    pub require_xbox_auth: bool,
}

/// Whether a login with the given verification outcome is let through.
pub open spec fn login_accepted(s: Session, is_xbox_auth: bool) -> bool {
    is_xbox_auth || !s.require_xbox_auth
}

/// The pack the store offers under this name, if any.
pub open spec fn spec_store_find(store: PackStore, name: Seq<char>) -> Option<int> {
    if exists|i: int|
        0 <= i < store.packs@.len() && store.packs@[i].descriptor.identifier@ == name {
        Some(
            choose|i: int|
                0 <= i < store.packs@.len() && store.packs@[i].descriptor.identifier@ == name,
        )
    } else {
        None
    }
}

/// How a chunk request moves the session: an index past the pack's chunk
/// count is a protocol violation that closes the session; anything else
/// leaves the session as it was.
pub open spec fn spec_step_chunk(s: Session, name: Seq<char>, index: u32, store: PackStore) -> Session {
    match spec_store_find(store, name) {
        Some(i) => {
            if index as int >= store.packs@[i].descriptor.spec_chunk_count() {
                Session { closed: true, ..s }
            } else {
                s
            }
        },
        None => s,
    }
}

/// Whether a handler is registered for this packet kind in the session's
/// current phase. A closed session dispatches nothing; steady-state
/// movement input and unrecognized kinds never dispatch (the machine has
/// nothing to decide for them).
pub open spec fn spec_dispatches(s: Session, p: InboundPacket) -> bool {
    &&& !s.closed
    &&& match p {
        InboundPacket::RequestNetworkSettings { .. } => s.state == SessionState::Start,
        InboundPacket::Login { .. } => s.state == SessionState::Login,
        InboundPacket::ClientToServerHandshake => s.state == SessionState::Encryption,
        InboundPacket::ResourcePackClientResponse { .. } => s.state == SessionState::ResourcePack,
        InboundPacket::ResourcePackChunkRequest { .. } => s.state == SessionState::ResourcePack,
        InboundPacket::PlayerAuthInput => false,
        InboundPacket::Unrecognized => false,
    }
}

/// The transition function of the state machine: how one decoded packet
/// moves a session. A packet whose kind has no handler for the current
/// phase leaves the session unchanged, and a closed session ignores
/// everything.
pub open spec fn spec_step(s: Session, p: InboundPacket, store: PackStore) -> Session {
    if s.closed {
        s
    } else if s.state == SessionState::Start && p is RequestNetworkSettings {
        if p->client_network_version == CURRENT_PROTOCOL {
            Session { state: SessionState::Login, compression: Some(handshake_compression()), ..s }
        } else {
            Session { closed: true, ..s }
        }
    } else if s.state == SessionState::Login && p is Login {
        if login_accepted(s, p->is_xbox_auth) {
            Session { state: SessionState::Encryption, key_material_derived: true, ..s }
        } else {
            Session { closed: true, ..s }
        }
    } else if s.state == SessionState::Encryption && p is ClientToServerHandshake {
        Session { state: SessionState::ResourcePack, encryption_enabled: true, ..s }
    } else if s.state == SessionState::ResourcePack && p is ResourcePackClientResponse {
        match p->response {
            PackResponse::Refused => Session { closed: true, ..s },
            PackResponse::SendPacks => s,
            PackResponse::HaveAllPacks => s,
            PackResponse::Completed => Session { state: SessionState::PreSpawn, ..s },
        }
    } else if s.state == SessionState::ResourcePack && p is ResourcePackChunkRequest {
        spec_step_chunk(s, p->request.resource_name@, p->request.chunk_index, store)
    } else {
        s
    }
}

/// Outcome of the network-settings request that opens every connection:
/// on a protocol match the server answers with its settings and enables
/// compression; on a mismatch it reports which side is too old and closes.
pub open spec fn network_settings_outcome(
    pre: Session,
    client_protocol: i32,
    post: Session,
    out: Seq<OutboundPacket>,
) -> bool {
    if client_protocol == CURRENT_PROTOCOL {
        &&& post == (Session {
            state: SessionState::Login,
            compression: Some(handshake_compression()),
            ..pre
        })
        &&& out.len() == 1
        &&& out[0] == (OutboundPacket::NetworkSettings { compression_threshold: 1 })
    } else {
        &&& post == (Session { closed: true, ..pre })
        &&& out.len() == 2
        &&& out[0] == (OutboundPacket::PlayStatus {
            status: if client_protocol < CURRENT_PROTOCOL {
                PlayStatusKind::FailedClientOld
            } else {
                PlayStatusKind::FailedServerOld
            },
        })
        &&& out[1] == (OutboundPacket::Disconnect {
            reason: if client_protocol < CURRENT_PROTOCOL {
                DisconnectReason::OutdatedClient
            } else {
                DisconnectReason::OutdatedServer
            },
        })
    }
}

/// Outcome of a login packet: a client that fails mandatory identity
/// verification gets a failure status plus a disconnect and the session
/// closes; otherwise key material is derived and the server sends the
/// success status and the initial (empty) pack info and stack, then waits
/// for the handshake acknowledgement.
pub open spec fn login_outcome(
    pre: Session,
    is_xbox_auth: bool,
    post: Session,
    out: Seq<OutboundPacket>,
) -> bool {
    if login_accepted(pre, is_xbox_auth) {
        &&& post == (Session {
            state: SessionState::Encryption,
            key_material_derived: true,
            ..pre
        })
        &&& out.len() == 3
        &&& out[0] == (OutboundPacket::PlayStatus { status: PlayStatusKind::LoginSuccess })
        &&& (out[1] matches OutboundPacket::ResourcePacksInfo { packs } && packs@.len() == 0)
        &&& (out[2] matches OutboundPacket::ResourcePackStack { pack_ids, experiments_on }
            && pack_ids@.len() == 0 && !experiments_on)
    } else {
        &&& post == (Session { closed: true, ..pre })
        &&& out.len() == 2
        &&& out[0] == (OutboundPacket::PlayStatus { status: PlayStatusKind::LoginFailed })
        &&& out[1] == (OutboundPacket::Disconnect { reason: DisconnectReason::NotAuthenticated })
    }
}

/// Ghost image of one pack-metadata announcement: everything a data-info
/// packet says about a pack.
pub struct DataInfoView {
    pub name: Seq<char>,
    pub chunk_size: u32,
    pub chunk_count: int,
    pub file_size: u64,
    pub content_hash: Seq<u8>,
}

/// What a data-info packet announces; other packet kinds map to an empty
/// image.
pub open spec fn data_info_view(p: OutboundPacket) -> DataInfoView {
    match p {
        OutboundPacket::ResourcePackDataInfo {
            resource_name,
            chunk_size,
            chunk_count,
            file_size,
            content_hash,
        } => DataInfoView {
            name: resource_name@,
            chunk_size,
            chunk_count: chunk_count as int,
            file_size,
            content_hash: content_hash@,
        },
        _ => DataInfoView {
            name: Seq::empty(),
            chunk_size: 0,
            chunk_count: 0,
            file_size: 0,
            content_hash: Seq::empty(),
        },
    }
}

/// The metadata the store's pack at position `i` is announced with.
pub open spec fn spec_pack_data_info(store: PackStore, i: int) -> DataInfoView {
    let d = store.packs@[i].descriptor;
    DataInfoView {
        name: d.identifier@,
        chunk_size: d.chunk_size,
        chunk_count: d.spec_chunk_count(),
        file_size: d.total_size,
        content_hash: d.content_hash@,
    }
}

/// The announcements a `SendPacks` request earns: one data-info record
/// per requested pack the store offers, in request order; a name the
/// store does not offer earns none.
pub open spec fn spec_data_infos(ids: Seq<Seq<char>>, store: PackStore) -> Seq<DataInfoView>
    decreases ids.len(),
{
    if ids.len() == 0 {
        Seq::empty()
    } else {
        let rest = spec_data_infos(ids.drop_last(), store);
        match spec_store_find(store, ids.last()) {
            Some(i) => rest.push(spec_pack_data_info(store, i)),
            None => rest,
        }
    }
}

/// In a well-formed store identifiers are unique, so any match the
/// search finds is the match.
pub proof fn lemma_find_unique(store: PackStore, name: Seq<char>, j: int)
    requires
        store.wf(),
        0 <= j < store.packs@.len(),
        store.packs@[j].descriptor.identifier@ == name,
    ensures
        spec_store_find(store, name) == Some(j),
{
    let i = choose|i: int|
        0 <= i < store.packs@.len() && store.packs@[i].descriptor.identifier@ == name;
    if i < j {
        assert(store.packs@[i].descriptor.identifier@ != store.packs@[j].descriptor.identifier@);
    }
    if j < i {
        assert(store.packs@[j].descriptor.identifier@ != store.packs@[i].descriptor.identifier@);
    }
}

/// Outcome of the client's pack-negotiation response. `Refused` is fatal:
/// one disconnect, session closed. `SendPacks` earns the metadata of each
/// requested pack the store offers. `HaveAllPacks` earns the final pack
/// stack, in store order, with the experiment flags on. `Completed` moves
/// the session on to the spawn phase.
pub open spec fn pack_response_outcome(
    pre: Session,
    response: PackResponse,
    ids: Seq<Seq<char>>,
    store: PackStore,
    post: Session,
    out: Seq<OutboundPacket>,
) -> bool {
    match response {
        PackResponse::Refused => {
            &&& post == (Session { closed: true, ..pre })
            &&& out.len() == 1
            &&& out[0] == (OutboundPacket::Disconnect { reason: DisconnectReason::PackRefused })
        },
        PackResponse::SendPacks => {
            &&& post == pre
            &&& out.map_values(|p: OutboundPacket| data_info_view(p)) == spec_data_infos(
                ids,
                store,
            )
            &&& forall|k: int| 0 <= k < out.len() ==> out[k] is ResourcePackDataInfo
        },
        PackResponse::HaveAllPacks => {
            &&& post == pre
            &&& out.len() == 1
            &&& (out[0] matches OutboundPacket::ResourcePackStack { pack_ids, experiments_on } && {
                &&& experiments_on
                &&& pack_ids@.len() == store.packs@.len()
                &&& forall|i: int|
                    0 <= i < pack_ids@.len() ==> (#[trigger] pack_ids@[i])@
                        == store.packs@[i].descriptor.identifier@
            })
        },
        PackResponse::Completed => {
            &&& post == (Session { state: SessionState::PreSpawn, ..pre })
            &&& out.len() == 0
        },
    }
}

/// Outcome of the client's handshake acknowledgement: encryption goes
/// live and the server announces every pack it offers, in store order.
pub open spec fn handshake_outcome(
    pre: Session,
    store: PackStore,
    post: Session,
    out: Seq<OutboundPacket>,
) -> bool {
    &&& post == (Session {
        state: SessionState::ResourcePack,
        encryption_enabled: true,
        ..pre
    })
    &&& out.len() == 1
    &&& (out[0] matches OutboundPacket::ResourcePacksInfo { packs } && {
        &&& packs@.len() == store.packs@.len()
        &&& forall|i: int|
            0 <= i < packs@.len() ==> {
                &&& (#[trigger] packs@[i]).id@ == store.packs@[i].descriptor.identifier@
                &&& packs@[i].version@ == store.packs@[i].descriptor.version@
                &&& packs@[i].size == store.packs@[i].descriptor.total_size
            }
    })
}

/// Outcome of a chunk request: a name the store does not offer is
/// ignored; a valid index earns exactly the chunk's bytes; an index at or
/// past the chunk count is a protocol violation answered with a
/// disconnect, and the session closes.
pub open spec fn chunk_request_outcome(
    pre: Session,
    name: Seq<char>,
    index: u32,
    store: PackStore,
    post: Session,
    out: Seq<OutboundPacket>,
) -> bool {
    &&& post == spec_step_chunk(pre, name, index, store)
    &&& match spec_store_find(store, name) {
        None => out.len() == 0,
        Some(i) => {
            let d = store.packs@[i].descriptor;
            if index as int >= d.spec_chunk_count() {
                &&& out.len() == 1
                &&& out[0] == (OutboundPacket::Disconnect {
                    reason: DisconnectReason::ChunkRequestOutOfRange,
                })
            } else {
                &&& out.len() == 1
                &&& (out[0] matches OutboundPacket::ResourcePackChunkData {
                    resource_name,
                    chunk_index,
                    byte_offset,
                    payload,
                } && {
                    &&& resource_name@ == name
                    &&& chunk_index == index
                    &&& byte_offset == d.spec_byte_offset(index as int)
                    &&& payload@ == store.packs@[i].data@.subrange(
                        d.spec_byte_offset(index as int),
                        d.spec_byte_offset(index as int) + d.spec_chunk_len(index as int),
                    )
                })
            }
        },
    }
}

/// Outcome of the world-bootstrap emission that carries a session from
/// `PreSpawn` into `InGame`: the start descriptor, the item registry, the
/// player list and the attribute snapshot, then one spatial region packet
/// per grid position in row order over the square of the given radius,
/// and last the spawn status.
pub open spec fn spawn_outcome(
    pre: Session,
    chunk_radius: int,
    post: Session,
    out: Seq<OutboundPacket>,
) -> bool {
    &&& post == (Session { state: SessionState::InGame, ..pre })
    &&& out.len() == 5 + 4 * chunk_radius * chunk_radius
    &&& out[0] == OutboundPacket::StartGame
    &&& out[1] == OutboundPacket::ItemRegistry
    &&& out[2] == OutboundPacket::PlayerList
    &&& out[3] == OutboundPacket::UpdateAttributes
    &&& forall|k: int|
        0 <= k < 4 * chunk_radius * chunk_radius ==> #[trigger] out[4 + k] == (OutboundPacket::LevelChunk {
            x: (-chunk_radius + k / (2 * chunk_radius)) as i32,
            z: (-chunk_radius + k % (2 * chunk_radius)) as i32,
        })
    &&& out[out.len() - 1] == (OutboundPacket::PlayStatus { status: PlayStatusKind::PlayerSpawn })
}

impl Session {
    /// Until the network-settings step has run, no compression has been
    /// negotiated. Constructors establish this and every handler keeps it.
    pub open spec fn wf(self) -> bool {
        self.state == SessionState::Start ==> self.compression is None
    }

    /// A fresh session in the `Start` phase, nothing negotiated yet.
    pub fn new(require_xbox_auth: bool) -> (s: Session)
        ensures
            s == (Session {
                state: SessionState::Start,
                compression: None::<CompressionConfig>,
                encryption_enabled: false,
                key_material_derived: false,
                closed: false,
                require_xbox_auth,
            }),
    {
        Session {
            state: SessionState::Start,
            compression: None,
            encryption_enabled: false,
            key_material_derived: false,
            closed: false,
            require_xbox_auth,
        }
    }

    /// Advance to a later phase. No caller may move a session backward.
    pub fn change_state(&mut self, new_state: SessionState)
        requires
            state_rank(new_state) >= state_rank(old(self).state),
        ensures
            *final(self) == (Session { state: new_state, ..*old(self) }),
    {
        self.state = new_state;
    }

    /// Record the codec configuration; it is set once per session.
    pub fn set_compression(&mut self, compression: CompressionConfig)
        requires
            old(self).compression is None,
        ensures
            *final(self) == (Session { compression: Some(compression), ..*old(self) }),
    {
        self.compression = Some(compression);
    }

    /// From here on the transport enciphers every frame.
    pub fn set_encryption(&mut self)
        ensures
            *final(self) == (Session { encryption_enabled: true, ..*old(self) }),
    {
        self.encryption_enabled = true;
    }

    /// Terminal: the session handles nothing after this.
    pub fn close(&mut self)
        ensures
            *final(self) == (Session { closed: true, ..*old(self) }),
    {
        self.closed = true;
    }

    /// First handshake step: validate the client's protocol version. On a
    /// mismatch, report which side is too old and close; on a match, send
    /// the negotiated settings and enable the compression codec.
    pub fn handle_network_settings_request(&mut self, client_protocol: i32) -> (out: Vec<
        OutboundPacket,
    >)
        requires
            old(self).state == SessionState::Start,
            !old(self).closed,
            old(self).compression is None,
        ensures
            network_settings_outcome(*old(self), client_protocol, *final(self), out@),
    {
        let mut out: Vec<OutboundPacket> = Vec::new();
        if client_protocol != CURRENT_PROTOCOL {
            let status = if client_protocol < CURRENT_PROTOCOL {
                PlayStatusKind::FailedClientOld
            } else {
                PlayStatusKind::FailedServerOld
            };
            let reason = if client_protocol < CURRENT_PROTOCOL {
                DisconnectReason::OutdatedClient
            } else {
                DisconnectReason::OutdatedServer
            };
            out.push(OutboundPacket::PlayStatus { status });
            out.push(OutboundPacket::Disconnect { reason });
            self.close();
            return out;
        }
        out.push(OutboundPacket::NetworkSettings { compression_threshold: 1 });
        self.set_compression(CompressionConfig { threshold: 256, level: 6 });
        self.change_state(SessionState::Login);
        out
    }

    /// Login step: turn away a client that fails mandatory identity
    /// verification; otherwise derive session key material and send the
    /// success status with the initial pack info and stack.
    pub fn handle_login(&mut self, is_xbox_auth: bool) -> (out: Vec<OutboundPacket>)
        requires
            old(self).state == SessionState::Login,
            !old(self).closed,
        ensures
            login_outcome(*old(self), is_xbox_auth, *final(self), out@),
    {
        let mut out: Vec<OutboundPacket> = Vec::new();
        if !is_xbox_auth && self.require_xbox_auth {
            out.push(OutboundPacket::PlayStatus { status: PlayStatusKind::LoginFailed });
            out.push(OutboundPacket::Disconnect { reason: DisconnectReason::NotAuthenticated });
            self.close();
            return out;
        }
        self.key_material_derived = true;
        out.push(OutboundPacket::PlayStatus { status: PlayStatusKind::LoginSuccess });
        out.push(OutboundPacket::ResourcePacksInfo { packs: Vec::new() });
        out.push(OutboundPacket::ResourcePackStack { pack_ids: Vec::new(), experiments_on: false });
        self.change_state(SessionState::Encryption);
        out
    }

    /// Pack negotiation: act on the client's verdict. See
    /// [`pack_response_outcome`] for the four cases.
    pub fn handle_resource_pack_response(
        &mut self,
        response: PackResponse,
        downloading_packs: &Vec<String>,
        store: &PackStore,
    ) -> (out: Vec<OutboundPacket>)
        requires
            old(self).state == SessionState::ResourcePack,
            !old(self).closed,
            store.wf(),
        ensures
            pack_response_outcome(
                *old(self),
                response,
                downloading_packs@.map_values(|s: String| s@),
                *store,
                *final(self),
                out@,
            ),
    {
        let ghost ids: Seq<Seq<char>> = downloading_packs@.map_values(|s: String| s@);
        match response {
            PackResponse::Refused => {
                let mut out: Vec<OutboundPacket> = Vec::new();
                out.push(OutboundPacket::Disconnect { reason: DisconnectReason::PackRefused });
                self.close();
                out
            },
            PackResponse::SendPacks => {
                let mut out: Vec<OutboundPacket> = Vec::new();
                let mut i: usize = 0;
                while i < downloading_packs.len()
                    invariant
                        i <= downloading_packs@.len(),
                        store.wf(),
                        ids == downloading_packs@.map_values(|s: String| s@),
                        out@.map_values(|p: OutboundPacket| data_info_view(p)) == spec_data_infos(
                            ids.take(i as int),
                            *store,
                        ),
                        forall|k: int| 0 <= k < out@.len() ==> out@[k] is ResourcePackDataInfo,
                    decreases downloading_packs@.len() - i,
                {
                    proof {
                        assert(ids.take(i + 1).drop_last() =~= ids.take(i as int));
                        assert(ids.take(i + 1).last() == downloading_packs@[i as int]@);
                    }
                    let name = &downloading_packs[i];
                    match store.find(name) {
                        Some(j) => {
                            proof {
                                lemma_find_unique(*store, name@, j as int);
                            }
                            let d = &store.packs[j].descriptor;
                            let cnt = d.chunk_count();
                            let packet = OutboundPacket::ResourcePackDataInfo {
                                resource_name: name.clone(),
                                chunk_size: d.chunk_size,
                                chunk_count: cnt,
                                file_size: d.total_size,
                                content_hash: vstd::slice::slice_to_vec(d.content_hash.as_slice()),
                            };
                            proof {
                                assert(data_info_view(packet) == spec_pack_data_info(
                                    *store,
                                    j as int,
                                ));
                            }
                            out.push(packet);
                            proof {
                                assert(out@.map_values(|p: OutboundPacket| data_info_view(p))
                                    =~= spec_data_infos(ids.take(i + 1), *store));
                            }
                        },
                        None => {
                            proof {
                                assert(spec_store_find(*store, ids.take(i + 1).last()) is None);
                            }
                        },
                    }
                    i = i + 1;
                }
                proof {
                    assert(ids.take(downloading_packs@.len() as int) =~= ids);
                }
                out
            },
            PackResponse::HaveAllPacks => {
                let mut pack_ids: Vec<String> = Vec::new();
                let mut i: usize = 0;
                while i < store.packs.len()
                    invariant
                        i <= store.packs@.len(),
                        pack_ids@.len() == i,
                        forall|j: int|
                            0 <= j < i ==> (#[trigger] pack_ids@[j])@
                                == store.packs@[j].descriptor.identifier@,
                    decreases store.packs@.len() - i,
                {
                    pack_ids.push(store.packs[i].descriptor.identifier.clone());
                    i = i + 1;
                }
                let mut out: Vec<OutboundPacket> = Vec::new();
                out.push(OutboundPacket::ResourcePackStack { pack_ids, experiments_on: true });
                out
            },
            PackResponse::Completed => {
                self.change_state(SessionState::PreSpawn);
                Vec::new()
            },
        }
    }

    /// Chunk request: serve the named chunk through the transfer engine.
    /// See [`chunk_request_outcome`].
    pub fn handle_chunk_request(&mut self, request: &ChunkRequest, store: &PackStore) -> (out: Vec<
        OutboundPacket,
    >)
        requires
            old(self).state == SessionState::ResourcePack,
            !old(self).closed,
            store.wf(),
        ensures
            chunk_request_outcome(
                *old(self),
                request.resource_name@,
                request.chunk_index,
                *store,
                *final(self),
                out@,
            ),
    {
        match store.find(&request.resource_name) {
            None => Vec::new(),
            Some(j) => {
                proof {
                    lemma_find_unique(*store, request.resource_name@, j as int);
                }
                let rec = &store.packs[j];
                let mut out: Vec<OutboundPacket> = Vec::new();
                match rec.descriptor.chunk_response(&rec.data, request) {
                    Ok(resp) => {
                        out.push(OutboundPacket::ResourcePackChunkData {
                            resource_name: resp.resource_name,
                            chunk_index: resp.chunk_index,
                            byte_offset: resp.byte_offset,
                            payload: resp.payload,
                        });
                    },
                    Err(_) => {
                        out.push(OutboundPacket::Disconnect {
                            reason: DisconnectReason::ChunkRequestOutOfRange,
                        });
                        self.close();
                    },
                }
                out
            },
        }
    }

    /// World bootstrap: emit the spawn sequence and enter steady-state
    /// play. See [`spawn_outcome`].
    pub fn emit_spawn_sequence(&mut self, chunk_radius: i32) -> (out: Vec<OutboundPacket>)
        requires
            old(self).state == SessionState::PreSpawn,
            !old(self).closed,
            0 <= chunk_radius,
        ensures
            spawn_outcome(*old(self), chunk_radius as int, *final(self), out@),
    {
        let r = chunk_radius;
        let ghost ri: int = r as int;
        let mut out: Vec<OutboundPacket> = Vec::new();
        out.push(OutboundPacket::StartGame);
        out.push(OutboundPacket::ItemRegistry);
        out.push(OutboundPacket::PlayerList);
        out.push(OutboundPacket::UpdateAttributes);
        let mut x: i32 = -r;
        while x < r
            invariant
                -ri <= x <= ri,
                r == ri,
                0 <= ri <= i32::MAX,
                out@.len() == 4 + (x + ri) * 2 * ri,
                out@[0] == OutboundPacket::StartGame,
                out@[1] == OutboundPacket::ItemRegistry,
                out@[2] == OutboundPacket::PlayerList,
                out@[3] == OutboundPacket::UpdateAttributes,
                forall|k: int|
                    0 <= k < (x + ri) * 2 * ri ==> #[trigger] out@[4 + k] == (OutboundPacket::LevelChunk {
                        x: (-ri + k / (2 * ri)) as i32,
                        z: (-ri + k % (2 * ri)) as i32,
                    }),
            decreases ri - x,
        {
            let mut z: i32 = -r;
            while z < r
                invariant
                    -ri <= z <= ri,
                    -ri <= x < ri,
                    r == ri,
                    0 <= ri <= i32::MAX,
                    out@.len() == 4 + (x + ri) * 2 * ri + (z + ri),
                    out@[0] == OutboundPacket::StartGame,
                    out@[1] == OutboundPacket::ItemRegistry,
                    out@[2] == OutboundPacket::PlayerList,
                    out@[3] == OutboundPacket::UpdateAttributes,
                    forall|k: int|
                        0 <= k < (x + ri) * 2 * ri + (z + ri) ==> #[trigger] out@[4 + k]
                            == (OutboundPacket::LevelChunk {
                            x: (-ri + k / (2 * ri)) as i32,
                            z: (-ri + k % (2 * ri)) as i32,
                        }),
                decreases ri - z,
            {
                proof {
                    let k0 = (x + ri) * 2 * ri + (z + ri);
                    assert((x + ri) * 2 * ri == (x + ri) * (2 * ri)) by (nonlinear_arith);
                    assert(0 <= (x + ri) * (2 * ri)) by (nonlinear_arith)
                        requires 0 <= x + ri && 0 <= ri;
                    vstd::arithmetic::div_mod::lemma_fundamental_div_mod_converse(
                        k0,
                        2 * ri,
                        x + ri,
                        z + ri,
                    );
                }
                out.push(OutboundPacket::LevelChunk { x, z });
                z = z + 1;
            }
            proof {
                assert((x + ri) * 2 * ri + 2 * ri == (x + 1 + ri) * 2 * ri) by (nonlinear_arith);
            }
            x = x + 1;
        }
        out.push(OutboundPacket::PlayStatus { status: PlayStatusKind::PlayerSpawn });
        self.change_state(SessionState::InGame);
        proof {
            assert((ri + ri) * 2 * ri == 4 * ri * ri) by (nonlinear_arith);
        }
        out
    }

    /// Handshake acknowledgement: enable the encryption codec and
    /// announce every pack the server offers, in store order.
    pub fn handle_client_handshake(&mut self, store: &PackStore) -> (out: Vec<OutboundPacket>)
        requires
            old(self).state == SessionState::Encryption,
            !old(self).closed,
            store.wf(),
        ensures
            handshake_outcome(*old(self), *store, *final(self), out@),
    {
        let mut packs: Vec<PackEntryInfo> = Vec::new();
        let mut i: usize = 0;
        while i < store.packs.len()
            invariant
                i <= store.packs@.len(),
                packs@.len() == i,
                forall|j: int|
                    0 <= j < i ==> {
                        &&& (#[trigger] packs@[j]).id@ == store.packs@[j].descriptor.identifier@
                        &&& packs@[j].version@ == store.packs@[j].descriptor.version@
                        &&& packs@[j].size == store.packs@[j].descriptor.total_size
                    },
            decreases store.packs@.len() - i,
        {
            let d = &store.packs[i].descriptor;
            packs.push(PackEntryInfo {
                id: d.identifier.clone(),
                version: d.version.clone(),
                size: d.total_size,
            });
            i = i + 1;
        }
        let mut out: Vec<OutboundPacket> = Vec::new();
        out.push(OutboundPacket::ResourcePacksInfo { packs });
        self.set_encryption();
        self.change_state(SessionState::ResourcePack);
        out
    }

    /// Dispatch one decoded packet to the handler registered for the
    /// current phase. A packet whose kind has no handler here is ignored
    /// — nothing sent, nothing changed — and a closed session ignores
    /// everything; the session moves exactly as [`spec_step`] says, and
    /// never to an earlier phase.
    pub fn handle_packet(&mut self, packet: &InboundPacket, store: &PackStore) -> (out: Vec<
        OutboundPacket,
    >)
        requires
            old(self).wf(),
            store.wf(),
        ensures
            *final(self) == spec_step(*old(self), *packet, *store),
            final(self).wf(),
            state_rank(final(self).state) >= state_rank(old(self).state),
            !old(self).closed ==> match *packet {
                InboundPacket::RequestNetworkSettings { client_network_version } => old(
                    self,
                ).state == SessionState::Start ==> network_settings_outcome(
                    *old(self),
                    client_network_version,
                    *final(self),
                    out@,
                ),
                InboundPacket::Login { is_xbox_auth } => old(self).state == SessionState::Login
                    ==> login_outcome(*old(self), is_xbox_auth, *final(self), out@),
                InboundPacket::ClientToServerHandshake => old(self).state
                    == SessionState::Encryption ==> handshake_outcome(
                    *old(self),
                    *store,
                    *final(self),
                    out@,
                ),
                InboundPacket::ResourcePackClientResponse { response, downloading_packs } => old(
                    self,
                ).state == SessionState::ResourcePack ==> pack_response_outcome(
                    *old(self),
                    response,
                    downloading_packs@.map_values(|s: String| s@),
                    *store,
                    *final(self),
                    out@,
                ),
                InboundPacket::ResourcePackChunkRequest { request } => old(self).state
                    == SessionState::ResourcePack ==> chunk_request_outcome(
                    *old(self),
                    request.resource_name@,
                    request.chunk_index,
                    *store,
                    *final(self),
                    out@,
                ),
                _ => true,
            },
            !spec_dispatches(*old(self), *packet) ==> out@.len() == 0 && *final(self) == *old(
                self,
            ),
    {
        if self.closed {
            return Vec::new();
        }
        match packet {
            InboundPacket::RequestNetworkSettings { client_network_version } => {
                if self.state == SessionState::Start {
                    self.handle_network_settings_request(*client_network_version)
                } else {
                    Vec::new()
                }
            },
            InboundPacket::Login { is_xbox_auth } => {
                if self.state == SessionState::Login {
                    self.handle_login(*is_xbox_auth)
                } else {
                    Vec::new()
                }
            },
            InboundPacket::ClientToServerHandshake => {
                if self.state == SessionState::Encryption {
                    self.handle_client_handshake(store)
                } else {
                    Vec::new()
                }
            },
            InboundPacket::ResourcePackClientResponse { response, downloading_packs } => {
                if self.state == SessionState::ResourcePack {
                    self.handle_resource_pack_response(*response, downloading_packs, store)
                } else {
                    Vec::new()
                }
            },
            InboundPacket::ResourcePackChunkRequest { request } => {
                if self.state == SessionState::ResourcePack {
                    self.handle_chunk_request(request, store)
                } else {
                    Vec::new()
                }
            },
            InboundPacket::PlayerAuthInput => Vec::new(),
            InboundPacket::Unrecognized => Vec::new(),
        }
    }
}

/// No handler ever moves a session to an earlier phase, and the login
/// policy never changes underneath a session: every step of the machine
/// keeps or increases the phase rank.
pub proof fn lemma_transitions_monotonic(s: Session, p: InboundPacket, store: PackStore)
    ensures
        state_rank(spec_step(s, p, store).state) >= state_rank(s.state),
        spec_step(s, p, store).require_xbox_auth == s.require_xbox_auth,
        s.closed ==> spec_step(s, p, store) == s,
{
}

/// The machine run over a whole trace of inbound packets.
pub open spec fn spec_run(s: Session, ps: Seq<InboundPacket>, store: PackStore) -> Session
    decreases ps.len(),
{
    if ps.len() == 0 {
        s
    } else {
        spec_run(spec_step(s, ps.first(), store), ps.drop_first(), store)
    }
}

/// Whether this packet is a login that the session's policy accepts.
pub open spec fn is_accepted_login(s: Session, p: InboundPacket) -> bool {
    p is Login && login_accepted(s, p->is_xbox_auth)
}

/// Login gates all progress: a session that never completes login stays
/// in the first two phases. Whatever trace a client sends, if none of its
/// packets is a login the policy accepts, the session reaches neither
/// `Encryption` nor `ResourcePack` nor `PreSpawn` nor `InGame`.
pub proof fn lemma_login_gates_progress(s: Session, ps: Seq<InboundPacket>, store: PackStore)
    requires
        state_rank(s.state) <= 1,
        forall|i: int| 0 <= i < ps.len() ==> !is_accepted_login(s, #[trigger] ps[i]),
    ensures
        state_rank(spec_run(s, ps, store).state) <= 1,
    decreases ps.len(),
{
    if ps.len() > 0 {
        let s1 = spec_step(s, ps.first(), store);
        lemma_transitions_monotonic(s, ps.first(), store);
        assert(state_rank(s1.state) <= 1);
        assert forall|i: int| 0 <= i < ps.drop_first().len() implies !is_accepted_login(
            s1,
            #[trigger] ps.drop_first()[i],
        ) by {
            assert(ps.drop_first()[i] == ps[i + 1]);
        }
        lemma_login_gates_progress(s1, ps.drop_first(), store);
    }
}

} // verus!
