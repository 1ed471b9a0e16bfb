//! The packet registry: one variant per packet kind, each under one wire ID,
//! used both to encode a packet and to route incoming bytes to the right
//! body decoder.
pub mod header;
pub mod play;
pub mod prelogin;

use crate::error::Error;
use crate::wire::{agrees_view, holds_at, lemma_holds_at_concat};
use header::{header_bytes, lemma_header_round_trip, parse_header, PacketHeader};

use play::{
    ActorEvent, AddPainting, AddPaintingView, AddPlayer, BlockEvent, C2SHandshake, Disconnect,
    DisconnectView, LevelEvent, Login, LoginView, MobEffect, MoveActorAbsolute, MovePlayer,
    PassengerJump, PlayStatus, ResourcePackClientResponse, ResourcePackClientResponseView,
    ResourcePackStack, ResourcePackStackView, ResourcePacksInfo, ResourcePacksInfoView,
    S2CHandshake, S2CHandshakeView, SetTime, StartGame, TakeItemActor, Text, TextView, TickSync,
    UpdateAttributes, UpdateAttributesView, UpdateBlock,
};
use prelogin::{NetworkSettings, RequestNetworkSettings};
use vstd::prelude::*;

verus! {

/// The kinds of packet, each registered under one wire ID.
#[derive(Debug, Clone, Copy, PartialEq, Eq, Hash, Structural)]
pub enum PacketID {
    Login,
    PlayStatus,
    S2CHandshake,
    C2SHandshake,
    Disconnect,
    ResourcePacksInfo,
    ResourcePackStack,
    ResourcePackClientResponse,
    Text,
    SetTime,
    StartGame,
    AddPlayer,
    TakeItemActor,
    MoveActorAbsolute,
    MovePlayer,
    PassengerJump,
    UpdateBlock,
    AddPainting,
    TickSync,
    LevelEvent,
    BlockEvent,
    ActorEvent,
    MobEffect,
    UpdateAttributes,
    RequestNetworkSettings,
    NetworkSettings,
}

impl PacketID {
    /// The wire ID of each kind.
    pub open spec fn spec_wire_id(self) -> u32 {
        match self {
            PacketID::Login => 0x01,
            PacketID::PlayStatus => 0x02,
            PacketID::S2CHandshake => 0x03,
            PacketID::C2SHandshake => 0x04,
            PacketID::Disconnect => 0x05,
            PacketID::ResourcePacksInfo => 0x06,
            PacketID::ResourcePackStack => 0x07,
            PacketID::ResourcePackClientResponse => 0x08,
            PacketID::Text => 0x09,
            PacketID::SetTime => 0x0a,
            PacketID::StartGame => 0x0b,
            PacketID::AddPlayer => 0x0c,
            PacketID::TakeItemActor => 0x11,
            PacketID::MoveActorAbsolute => 0x12,
            PacketID::MovePlayer => 0x13,
            PacketID::PassengerJump => 0x14,
            PacketID::UpdateBlock => 0x15,
            PacketID::AddPainting => 0x16,
            PacketID::TickSync => 0x17,
            PacketID::LevelEvent => 0x19,
            PacketID::BlockEvent => 0x1a,
            PacketID::ActorEvent => 0x1b,
            PacketID::MobEffect => 0x1c,
            PacketID::UpdateAttributes => 0x1d,
            PacketID::RequestNetworkSettings => 0xc1,
            PacketID::NetworkSettings => 0x8f,
        }
    }

    /// The kind registered under a wire ID, if any.
    pub open spec fn spec_from_wire_id(id: u32) -> Option<PacketID> {
        if id == 0x01 {
            Some(PacketID::Login)
        } else if id == 0x02 {
            Some(PacketID::PlayStatus)
        } else if id == 0x03 {
            Some(PacketID::S2CHandshake)
        } else if id == 0x04 {
            Some(PacketID::C2SHandshake)
        } else if id == 0x05 {
            Some(PacketID::Disconnect)
        } else if id == 0x06 {
            Some(PacketID::ResourcePacksInfo)
        } else if id == 0x07 {
            Some(PacketID::ResourcePackStack)
        } else if id == 0x08 {
            Some(PacketID::ResourcePackClientResponse)
        } else if id == 0x09 {
            Some(PacketID::Text)
        } else if id == 0x0a {
            Some(PacketID::SetTime)
        } else if id == 0x0b {
            Some(PacketID::StartGame)
        } else if id == 0x0c {
            Some(PacketID::AddPlayer)
        } else if id == 0x11 {
            Some(PacketID::TakeItemActor)
        } else if id == 0x12 {
            Some(PacketID::MoveActorAbsolute)
        } else if id == 0x13 {
            Some(PacketID::MovePlayer)
        } else if id == 0x14 {
            Some(PacketID::PassengerJump)
        } else if id == 0x15 {
            Some(PacketID::UpdateBlock)
        } else if id == 0x16 {
            Some(PacketID::AddPainting)
        } else if id == 0x17 {
            Some(PacketID::TickSync)
        } else if id == 0x19 {
            Some(PacketID::LevelEvent)
        } else if id == 0x1a {
            Some(PacketID::BlockEvent)
        } else if id == 0x1b {
            Some(PacketID::ActorEvent)
        } else if id == 0x1c {
            Some(PacketID::MobEffect)
        } else if id == 0x1d {
            Some(PacketID::UpdateAttributes)
        } else if id == 0xc1 {
            Some(PacketID::RequestNetworkSettings)
        } else if id == 0x8f {
            Some(PacketID::NetworkSettings)
        } else {
            None
        }
    }

    pub fn wire_id(&self) -> (r: u32)
        ensures
            r == self.spec_wire_id(),
    {
        match self {
            PacketID::Login => 0x01,
            PacketID::PlayStatus => 0x02,
            PacketID::S2CHandshake => 0x03,
            PacketID::C2SHandshake => 0x04,
            PacketID::Disconnect => 0x05,
            PacketID::ResourcePacksInfo => 0x06,
            PacketID::ResourcePackStack => 0x07,
            PacketID::ResourcePackClientResponse => 0x08,
            PacketID::Text => 0x09,
            PacketID::SetTime => 0x0a,
            PacketID::StartGame => 0x0b,
            PacketID::AddPlayer => 0x0c,
            PacketID::TakeItemActor => 0x11,
            PacketID::MoveActorAbsolute => 0x12,
            PacketID::MovePlayer => 0x13,
            PacketID::PassengerJump => 0x14,
            PacketID::UpdateBlock => 0x15,
            PacketID::AddPainting => 0x16,
            PacketID::TickSync => 0x17,
            PacketID::LevelEvent => 0x19,
            PacketID::BlockEvent => 0x1a,
            PacketID::ActorEvent => 0x1b,
            PacketID::MobEffect => 0x1c,
            PacketID::UpdateAttributes => 0x1d,
            PacketID::RequestNetworkSettings => 0xc1,
            PacketID::NetworkSettings => 0x8f,
        }
    }

    pub fn from_wire_id(id: u32) -> (r: Option<PacketID>)
        ensures
            r == Self::spec_from_wire_id(id),
    {
        if id == 0x01 {
            Some(PacketID::Login)
        } else if id == 0x02 {
            Some(PacketID::PlayStatus)
        } else if id == 0x03 {
            Some(PacketID::S2CHandshake)
        } else if id == 0x04 {
            Some(PacketID::C2SHandshake)
        } else if id == 0x05 {
            Some(PacketID::Disconnect)
        } else if id == 0x06 {
            Some(PacketID::ResourcePacksInfo)
        } else if id == 0x07 {
            Some(PacketID::ResourcePackStack)
        } else if id == 0x08 {
            Some(PacketID::ResourcePackClientResponse)
        } else if id == 0x09 {
            Some(PacketID::Text)
        } else if id == 0x0a {
            Some(PacketID::SetTime)
        } else if id == 0x0b {
            Some(PacketID::StartGame)
        } else if id == 0x0c {
            Some(PacketID::AddPlayer)
        } else if id == 0x11 {
            Some(PacketID::TakeItemActor)
        } else if id == 0x12 {
            Some(PacketID::MoveActorAbsolute)
        } else if id == 0x13 {
            Some(PacketID::MovePlayer)
        } else if id == 0x14 {
            Some(PacketID::PassengerJump)
        } else if id == 0x15 {
            Some(PacketID::UpdateBlock)
        } else if id == 0x16 {
            Some(PacketID::AddPainting)
        } else if id == 0x17 {
            Some(PacketID::TickSync)
        } else if id == 0x19 {
            Some(PacketID::LevelEvent)
        } else if id == 0x1a {
            Some(PacketID::BlockEvent)
        } else if id == 0x1b {
            Some(PacketID::ActorEvent)
        } else if id == 0x1c {
            Some(PacketID::MobEffect)
        } else if id == 0x1d {
            Some(PacketID::UpdateAttributes)
        } else if id == 0xc1 {
            Some(PacketID::RequestNetworkSettings)
        } else if id == 0x8f {
            Some(PacketID::NetworkSettings)
        } else {
            None
        }
    }
}

/// No two kinds share a wire ID, and each kind is found again from its ID:
/// the registry is a bijection between kinds and registered IDs.
pub proof fn lemma_registry_bijection(a: PacketID, b: PacketID)
    ensures
        a.spec_wire_id() == b.spec_wire_id() ==> a == b,
        PacketID::spec_from_wire_id(a.spec_wire_id()) == Some(a),
{
}

/// An ID found in the registry belongs to the kind it names.
pub proof fn lemma_registered_id(id: u32)
    ensures
        PacketID::spec_from_wire_id(id) matches Some(k) ==> k.spec_wire_id() == id,
        PacketID::spec_from_wire_id(id) is None ==> forall|k: PacketID| k.spec_wire_id() != id,
{
    if PacketID::spec_from_wire_id(id) is None {
        assert forall|k: PacketID| k.spec_wire_id() != id by {
            lemma_registry_bijection(k, k);
        }
    }
}

/// Every registered ID fits the ten bits the header gives it.
pub proof fn lemma_ids_fit_header(k: PacketID)
    ensures
        k.spec_wire_id() <= 0x3FF,
{
}

/// A packet of any registered kind.
#[derive(Debug, Clone, PartialEq, Eq)]
pub enum Packet {
    Login(Login),
    PlayStatus(PlayStatus),
    S2CHandshake(S2CHandshake),
    C2SHandshake(C2SHandshake),
    Disconnect(Disconnect),
    ResourcePacksInfo(ResourcePacksInfo),
    ResourcePackStack(ResourcePackStack),
    ResourcePackClientResponse(ResourcePackClientResponse),
    Text(Text),
    SetTime(SetTime),
    StartGame(StartGame),
    AddPlayer(AddPlayer),
    TakeItemActor(TakeItemActor),
    MoveActorAbsolute(MoveActorAbsolute),
    MovePlayer(MovePlayer),
    PassengerJump(PassengerJump),
    UpdateBlock(UpdateBlock),
    AddPainting(AddPainting),
    TickSync(TickSync),
    LevelEvent(LevelEvent),
    BlockEvent(BlockEvent),
    ActorEvent(ActorEvent),
    MobEffect(MobEffect),
    UpdateAttributes(UpdateAttributes),
    RequestNetworkSettings(RequestNetworkSettings),
    NetworkSettings(NetworkSettings),
}

/// The value of a `Packet`; kinds this library only encodes carry no value.
pub ghost enum PacketView {
    Login(LoginView),
    PlayStatus(PlayStatus),
    S2CHandshake(S2CHandshakeView),
    C2SHandshake(C2SHandshake),
    Disconnect(DisconnectView),
    ResourcePacksInfo(ResourcePacksInfoView),
    ResourcePackStack(ResourcePackStackView),
    ResourcePackClientResponse(ResourcePackClientResponseView),
    Text(TextView),
    SetTime(SetTime),
    StartGame,
    AddPlayer,
    TakeItemActor(TakeItemActor),
    MoveActorAbsolute(MoveActorAbsolute),
    MovePlayer(MovePlayer),
    PassengerJump(PassengerJump),
    UpdateBlock(UpdateBlock),
    AddPainting(AddPaintingView),
    TickSync(TickSync),
    LevelEvent(LevelEvent),
    BlockEvent(BlockEvent),
    ActorEvent(ActorEvent),
    MobEffect(MobEffect),
    UpdateAttributes(UpdateAttributesView),
    RequestNetworkSettings(RequestNetworkSettings),
    NetworkSettings(NetworkSettings),
}

impl View for Packet {
    type V = PacketView;

    open spec fn view(&self) -> PacketView {
        match self {
            Packet::Login(b) => PacketView::Login(b@),
            Packet::PlayStatus(b) => PacketView::PlayStatus(*b),
            Packet::S2CHandshake(b) => PacketView::S2CHandshake(b@),
            Packet::C2SHandshake(b) => PacketView::C2SHandshake(*b),
            Packet::Disconnect(b) => PacketView::Disconnect(b@),
            Packet::ResourcePacksInfo(b) => PacketView::ResourcePacksInfo(b@),
            Packet::ResourcePackStack(b) => PacketView::ResourcePackStack(b@),
            Packet::ResourcePackClientResponse(b) => PacketView::ResourcePackClientResponse(b@),
            Packet::Text(b) => PacketView::Text(b@),
            Packet::SetTime(b) => PacketView::SetTime(*b),
            Packet::StartGame(_) => PacketView::StartGame,
            Packet::AddPlayer(_) => PacketView::AddPlayer,
            Packet::TakeItemActor(b) => PacketView::TakeItemActor(*b),
            Packet::MoveActorAbsolute(b) => PacketView::MoveActorAbsolute(*b),
            Packet::MovePlayer(b) => PacketView::MovePlayer(*b),
            Packet::PassengerJump(b) => PacketView::PassengerJump(*b),
            Packet::UpdateBlock(b) => PacketView::UpdateBlock(*b),
            Packet::AddPainting(b) => PacketView::AddPainting(b@),
            Packet::TickSync(b) => PacketView::TickSync(*b),
            Packet::LevelEvent(b) => PacketView::LevelEvent(*b),
            Packet::BlockEvent(b) => PacketView::BlockEvent(*b),
            Packet::ActorEvent(b) => PacketView::ActorEvent(*b),
            Packet::MobEffect(b) => PacketView::MobEffect(*b),
            Packet::UpdateAttributes(b) => PacketView::UpdateAttributes(b@),
            Packet::RequestNetworkSettings(b) => PacketView::RequestNetworkSettings(*b),
            Packet::NetworkSettings(b) => PacketView::NetworkSettings(*b),
        }
    }
}

impl Packet {
    /// The kind of the packet.
    pub open spec fn spec_kind(self) -> PacketID {
        match self {
            Packet::Login(_) => PacketID::Login,
            Packet::PlayStatus(_) => PacketID::PlayStatus,
            Packet::S2CHandshake(_) => PacketID::S2CHandshake,
            Packet::C2SHandshake(_) => PacketID::C2SHandshake,
            Packet::Disconnect(_) => PacketID::Disconnect,
            Packet::ResourcePacksInfo(_) => PacketID::ResourcePacksInfo,
            Packet::ResourcePackStack(_) => PacketID::ResourcePackStack,
            Packet::ResourcePackClientResponse(_) => PacketID::ResourcePackClientResponse,
            Packet::Text(_) => PacketID::Text,
            Packet::SetTime(_) => PacketID::SetTime,
            Packet::StartGame(_) => PacketID::StartGame,
            Packet::AddPlayer(_) => PacketID::AddPlayer,
            Packet::TakeItemActor(_) => PacketID::TakeItemActor,
            Packet::MoveActorAbsolute(_) => PacketID::MoveActorAbsolute,
            Packet::MovePlayer(_) => PacketID::MovePlayer,
            Packet::PassengerJump(_) => PacketID::PassengerJump,
            Packet::UpdateBlock(_) => PacketID::UpdateBlock,
            Packet::AddPainting(_) => PacketID::AddPainting,
            Packet::TickSync(_) => PacketID::TickSync,
            Packet::LevelEvent(_) => PacketID::LevelEvent,
            Packet::BlockEvent(_) => PacketID::BlockEvent,
            Packet::ActorEvent(_) => PacketID::ActorEvent,
            Packet::MobEffect(_) => PacketID::MobEffect,
            Packet::UpdateAttributes(_) => PacketID::UpdateAttributes,
            Packet::RequestNetworkSettings(_) => PacketID::RequestNetworkSettings,
            Packet::NetworkSettings(_) => PacketID::NetworkSettings,
        }
    }

    /// The kind of a packet value.
    pub open spec fn view_kind(v: PacketView) -> PacketID {
        match v {
            PacketView::Login(_) => PacketID::Login,
            PacketView::PlayStatus(_) => PacketID::PlayStatus,
            PacketView::S2CHandshake(_) => PacketID::S2CHandshake,
            PacketView::C2SHandshake(_) => PacketID::C2SHandshake,
            PacketView::Disconnect(_) => PacketID::Disconnect,
            PacketView::ResourcePacksInfo(_) => PacketID::ResourcePacksInfo,
            PacketView::ResourcePackStack(_) => PacketID::ResourcePackStack,
            PacketView::ResourcePackClientResponse(_) => PacketID::ResourcePackClientResponse,
            PacketView::Text(_) => PacketID::Text,
            PacketView::SetTime(_) => PacketID::SetTime,
            PacketView::StartGame => PacketID::StartGame,
            PacketView::AddPlayer => PacketID::AddPlayer,
            PacketView::TakeItemActor(_) => PacketID::TakeItemActor,
            PacketView::MoveActorAbsolute(_) => PacketID::MoveActorAbsolute,
            PacketView::MovePlayer(_) => PacketID::MovePlayer,
            PacketView::PassengerJump(_) => PacketID::PassengerJump,
            PacketView::UpdateBlock(_) => PacketID::UpdateBlock,
            PacketView::AddPainting(_) => PacketID::AddPainting,
            PacketView::TickSync(_) => PacketID::TickSync,
            PacketView::LevelEvent(_) => PacketID::LevelEvent,
            PacketView::BlockEvent(_) => PacketID::BlockEvent,
            PacketView::ActorEvent(_) => PacketID::ActorEvent,
            PacketView::MobEffect(_) => PacketID::MobEffect,
            PacketView::UpdateAttributes(_) => PacketID::UpdateAttributes,
            PacketView::RequestNetworkSettings(_) => PacketID::RequestNetworkSettings,
            PacketView::NetworkSettings(_) => PacketID::NetworkSettings,
        }
    }

    /// The body's own bytes.
    pub open spec fn body_bytes(self) -> Seq<u8> {
        match self {
            Packet::Login(b) => b.spec_bytes(),
            Packet::PlayStatus(b) => b.spec_bytes(),
            Packet::S2CHandshake(b) => b.spec_bytes(),
            Packet::C2SHandshake(b) => b.spec_bytes(),
            Packet::Disconnect(b) => b.spec_bytes(),
            Packet::ResourcePacksInfo(b) => b.spec_bytes(),
            Packet::ResourcePackStack(b) => b.spec_bytes(),
            Packet::ResourcePackClientResponse(b) => b.spec_bytes(),
            Packet::Text(b) => b.spec_bytes(),
            Packet::SetTime(b) => b.spec_bytes(),
            Packet::StartGame(b) => b.spec_bytes(),
            Packet::AddPlayer(b) => b.spec_bytes(),
            Packet::TakeItemActor(b) => b.spec_bytes(),
            Packet::MoveActorAbsolute(b) => b.spec_bytes(),
            Packet::MovePlayer(b) => b.spec_bytes(),
            Packet::PassengerJump(b) => b.spec_bytes(),
            Packet::UpdateBlock(b) => b.spec_bytes(),
            Packet::AddPainting(b) => b.spec_bytes(),
            Packet::TickSync(b) => b.spec_bytes(),
            Packet::LevelEvent(b) => b.spec_bytes(),
            Packet::BlockEvent(b) => b.spec_bytes(),
            Packet::ActorEvent(b) => b.spec_bytes(),
            Packet::MobEffect(b) => b.spec_bytes(),
            Packet::UpdateAttributes(b) => b.spec_bytes(),
            Packet::RequestNetworkSettings(b) => b.spec_bytes(),
            Packet::NetworkSettings(b) => b.spec_bytes(),
        }
    }

    /// The header, with both sub-client IDs zero, then the body.
    pub open spec fn spec_bytes(self) -> Seq<u8> {
        header_bytes(PacketHeader::spec_new(self.spec_kind().spec_wire_id())) + self.body_bytes()
    }

    /// The body fits its encoding, and decoding reproduces it; kinds this
    /// library only encodes are never well-formed in this sense.
    pub open spec fn wf(self) -> bool {
        match self {
            Packet::Login(b) => b.wf(),
            Packet::PlayStatus(b) => true,
            Packet::S2CHandshake(b) => b.wf(),
            Packet::C2SHandshake(b) => true,
            Packet::Disconnect(b) => b.wf(),
            Packet::ResourcePacksInfo(b) => b.wf(),
            Packet::ResourcePackStack(b) => b.wf(),
            Packet::ResourcePackClientResponse(b) => b.wf(),
            Packet::Text(b) => b.wf(),
            Packet::SetTime(b) => true,
            Packet::StartGame(_) => false,
            Packet::AddPlayer(_) => false,
            Packet::TakeItemActor(b) => true,
            Packet::MoveActorAbsolute(b) => true,
            Packet::MovePlayer(b) => true,
            Packet::PassengerJump(b) => true,
            Packet::UpdateBlock(b) => true,
            Packet::AddPainting(b) => b.wf(),
            Packet::TickSync(b) => true,
            Packet::LevelEvent(b) => true,
            Packet::BlockEvent(b) => true,
            Packet::ActorEvent(b) => true,
            Packet::MobEffect(b) => true,
            Packet::UpdateAttributes(b) => b.wf(),
            Packet::RequestNetworkSettings(b) => true,
            Packet::NetworkSettings(b) => true,
        }
    }

    /// What encoding needs of the body.
    pub open spec fn can_encode(self) -> bool {
        match self {
            Packet::Disconnect(b) => b.can_encode(),
            _ => true,
        }
    }

    /// Reads the header, then the body of the kind its ID is registered under.
    /// An ID registered for no kind is an error carrying the ID and the offset
    /// of the header.
    pub open spec fn parse(s: Seq<u8>, pos: nat) -> Result<(PacketView, nat), Error> {
        match parse_header(s, pos) {
            Err(e) => Err(e),
            Ok((h, p)) => match PacketID::spec_from_wire_id(h.id) {
                None => Err(Error::UnknownPacketId { id: h.id, offset: pos as usize }),
                Some(kind) => Self::parse_body(kind, s, p),
            },
        }
    }

    /// Reads the body of a packet of the given kind.
    pub open spec fn parse_body(kind: PacketID, s: Seq<u8>, pos: nat) -> Result<(PacketView, nat), Error> {
        match kind {
            PacketID::Login => match Login::parse(s, pos) {
                Ok((b, p)) => Ok((PacketView::Login(b), p)),
                Err(e) => Err(e),
            },
            PacketID::PlayStatus => match PlayStatus::parse(s, pos) {
                Ok((b, p)) => Ok((PacketView::PlayStatus(b), p)),
                Err(e) => Err(e),
            },
            PacketID::S2CHandshake => match S2CHandshake::parse(s, pos) {
                Ok((b, p)) => Ok((PacketView::S2CHandshake(b), p)),
                Err(e) => Err(e),
            },
            PacketID::C2SHandshake => match C2SHandshake::parse(s, pos) {
                Ok((b, p)) => Ok((PacketView::C2SHandshake(b), p)),
                Err(e) => Err(e),
            },
            PacketID::Disconnect => match Disconnect::parse(s, pos) {
                Ok((b, p)) => Ok((PacketView::Disconnect(b), p)),
                Err(e) => Err(e),
            },
            PacketID::ResourcePacksInfo => match ResourcePacksInfo::parse(s, pos) {
                Ok((b, p)) => Ok((PacketView::ResourcePacksInfo(b), p)),
                Err(e) => Err(e),
            },
            PacketID::ResourcePackStack => match ResourcePackStack::parse(s, pos) {
                Ok((b, p)) => Ok((PacketView::ResourcePackStack(b), p)),
                Err(e) => Err(e),
            },
            PacketID::ResourcePackClientResponse => match ResourcePackClientResponse::parse(s, pos) {
                Ok((b, p)) => Ok((PacketView::ResourcePackClientResponse(b), p)),
                Err(e) => Err(e),
            },
            PacketID::Text => match Text::parse(s, pos) {
                Ok((b, p)) => Ok((PacketView::Text(b), p)),
                Err(e) => Err(e),
            },
            PacketID::SetTime => match SetTime::parse(s, pos) {
                Ok((b, p)) => Ok((PacketView::SetTime(b), p)),
                Err(e) => Err(e),
            },
            PacketID::StartGame => Err(Error::Unsupported),
            PacketID::AddPlayer => Err(Error::Unsupported),
            PacketID::TakeItemActor => match TakeItemActor::parse(s, pos) {
                Ok((b, p)) => Ok((PacketView::TakeItemActor(b), p)),
                Err(e) => Err(e),
            },
            PacketID::MoveActorAbsolute => match MoveActorAbsolute::parse(s, pos) {
                Ok((b, p)) => Ok((PacketView::MoveActorAbsolute(b), p)),
                Err(e) => Err(e),
            },
            PacketID::MovePlayer => match MovePlayer::parse(s, pos) {
                Ok((b, p)) => Ok((PacketView::MovePlayer(b), p)),
                Err(e) => Err(e),
            },
            PacketID::PassengerJump => match PassengerJump::parse(s, pos) {
                Ok((b, p)) => Ok((PacketView::PassengerJump(b), p)),
                Err(e) => Err(e),
            },
            PacketID::UpdateBlock => match UpdateBlock::parse(s, pos) {
                Ok((b, p)) => Ok((PacketView::UpdateBlock(b), p)),
                Err(e) => Err(e),
            },
            PacketID::AddPainting => match AddPainting::parse(s, pos) {
                Ok((b, p)) => Ok((PacketView::AddPainting(b), p)),
                Err(e) => Err(e),
            },
            PacketID::TickSync => match TickSync::parse(s, pos) {
                Ok((b, p)) => Ok((PacketView::TickSync(b), p)),
                Err(e) => Err(e),
            },
            PacketID::LevelEvent => match LevelEvent::parse(s, pos) {
                Ok((b, p)) => Ok((PacketView::LevelEvent(b), p)),
                Err(e) => Err(e),
            },
            PacketID::BlockEvent => match BlockEvent::parse(s, pos) {
                Ok((b, p)) => Ok((PacketView::BlockEvent(b), p)),
                Err(e) => Err(e),
            },
            PacketID::ActorEvent => match ActorEvent::parse(s, pos) {
                Ok((b, p)) => Ok((PacketView::ActorEvent(b), p)),
                Err(e) => Err(e),
            },
            PacketID::MobEffect => match MobEffect::parse(s, pos) {
                Ok((b, p)) => Ok((PacketView::MobEffect(b), p)),
                Err(e) => Err(e),
            },
            PacketID::UpdateAttributes => match UpdateAttributes::parse(s, pos) {
                Ok((b, p)) => Ok((PacketView::UpdateAttributes(b), p)),
                Err(e) => Err(e),
            },
            PacketID::RequestNetworkSettings => match RequestNetworkSettings::parse(s, pos) {
                Ok((b, p)) => Ok((PacketView::RequestNetworkSettings(b), p)),
                Err(e) => Err(e),
            },
            PacketID::NetworkSettings => match NetworkSettings::parse(s, pos) {
                Ok((b, p)) => Ok((PacketView::NetworkSettings(b), p)),
                Err(e) => Err(e),
            },
        }
    }

    /// The kind of the packet.
    pub fn id(&self) -> (r: PacketID)
        ensures
            r == self.spec_kind(),
    {
        match self {
            Packet::Login(_) => PacketID::Login,
            Packet::PlayStatus(_) => PacketID::PlayStatus,
            Packet::S2CHandshake(_) => PacketID::S2CHandshake,
            Packet::C2SHandshake(_) => PacketID::C2SHandshake,
            Packet::Disconnect(_) => PacketID::Disconnect,
            Packet::ResourcePacksInfo(_) => PacketID::ResourcePacksInfo,
            Packet::ResourcePackStack(_) => PacketID::ResourcePackStack,
            Packet::ResourcePackClientResponse(_) => PacketID::ResourcePackClientResponse,
            Packet::Text(_) => PacketID::Text,
            Packet::SetTime(_) => PacketID::SetTime,
            Packet::StartGame(_) => PacketID::StartGame,
            Packet::AddPlayer(_) => PacketID::AddPlayer,
            Packet::TakeItemActor(_) => PacketID::TakeItemActor,
            Packet::MoveActorAbsolute(_) => PacketID::MoveActorAbsolute,
            Packet::MovePlayer(_) => PacketID::MovePlayer,
            Packet::PassengerJump(_) => PacketID::PassengerJump,
            Packet::UpdateBlock(_) => PacketID::UpdateBlock,
            Packet::AddPainting(_) => PacketID::AddPainting,
            Packet::TickSync(_) => PacketID::TickSync,
            Packet::LevelEvent(_) => PacketID::LevelEvent,
            Packet::BlockEvent(_) => PacketID::BlockEvent,
            Packet::ActorEvent(_) => PacketID::ActorEvent,
            Packet::MobEffect(_) => PacketID::MobEffect,
            Packet::UpdateAttributes(_) => PacketID::UpdateAttributes,
            Packet::RequestNetworkSettings(_) => PacketID::RequestNetworkSettings,
            Packet::NetworkSettings(_) => PacketID::NetworkSettings,
        }
    }

    /// The wire ID of the packet's kind.
    pub fn id_of(&self) -> (r: u32)
        ensures
            r == self.spec_kind().spec_wire_id(),
    {
        self.id().wire_id()
    }

    /// Appends the header, with both sub-client IDs zero, then the body.
    pub fn serialize(&self, out: &mut Vec<u8>)
        requires
            self.can_encode(),
        ensures
            final(out)@ == old(out)@ + self.spec_bytes(),
    {
        let header = PacketHeader::new(self.id_of());
        header.serialize(out);
        self.serialize_body(out);
        assert(final(out)@ =~= old(out)@ + self.spec_bytes());
    }

    /// Appends the header with the given sub-client IDs, then the body.
    pub fn serialize_with_subclients(&self, sender: u8, target: u8, out: &mut Vec<u8>)
        requires
            self.can_encode(),
        ensures
            final(out)@ == old(out)@ + header_bytes(
                PacketHeader {
                    id: self.spec_kind().spec_wire_id(),
                    sender_subclient_id: sender,
                    target_subclient_id: target,
                },
            ) + self.body_bytes(),
    {
        let header = PacketHeader {
            id: self.id_of(),
            sender_subclient_id: sender,
            target_subclient_id: target,
        };
        header.serialize(out);
        self.serialize_body(out);
    }

    /// Appends the body alone.
    #[verifier::rlimit(50)]
    pub fn serialize_body(&self, out: &mut Vec<u8>)
        requires
            self.can_encode(),
        ensures
            final(out)@ == old(out)@ + self.body_bytes(),
    {
        match self {
            Packet::Login(b) => b.serialize(out),
            Packet::PlayStatus(b) => b.serialize(out),
            Packet::S2CHandshake(b) => b.serialize(out),
            Packet::C2SHandshake(b) => b.serialize(out),
            Packet::Disconnect(b) => b.serialize(out),
            Packet::ResourcePacksInfo(b) => b.serialize(out),
            Packet::ResourcePackStack(b) => b.serialize(out),
            Packet::ResourcePackClientResponse(b) => b.serialize(out),
            Packet::Text(b) => b.serialize(out),
            Packet::SetTime(b) => b.serialize(out),
            Packet::StartGame(b) => b.serialize(out),
            Packet::AddPlayer(b) => b.serialize(out),
            Packet::TakeItemActor(b) => b.serialize(out),
            Packet::MoveActorAbsolute(b) => b.serialize(out),
            Packet::MovePlayer(b) => b.serialize(out),
            Packet::PassengerJump(b) => b.serialize(out),
            Packet::UpdateBlock(b) => b.serialize(out),
            Packet::AddPainting(b) => b.serialize(out),
            Packet::TickSync(b) => b.serialize(out),
            Packet::LevelEvent(b) => b.serialize(out),
            Packet::BlockEvent(b) => b.serialize(out),
            Packet::ActorEvent(b) => b.serialize(out),
            Packet::MobEffect(b) => b.serialize(out),
            Packet::UpdateAttributes(b) => b.serialize(out),
            Packet::RequestNetworkSettings(b) => b.serialize(out),
            Packet::NetworkSettings(b) => b.serialize(out),
        }
    }

    /// Encodes the packet into a new byte vector.
    pub fn encode(&self) -> (r: Vec<u8>)
        requires
            self.can_encode(),
        ensures
            r@ == self.spec_bytes(),
    {
        let mut out: Vec<u8> = Vec::new();
        self.serialize(&mut out);
        assert(out@ =~= self.spec_bytes());
        out
    }

    /// Reads a packet at `pos`: its header, then the body its ID is
    /// registered for.
    pub fn deserialize(buf: &[u8], pos: usize) -> (r: Result<(Self, usize), Error>)
        ensures
            agrees_view(r, Self::parse(buf@, pos as nat), buf@.len()),
    {
        let (h, p) = match PacketHeader::deserialize(buf, pos) {
            Ok(x) => x,
            Err(e) => return Err(e),
        };
        match PacketID::from_wire_id(h.id()) {
            Some(kind) => Self::deserialize_body(kind, buf, p),
            None => Err(Error::UnknownPacketId { id: h.id(), offset: pos }),
        }
    }

    /// Reads the body of a packet of the given kind at `pos`.
    #[verifier::rlimit(50)]
    pub fn deserialize_body(kind: PacketID, buf: &[u8], pos: usize) -> (r: Result<(Self, usize), Error>)
        ensures
            agrees_view(r, Self::parse_body(kind, buf@, pos as nat), buf@.len()),
    {
        reveal(Packet::parse_body);
        match kind {
            PacketID::Login => match Login::deserialize(buf, pos) {
                Ok((b, q)) => Ok((Packet::Login(b), q)),
                Err(e) => Err(e),
            },
            PacketID::PlayStatus => match PlayStatus::deserialize(buf, pos) {
                Ok((b, q)) => Ok((Packet::PlayStatus(b), q)),
                Err(e) => Err(e),
            },
            PacketID::S2CHandshake => match S2CHandshake::deserialize(buf, pos) {
                Ok((b, q)) => Ok((Packet::S2CHandshake(b), q)),
                Err(e) => Err(e),
            },
            PacketID::C2SHandshake => match C2SHandshake::deserialize(buf, pos) {
                Ok((b, q)) => Ok((Packet::C2SHandshake(b), q)),
                Err(e) => Err(e),
            },
            PacketID::Disconnect => match Disconnect::deserialize(buf, pos) {
                Ok((b, q)) => Ok((Packet::Disconnect(b), q)),
                Err(e) => Err(e),
            },
            PacketID::ResourcePacksInfo => match ResourcePacksInfo::deserialize(buf, pos) {
                Ok((b, q)) => Ok((Packet::ResourcePacksInfo(b), q)),
                Err(e) => Err(e),
            },
            PacketID::ResourcePackStack => match ResourcePackStack::deserialize(buf, pos) {
                Ok((b, q)) => Ok((Packet::ResourcePackStack(b), q)),
                Err(e) => Err(e),
            },
            PacketID::ResourcePackClientResponse => match ResourcePackClientResponse::deserialize(buf, pos) {
                Ok((b, q)) => Ok((Packet::ResourcePackClientResponse(b), q)),
                Err(e) => Err(e),
            },
            PacketID::Text => match Text::deserialize(buf, pos) {
                Ok((b, q)) => Ok((Packet::Text(b), q)),
                Err(e) => Err(e),
            },
            PacketID::SetTime => match SetTime::deserialize(buf, pos) {
                Ok((b, q)) => Ok((Packet::SetTime(b), q)),
                Err(e) => Err(e),
            },
            PacketID::StartGame => match StartGame::deserialize(buf, pos) {
                Ok((b, q)) => Ok((Packet::StartGame(b), q)),
                Err(e) => Err(e),
            },
            PacketID::AddPlayer => match AddPlayer::deserialize(buf, pos) {
                Ok((b, q)) => Ok((Packet::AddPlayer(b), q)),
                Err(e) => Err(e),
            },
            PacketID::TakeItemActor => match TakeItemActor::deserialize(buf, pos) {
                Ok((b, q)) => Ok((Packet::TakeItemActor(b), q)),
                Err(e) => Err(e),
            },
            PacketID::MoveActorAbsolute => match MoveActorAbsolute::deserialize(buf, pos) {
                Ok((b, q)) => Ok((Packet::MoveActorAbsolute(b), q)),
                Err(e) => Err(e),
            },
            PacketID::MovePlayer => match MovePlayer::deserialize(buf, pos) {
                Ok((b, q)) => Ok((Packet::MovePlayer(b), q)),
                Err(e) => Err(e),
            },
            PacketID::PassengerJump => match PassengerJump::deserialize(buf, pos) {
                Ok((b, q)) => Ok((Packet::PassengerJump(b), q)),
                Err(e) => Err(e),
            },
            PacketID::UpdateBlock => match UpdateBlock::deserialize(buf, pos) {
                Ok((b, q)) => Ok((Packet::UpdateBlock(b), q)),
                Err(e) => Err(e),
            },
            PacketID::AddPainting => match AddPainting::deserialize(buf, pos) {
                Ok((b, q)) => Ok((Packet::AddPainting(b), q)),
                Err(e) => Err(e),
            },
            PacketID::TickSync => match TickSync::deserialize(buf, pos) {
                Ok((b, q)) => Ok((Packet::TickSync(b), q)),
                Err(e) => Err(e),
            },
            PacketID::LevelEvent => match LevelEvent::deserialize(buf, pos) {
                Ok((b, q)) => Ok((Packet::LevelEvent(b), q)),
                Err(e) => Err(e),
            },
            PacketID::BlockEvent => match BlockEvent::deserialize(buf, pos) {
                Ok((b, q)) => Ok((Packet::BlockEvent(b), q)),
                Err(e) => Err(e),
            },
            PacketID::ActorEvent => match ActorEvent::deserialize(buf, pos) {
                Ok((b, q)) => Ok((Packet::ActorEvent(b), q)),
                Err(e) => Err(e),
            },
            PacketID::MobEffect => match MobEffect::deserialize(buf, pos) {
                Ok((b, q)) => Ok((Packet::MobEffect(b), q)),
                Err(e) => Err(e),
            },
            PacketID::UpdateAttributes => match UpdateAttributes::deserialize(buf, pos) {
                Ok((b, q)) => Ok((Packet::UpdateAttributes(b), q)),
                Err(e) => Err(e),
            },
            PacketID::RequestNetworkSettings => match RequestNetworkSettings::deserialize(buf, pos) {
                Ok((b, q)) => Ok((Packet::RequestNetworkSettings(b), q)),
                Err(e) => Err(e),
            },
            PacketID::NetworkSettings => match NetworkSettings::deserialize(buf, pos) {
                Ok((b, q)) => Ok((Packet::NetworkSettings(b), q)),
                Err(e) => Err(e),
            },
        }
    }

    /// Decodes a packet from the start of `buf`, returning it with the
    /// number of bytes it took.
    pub fn decode(buf: &[u8]) -> (r: Result<(Self, usize), Error>)
        ensures
            agrees_view(r, Self::parse(buf@, 0), buf@.len()),
    {
        Self::deserialize(buf, 0)
    }

    /// Decoding the bytes of a well-formed packet of any kind gives back that
    /// packet, of the same kind, and consumes exactly its bytes.
    #[verifier::rlimit(50)]
    pub proof fn lemma_round_trip(self, s: Seq<u8>, pos: nat)
        requires
            self.wf(),
            holds_at(s, pos, self.spec_bytes()),
        ensures
            Self::parse(s, pos) == Ok::<(PacketView, nat), Error>((self@, pos + self.spec_bytes().len())),
    {
        let k = self.spec_kind();
        let h = PacketHeader::spec_new(k.spec_wire_id());
        lemma_ids_fit_header(k);
        lemma_holds_at_concat(s, pos, header_bytes(h), self.body_bytes());
        lemma_header_round_trip(h, s, pos);
        lemma_registry_bijection(k, k);
        self.lemma_body_round_trip(s, pos + header_bytes(h).len());
    }

    /// A packet's value is of the packet's kind.
    pub proof fn lemma_view_kind(self)
        ensures
            Self::view_kind(self@) == self.spec_kind(),
    {
    }

    /// The body decoder of the packet's kind reads back its body.
    #[verifier::rlimit(50)]
    pub proof fn lemma_body_round_trip(self, s: Seq<u8>, p: nat)
        requires
            self.wf(),
            holds_at(s, p, self.body_bytes()),
        ensures
            Self::parse_body(self.spec_kind(), s, p) == Ok::<(PacketView, nat), Error>(
                (self@, p + self.body_bytes().len()),
            ),
    {
        reveal(Packet::parse_body);
        match self {
            Packet::Login(b) => b.lemma_round_trip(s, p),
            Packet::PlayStatus(b) => b.lemma_round_trip(s, p),
            Packet::S2CHandshake(b) => b.lemma_round_trip(s, p),
            Packet::C2SHandshake(b) => b.lemma_round_trip(s, p),
            Packet::Disconnect(b) => b.lemma_round_trip(s, p),
            Packet::ResourcePacksInfo(b) => b.lemma_round_trip(s, p),
            Packet::ResourcePackStack(b) => b.lemma_round_trip(s, p),
            Packet::ResourcePackClientResponse(b) => b.lemma_round_trip(s, p),
            Packet::Text(b) => b.lemma_round_trip(s, p),
            Packet::SetTime(b) => b.lemma_round_trip(s, p),
            Packet::StartGame(_) => {},
            Packet::AddPlayer(_) => {},
            Packet::TakeItemActor(b) => b.lemma_round_trip(s, p),
            Packet::MoveActorAbsolute(b) => b.lemma_round_trip(s, p),
            Packet::MovePlayer(b) => b.lemma_round_trip(s, p),
            Packet::PassengerJump(b) => b.lemma_round_trip(s, p),
            Packet::UpdateBlock(b) => b.lemma_round_trip(s, p),
            Packet::AddPainting(b) => b.lemma_round_trip(s, p),
            Packet::TickSync(b) => b.lemma_round_trip(s, p),
            Packet::LevelEvent(b) => b.lemma_round_trip(s, p),
            Packet::BlockEvent(b) => b.lemma_round_trip(s, p),
            Packet::ActorEvent(b) => b.lemma_round_trip(s, p),
            Packet::MobEffect(b) => b.lemma_round_trip(s, p),
            Packet::UpdateAttributes(b) => b.lemma_round_trip(s, p),
            Packet::RequestNetworkSettings(b) => b.lemma_round_trip(s, p),
            Packet::NetworkSettings(b) => b.lemma_round_trip(s, p),
        }
    }

    /// Bytes whose header names an ID that no kind is registered under decode
    /// to `UnknownPacketId`, with that ID and the header's offset.
    pub proof fn lemma_unknown_id(s: Seq<u8>, pos: nat)
        requires
            parse_header(s, pos) matches Ok((h, _)) && forall|k: PacketID| k.spec_wire_id() != h.id,
        ensures
            Self::parse(s, pos) == Err::<(PacketView, nat), Error>(
                Error::UnknownPacketId { id: parse_header(s, pos)->Ok_0.0.id, offset: pos as usize },
            ),
    {
        let id = parse_header(s, pos)->Ok_0.0.id;
        if let Some(k) = PacketID::spec_from_wire_id(id) {
            lemma_registered_id(id);
            assert(k.spec_wire_id() == id);
        }
    }
}

} // verus!
