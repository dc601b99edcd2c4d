//! What a session sends to its client and tells the rest of the server.

use vstd::prelude::*;
use crate::viakraken::java::backend::state::{BlockUpdateEvent, ConsoleCommand, ItemEvent, OnlinePlayer, PlayerEvent};

verus! {

/// The packet that starts play.
#[derive(Clone, Copy, Debug, PartialEq, Eq, Structural)]
pub struct LoginPlay {
    pub entity_id: i32,
    pub hardcore: bool,
    pub max_players: i32,
    pub view_distance: i32,
    pub simulation_distance: i32,
    pub reduced_debug_info: bool,
    pub respawn_screen: bool,
    pub limited_crafting: bool,
    pub hashed_seed: i64,
    pub gamemode: u8,
    pub previous_gamemode: i8,
    pub debug: bool,
    pub flat: bool,
    pub portal_cooldown: i32,
    pub sea_level: i32,
    pub secure_chat: bool,
}

/// A node of the command tree. The root has no name.
#[derive(Debug)]
pub struct CommandNode {
    pub name: Option<&'static str>,
    pub children: Vec<i32>,
    pub executable: bool,
    pub restricted: bool,
}

/// What kind of entity appears.
#[derive(Clone, Copy, Debug, PartialEq, Eq, Structural)]
pub enum EntityKind {
    Player,
    Item,
    Numbered(u16),
}

#[derive(Clone, Copy, Debug, PartialEq, Eq, Structural)]
pub enum SoundKind {
    PlayerHurt,
    PlayerAttackStrong,
}

/// What stands in an inventory slot after a change.
#[derive(Clone, Copy, Debug, PartialEq, Eq, Structural)]
pub enum SlotContent {
    Empty,
    /// One item with this canonical number.
    Item(u16),
    /// The stack that the client named.
    Clicked,
}

/// A packet to the client. Numbers with a fraction are bit patterns.
#[derive(Debug)]
pub enum ClientPacket {
    Login(LoginPlay),
    EntityStatus { entity_id: i32, status: i8 },
    /// The command tree; operators find the commands in it.
    Commands { nodes: Vec<CommandNode> },
    /// A player appears on the list.
    AddPlayer { uuid: u128, name: String, gamemode: u8 },
    UpdateGamemode { uuid: u128, gamemode: u8 },
    RemovePlayer { uuid: u128 },
    /// An entity appears; without an identity it gets a random one.
    SpawnEntity {
        entity_id: i32,
        uuid: Option<u128>,
        kind: EntityKind,
        x: u64,
        y: u64,
        z: u64,
        pitch: u32,
        yaw: u32,
    },
    RemoveEntity { entity_id: i32 },
    TeleportEntity { entity_id: i32, x: u64, y: u64, z: u64, yaw: u32, pitch: u32 },
    HeadRotation { entity_id: i32, yaw: u8 },
    Velocity { entity_id: i32, x: u64, y: u64, z: u64 },
    ItemMetadata { entity_id: i32, item_id: u16, count: u8 },
    Health { health: u32, food: i32, saturation: u32 },
    /// The body of an inventory packet.
    Inventory { body: Vec<u8> },
    Slot { slot: i16, content: SlotContent },
    SelectedSlot { slot: i8 },
    Abilities { flags: i8, fly_speed: u32, walk_speed: u32 },
    SpawnPosition { x: i32, y: i32, z: i32 },
    Position { x: u64, y: u64, z: u64, yaw: u32, pitch: u32 },
    Respawn { gamemode: u8, seed: i64, sea_level: i32 },
    WaitForChunks,
    ChangeGamemode { gamemode: u8 },
    CenterChunk { x: i32, z: i32 },
    UnloadChunk { x: i32, z: i32 },
    BatchStart,
    Chunk { x: i32, z: i32 },
    BatchEnd { count: u16 },
    Brand,
    Sound { sound: SoundKind, x: u64, y: u64, z: u64 },
    Chat { text: String },
    BlockUpdate { x: i32, y: i32, z: i32, state_id: u16 },
    AcknowledgeBlock { sequence: i32 },
    KeepAlive { id: i64 },
}

/// What a session does.
#[derive(Debug)]
pub enum Effect {
    /// Send a packet; the session fails with it.
    Send(ClientPacket),
    /// Send a packet if possible.
    TrySend(ClientPacket),
    TellPlayers(PlayerEvent),
    TellItems(ItemEvent),
    TellBlocks(BlockUpdateEvent),
    TellConsole(ConsoleCommand),
    /// Enter a summoned entity among those in the world.
    RegisterSummoned { entity_id: i32, entity_type: u16, x: u64, y: u64, z: u64 },
    TellChat(String),
    /// Store the new state of a block.
    SaveBlock { x: i32, y: i32, z: i32, state_id: u16 },
    /// Enter the player among those who are online.
    JoinOnline(OnlinePlayer),
    MoveOnline { uuid: u128, x: u64, y: u64, z: u64, yaw: u32, pitch: u32 },
    GamemodeOnline { uuid: u128, gamemode: u8 },
    LeaveOnline { uuid: u128 },
    /// Store the player and then flush the database; with `always_flush` even
    /// where the player could not be stored.
    SavePlayer { always_flush: bool },
}

/// 0.1
pub const WALK_SPEED: u32 = 0x3dcc_cccd;

} // verus!
