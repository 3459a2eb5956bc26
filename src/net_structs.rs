use vstd::prelude::*;

verus! {

/// Most players in one session.
pub const NET_MAXPLAYERS: usize = 8;

/// Longest player name, terminator included.
pub const MAXPLAYERNAME: usize = 30;

/// Depth of the send queue and of the receive window.
pub const BACKUPTICS: usize = 128;

/// Flag in a packet's type code that marks a reliable frame.
pub const NET_RELIABLE_PACKET: u16 = 0x8000;

pub const NET_TICDIFF_FORWARD: u32 = 1;
pub const NET_TICDIFF_SIDE: u32 = 2;
pub const NET_TICDIFF_TURN: u32 = 4;
pub const NET_TICDIFF_BUTTONS: u32 = 8;
pub const NET_TICDIFF_CONSISTANCY: u32 = 16;
pub const NET_TICDIFF_CHATCHAR: u32 = 32;
pub const NET_TICDIFF_RAVEN: u32 = 64;
pub const NET_TICDIFF_STRIFE: u32 = 128;

/// One player's input for one tic.
#[derive(Debug, Clone, Copy, PartialEq, Eq, Structural)]
pub struct TicCmd {
    pub forwardmove: i8,
    pub sidemove: i8,
    pub angleturn: i16,
    pub chatchar: u8,
    pub buttons: u8,
    pub consistancy: u8,
    pub buttons2: u8,
    pub inventory: i32,
    pub lookfly: u8,
    pub arti: u8,
}

/// The input with every field zero.
pub open spec fn zero_ticcmd() -> TicCmd {
    TicCmd {
        forwardmove: 0,
        sidemove: 0,
        angleturn: 0,
        chatchar: 0,
        buttons: 0,
        consistancy: 0,
        buttons2: 0,
        inventory: 0,
        lookfly: 0,
        arti: 0,
    }
}

impl Default for TicCmd {
    fn default() -> (r: TicCmd)
        ensures
            r == zero_ticcmd(),
    {
        TicCmd {
            forwardmove: 0,
            sidemove: 0,
            angleturn: 0,
            chatchar: 0,
            buttons: 0,
            consistancy: 0,
            buttons2: 0,
            inventory: 0,
            lookfly: 0,
            arti: 0,
        }
    }
}

/// A tic command together with the mask of fields that differ from the
/// previous tic of the same player.
#[derive(Debug, Clone, Copy, PartialEq, Eq)]
pub struct TicDiff {
    pub diff: u32,
    pub cmd: TicCmd,
}

pub open spec fn zero_ticdiff() -> TicDiff {
    TicDiff { diff: 0, cmd: zero_ticcmd() }
}

impl Default for TicDiff {
    fn default() -> (r: TicDiff)
        ensures
            r == zero_ticdiff(),
    {
        TicDiff { diff: 0, cmd: TicCmd::default() }
    }
}

/// One tic's inputs for all players.
#[derive(Debug, Clone, Copy, PartialEq, Eq)]
pub struct FullTicCmd {
    pub latency: i32,
    pub seq: u32,
    pub playeringame: [bool; NET_MAXPLAYERS],
    pub cmds: [TicDiff; NET_MAXPLAYERS],
}

pub open spec fn zero_full_ticcmd() -> FullTicCmd {
    FullTicCmd {
        latency: 0,
        seq: 0,
        playeringame: [false; NET_MAXPLAYERS],
        cmds: [zero_ticdiff(); NET_MAXPLAYERS],
    }
}

/// What the client tells the server about itself when it connects.
#[derive(Debug, Clone, Copy, PartialEq, Eq)]
pub struct ConnectData {
    pub gamemode: i32,
    pub gamemission: i32,
    pub lowres_turn: i32,
    pub drone: i32,
    pub max_players: i32,
    pub is_freedoom: i32,
    pub wad_sha1sum: [u8; 20],
    pub deh_sha1sum: [u8; 20],
    pub player_class: i32,
}

/// Session parameters the server sends when the game starts.
#[derive(Debug, Clone, Copy, PartialEq, Eq)]
pub struct GameSettings {
    pub ticdup: i32,
    pub extratics: i32,
    pub deathmatch: i32,
    pub episode: i32,
    pub nomonsters: i32,
    pub fast_monsters: i32,
    pub respawn_monsters: i32,
    pub map: i32,
    pub skill: i32,
    pub gameversion: i32,
    pub lowres_turn: i32,
    pub new_sync: i32,
    pub timelimit: u32,
    pub loadgame: i32,
    pub random: i32,
    pub num_players: i32,
    pub consoleplayer: i32,
    pub player_classes: [i32; NET_MAXPLAYERS],
}

/// Lobby snapshot the server sends while players gather.
#[derive(Debug, Clone, PartialEq, Eq)]
pub struct WaitData {
    pub num_players: i32,
    pub num_drones: i32,
    pub ready_players: i32,
    pub max_players: i32,
    pub is_controller: i32,
    pub consoleplayer: i32,
    pub player_names: Vec<String>,
    pub player_addrs: Vec<String>,
    pub wad_sha1sum: [u8; 20],
    pub deh_sha1sum: [u8; 20],
    pub is_freedoom: i32,
}

/// Protocol names a peer may offer.
#[derive(Debug, Clone, Copy, PartialEq, Eq, Structural)]
pub enum Protocol {
    ChocolateDoom0,
    Unknown,
}

/// Packet type codes.
#[derive(Debug, Clone, Copy, PartialEq, Eq, Structural)]
pub enum PacketType {
    Syn,
    Ack,
    Rejected,
    KeepAlive,
    WaitingData,
    GameStart,
    GameData,
    GameDataAck,
    Disconnect,
    DisconnectAck,
    ReliableAck,
    GameDataResend,
    ConsoleMessage,
    Query,
    QueryResponse,
    Launch,
    NatHolePunch,
}

/// The wire code of each packet type.
pub open spec fn packet_code(t: PacketType) -> u16 {
    match t {
        PacketType::Syn => 0,
        PacketType::Ack => 1,
        PacketType::Rejected => 2,
        PacketType::KeepAlive => 3,
        PacketType::WaitingData => 4,
        PacketType::GameStart => 5,
        PacketType::GameData => 6,
        PacketType::GameDataAck => 7,
        PacketType::Disconnect => 8,
        PacketType::DisconnectAck => 9,
        PacketType::ReliableAck => 10,
        PacketType::GameDataResend => 11,
        PacketType::ConsoleMessage => 12,
        PacketType::Query => 13,
        PacketType::QueryResponse => 14,
        PacketType::Launch => 15,
        PacketType::NatHolePunch => 16,
    }
}

impl PacketType {
    /// The packet type whose code is `value`, if any.
    pub fn from_u16(value: u16) -> (r: Option<PacketType>)
        ensures
            r is Some <==> value <= 16,
            r matches Some(t) ==> packet_code(t) == value,
    {
        match value {
            0 => Some(PacketType::Syn),
            1 => Some(PacketType::Ack),
            2 => Some(PacketType::Rejected),
            3 => Some(PacketType::KeepAlive),
            4 => Some(PacketType::WaitingData),
            5 => Some(PacketType::GameStart),
            6 => Some(PacketType::GameData),
            7 => Some(PacketType::GameDataAck),
            8 => Some(PacketType::Disconnect),
            9 => Some(PacketType::DisconnectAck),
            10 => Some(PacketType::ReliableAck),
            11 => Some(PacketType::GameDataResend),
            12 => Some(PacketType::ConsoleMessage),
            13 => Some(PacketType::Query),
            14 => Some(PacketType::QueryResponse),
            15 => Some(PacketType::Launch),
            16 => Some(PacketType::NatHolePunch),
            _ => None,
        }
    }

    /// The wire code of this packet type.
    pub fn to_u16(self) -> (r: u16)
        ensures
            r == packet_code(self),
    {
        match self {
            PacketType::Syn => 0,
            PacketType::Ack => 1,
            PacketType::Rejected => 2,
            PacketType::KeepAlive => 3,
            PacketType::WaitingData => 4,
            PacketType::GameStart => 5,
            PacketType::GameData => 6,
            PacketType::GameDataAck => 7,
            PacketType::Disconnect => 8,
            PacketType::DisconnectAck => 9,
            PacketType::ReliableAck => 10,
            PacketType::GameDataResend => 11,
            PacketType::ConsoleMessage => 12,
            PacketType::Query => 13,
            PacketType::QueryResponse => 14,
            PacketType::Launch => 15,
            PacketType::NatHolePunch => 16,
        }
    }
}

#[derive(Debug, Clone, Copy, PartialEq, Eq)]
pub enum GameMode {
    Shareware,
    Registered,
    Commercial,
    Retail,
    Indetermined,
}

#[derive(Debug, Clone, Copy, PartialEq, Eq)]
pub enum GameMission {
    Doom,
    Doom2,
    PackTnt,
    PackPlut,
    PackChex,
    PackHacx,
    Heretic,
    Hexen,
    Strife,
    NoMission,
}

#[derive(Debug, Clone, Copy, PartialEq, Eq)]
pub enum GameVersion {
    Doom1_2,
    Doom1_666,
    Doom1_7,
    Doom1_8,
    Doom1_9,
    Hacx,
    Ultimate,
    Final,
    Final2,
    Chex,
    Heretic1_3,
    Hexen1_1,
    Strife1_2,
    Strife1_31,
}

#[derive(Debug, Clone, Copy, PartialEq, Eq)]
pub enum GameVariant {
    Vanilla,
    Freedoom,
    Freedm,
    BfgEdition,
}

#[derive(Debug, Clone, Copy, PartialEq, Eq)]
pub enum Skill {
    NoItems,
    Baby,
    Easy,
    Medium,
    Hard,
    Nightmare,
}

impl Skill {
    /// The number that stands for this skill in settings (`NoItems` is -1).
    pub fn value(self) -> (r: i32)
        ensures
            r == match self {
                Skill::NoItems => -1i32,
                Skill::Baby => 0i32,
                Skill::Easy => 1i32,
                Skill::Medium => 2i32,
                Skill::Hard => 3i32,
                Skill::Nightmare => 4i32,
            },
    {
        match self {
            Skill::NoItems => -1,
            Skill::Baby => 0,
            Skill::Easy => 1,
            Skill::Medium => 2,
            Skill::Hard => 3,
            Skill::Nightmare => 4,
        }
    }
}

} // verus!
