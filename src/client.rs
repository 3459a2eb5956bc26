use vstd::prelude::*;
use vstd::utf8::encode_utf8;
use vstd::seq_lib::lemma_concat_associative;
use crate::net_structs::{TicCmd, TicDiff, FullTicCmd, ConnectData, GameSettings, WaitData, Protocol, PacketType,
    packet_code, zero_ticcmd, zero_full_ticcmd, BACKUPTICS, NET_MAXPLAYERS, NET_RELIABLE_PACKET};
use crate::packet::{Packet, dec_wait_data, wait_data_is, enc_ticdiff, enc_connect_data, dec_tics, lemma_dec_tics_len, full_ticcmd_is, le16, le32, cstring, protocol_name, dec_cstr, safe_chars, utf8_lossy, has_bytes,
    settings_decode, settings_is, settings_at, lemma_settings_unique};
use crate::ticdiff::{calculate_ticcmd_diff, apply_ticcmd_diff, diff_of, undiff};

verus! {

/// Milliseconds without outbound traffic after which a keepalive goes out.
pub const KEEPALIVE_PERIOD_MS: u64 = 1000;

/// Milliseconds a connection attempt may take in all.
pub const CONNECT_TIMEOUT_MS: u64 = 30000;

/// Syn attempts before the client gives up.
pub const MAX_RETRIES: u32 = 10;

/// Service cycles the client waits for a reply to one Syn.
pub const SERVICE_CYCLES_PER_ATTEMPT: u32 = 10;

/// Milliseconds a graceful disconnect waits for its acknowledgement.
pub const DISCONNECT_TIMEOUT_MS: u64 = 5000;

/// Milliseconds after which a missing tic is asked for again.
pub const RESEND_TIMEOUT_MS: u64 = 300;

/// Milliseconds after game data arrives within which its acknowledgement
/// goes out.
pub const ACK_DELAY_MS: u64 = 200;

/// Challenge number sent in a Syn.
pub const NET_MAGIC_NUMBER: u32 = 1454104972;

/// How many Disconnect packets a graceful disconnect sends.
pub const DISCONNECT_REPEATS: usize = 5;

/// Where a session stands.
#[derive(Debug, Clone, Copy, PartialEq, Eq, Structural)]
pub enum ClientState {
    Disconnected,
    Connecting,
    Connected,
    WaitingLaunch,
    WaitingStart,
    InGame,
    Disconnecting,
}

/// Milliseconds from `then` to `now`; zero when the clock went back.
pub open spec fn elapsed(now: u64, then: u64) -> u64 {
    if now >= then { (now - then) as u64 } else { 0 }
}

fn elapsed_ms(now: u64, then: u64) -> (r: u64)
    ensures
        r == elapsed(now, then),
{
    if now >= then { now - then } else { 0 }
}

/// One slot of the receive window.
#[derive(Debug, Clone, Copy)]
pub struct ServerRecv {
    pub active: bool,
    pub resend_time: u64,
    pub cmd: FullTicCmd,
}

impl ServerRecv {
    /// An empty slot, stamped with `now`.
    pub fn empty(now: u64) -> (r: ServerRecv)
        ensures
            !r.active,
            r.resend_time == now,
            r.cmd == zero_full_ticcmd(),
    {
        ServerRecv {
            active: false,
            resend_time: now,
            cmd: FullTicCmd {
                latency: 0,
                seq: 0,
                playeringame: [false; NET_MAXPLAYERS],
                cmds: [TicDiff::default(); NET_MAXPLAYERS],
            },
        }
    }
}

/// One slot of the send queue.
#[derive(Debug, Clone, Copy)]
pub struct ServerSend {
    pub active: bool,
    pub seq: u32,
    pub time: u64,
    pub cmd: TicDiff,
}

impl ServerSend {
    /// An empty slot, stamped with `now`.
    pub fn empty(now: u64) -> (r: ServerSend)
        ensures
            !r.active,
            r.seq == 0,
            r.time == now,
    {
        ServerSend { active: false, seq: 0, time: now, cmd: TicDiff::default() }
    }
}

/// A completed tic handed to the simulation: each player's command and
/// whether the player is in game.
#[derive(Debug, Clone, Copy, PartialEq, Eq)]
pub struct TicSet {
    pub cmds: [TicCmd; NET_MAXPLAYERS],
    pub ingame: [bool; NET_MAXPLAYERS],
}

// ---------------------------------------------------------------------
// Clock synchronization
// ---------------------------------------------------------------------

/// Largest magnitude the accumulated error is kept within.
pub const PID_CUMUL_LIMIT: i64 = 0x1_0000_0000;

/// The controller's output for error `e`, accumulated error `cumul` (this
/// error included) and previous error `last`, with Kp = 0.1, Ki = 0.01 and
/// Kd = 0.02, truncated toward zero.
pub open spec fn pid_output(e: int, cumul: int, last: int) -> int {
    let scaled = 10 * e - cumul + 2 * (e - last);
    if scaled >= 0 { scaled / 100 } else { -((-scaled) / 100) }
}

/// The accumulated error after adding `e`, kept within the limit.
pub open spec fn pid_cumul(cumul: int, e: int) -> int {
    if cumul + e > PID_CUMUL_LIMIT {
        PID_CUMUL_LIMIT as int
    } else if cumul + e < -PID_CUMUL_LIMIT {
        -PID_CUMUL_LIMIT
    } else {
        cumul + e
    }
}

/// The PID controller that turns latency error into a clock offset.
#[derive(Debug, Clone, Copy)]
pub struct PidController {
    pub cumul_error: i64,
    pub last_error: i32,
}

impl PidController {
    pub open spec fn wf(&self) -> bool {
        -PID_CUMUL_LIMIT <= self.cumul_error <= PID_CUMUL_LIMIT
    }

    pub fn new() -> (r: PidController)
        ensures
            r.wf(),
            r.cumul_error == 0,
            r.last_error == 0,
    {
        PidController { cumul_error: 0, last_error: 0 }
    }

    /// Feeds one error and returns the offset in milliseconds.
    pub fn update(&mut self, error: i32) -> (r: i64)
        requires
            old(self).wf(),
        ensures
            final(self).wf(),
            final(self).cumul_error == pid_cumul(old(self).cumul_error as int, error as int),
            final(self).last_error == error,
            r == pid_output(error as int, final(self).cumul_error as int, old(self).last_error as int),
    {
        let mut cumul = self.cumul_error + error as i64;
        if cumul > PID_CUMUL_LIMIT {
            cumul = PID_CUMUL_LIMIT;
        } else if cumul < -PID_CUMUL_LIMIT {
            cumul = -PID_CUMUL_LIMIT;
        }
        self.cumul_error = cumul;
        let e = error as i64;
        let scaled = 10 * e - cumul + 2 * (e - self.last_error as i64);
        self.last_error = error;
        if scaled >= 0 { scaled / 100 } else { -((-scaled) / 100) }
    }
}

/// Under a constant error, once the derivative term has settled, the offset
/// is bounded by the proportional and integral terms.
pub proof fn lemma_pid_bound(e: int, cumul: int)
    ensures
        pid_output(e, cumul, e) <= (10 * (if e >= 0 { e } else { -e }) + (if cumul >= 0 { cumul } else { -cumul })) / 100,
        -pid_output(e, cumul, e) <= (10 * (if e >= 0 { e } else { -e }) + (if cumul >= 0 { cumul } else { -cumul })) / 100,
{
    let a: int = 10 * (if e >= 0 { e } else { -e }) + (if cumul >= 0 { cumul } else { -cumul });
    let s: int = 10 * e - cumul;
    assert(s <= a && -s <= a);
    if s >= 0 {
        assert(s / 100 <= a / 100) by (nonlinear_arith) requires 0 <= s <= a;
    } else {
        assert((-s) / 100 <= a / 100) by (nonlinear_arith) requires 0 <= -s <= a;
    }
}

// ---------------------------------------------------------------------
// Sequence numbers
// ---------------------------------------------------------------------

/// The full tic number that the low byte `b` stands for, given the window
/// start `w`: the number with that low byte nearest to `w`.
pub open spec fn expand_tic(w: int, b: int) -> int {
    let l = w % 256;
    let h = w - l;
    if l < 0x40 && b > 0xb0 {
        h + b - 0x100
    } else if l > 0xb0 && b < 0x40 {
        h + b + 0x100
    } else {
        h + b
    }
}

/// Expands the low byte of a tic number against the window start. The
/// result has that low byte and lies within 192 of the window start.
pub fn expand_tic_num(window_start: u32, b: u8) -> (r: i64)
    ensures
        r == expand_tic(window_start as int, b as int),
        r % 256 == b as int,
        -192 <= r - window_start <= 192,
{
    let w = window_start as i64;
    let l = w % 256;
    let h = w - l;
    let b = b as i64;
    let r = if l < 0x40 && b > 0xb0 {
        h + b - 0x100
    } else if l > 0xb0 && b < 0x40 {
        h + b + 0x100
    } else {
        h + b
    };
    assert(r % 256 == b) by (nonlinear_arith)
        requires
            h == w - w % 256,
            w >= 0,
            0 <= b < 256,
            r == h + b - 0x100 || r == h + b + 0x100 || r == h + b;
    r
}

// ---------------------------------------------------------------------
// Packets the client sends
// ---------------------------------------------------------------------

/// A packet that is only its type code.
pub open spec fn bare_packet(t: PacketType) -> Seq<u8> {
    le16(packet_code(t))
}

/// A receive window moved `n` slots toward the front, with the slots freed
/// at the back empty and stamped `now`.
pub open spec fn shifted_window(win: Seq<ServerRecv>, n: int, now: u64) -> Seq<ServerRecv> {
    Seq::new(BACKUPTICS as nat, |j: int| if j < BACKUPTICS - n {
        win[j + n]
    } else {
        ServerRecv { active: false, resend_time: now, cmd: zero_full_ticcmd() }
    })
}

/// The per-player baselines after the first `n` slots of a window have been
/// delivered, each rebuilt from the baselines before it.
pub open spec fn base_after(win: Seq<ServerRecv>, base: Seq<TicCmd>, skip: int, n: nat) -> Seq<TicCmd>
    decreases n,
{
    if n == 0 {
        base
    } else {
        expand_spec(win[n - 1].cmd, base_after(win, base, skip, (n - 1) as nat), skip)
    }
}

/// `set` is what slot `j` of a window delivers: its commands rebuilt from
/// the baselines left by the slots before it, and its in-game flags.
pub open spec fn delivered_as(set: TicSet, win: Seq<ServerRecv>, base: Seq<TicCmd>, skip: int, j: int) -> bool {
    set.cmds@ == base_after(win, base, skip, (j + 1) as nat) && set.ingame == win[j].cmd.playeringame
}

/// The acknowledgement of a Syn or of a game start: Ack and our protocol.
pub open spec fn ack_packet() -> Seq<u8> {
    le16(packet_code(PacketType::Ack)) + cstring(protocol_name())
}

/// The acknowledgement of game data up to window start `w`.
pub open spec fn game_data_ack_packet(w: u32) -> Seq<u8> {
    le16(packet_code(PacketType::GameDataAck)) + seq![(w % 256) as u8]
}

/// A request that the server send tics `start..=end` again.
pub open spec fn resend_request_packet(start: u32, end: u32) -> Seq<u8> {
    le16(packet_code(PacketType::GameDataResend)) + le32(start) + seq![((end - start + 1) % 256) as u8]
}

/// A latency as the 16 bits the wire gives it, saturated.
pub open spec fn clamp16(l: i32) -> i16 {
    if l > 0x7fff { 0x7fffi16 } else if l < -0x8000 { -0x8000i16 } else { l as i16 }
}

/// The tics `start..start + count` of the send queue, each as the latency
/// and its diff.
pub open spec fn tics_bytes(queue: Seq<ServerSend>, start: int, count: nat, latency: i16, lowres: bool) -> Seq<u8>
    decreases count,
{
    if count == 0 {
        Seq::empty()
    } else {
        tics_bytes(queue, start, (count - 1) as nat, latency, lowres) + (le16(latency as u16) + enc_ticdiff(
            queue[(start + count - 1) % BACKUPTICS as int].cmd, lowres))
    }
}

/// A game-data packet carrying tics `start..=end` of the send queue: the
/// type, the low bytes of the window start and of `start`, the count, then
/// each tic.
pub open spec fn game_data_packet(w: u32, start: u32, end: u32, queue: Seq<ServerSend>, latency: i16,
    lowres: bool) -> Seq<u8> {
    le16(packet_code(PacketType::GameData)) + seq![(w % 256) as u8, (start % 256) as u8,
        (((end - start) + 1) % 256) as u8] + tics_bytes(queue, start as int, (end - start + 1) as nat, latency, lowres)
}

/// The number of earlier tics a fresh send carries again.
pub open spec fn extratics_of(s: Option<GameSettings>) -> int {
    match s {
        Some(g) => g.extratics as int,
        None => 0,
    }
}

/// The first tic a fresh send of tic `maketic` carries.
pub open spec fn send_start(maketic: u32, extratics: int) -> u32 {
    if extratics <= 0 || maketic < extratics { 0 } else { (maketic - extratics) as u32 }
}

/// What a completed tic delivers: each player's command rebuilt from the
/// baselines (the local player's own command is not rebuilt unless the
/// client is a drone), and the in-game flags.
pub open spec fn expand_spec(cmd: FullTicCmd, base: Seq<TicCmd>, skip: int) -> Seq<TicCmd> {
    Seq::new(NET_MAXPLAYERS as nat, |i: int|
        if i != skip && cmd.playeringame[i] { undiff(base[i], cmd.cmds[i]) } else { base[i] })
}

/// The session core: connection state, the two tic windows, and the
/// packets waiting to be sent.
pub struct Client {
    state: ClientState,
    settings: Option<GameSettings>,
    reject_reason: Option<String>,
    player_name: String,
    drone: bool,
    connect_drone: bool,
    recv_window_start: u32,
    recv_window: Vec<ServerRecv>,
    send_queue: Vec<ServerSend>,
    need_acknowledge: bool,
    gamedata_recv_time: u64,
    last_latency: i32,
    waiting_for_launch: bool,
    connected: bool,
    received_wait_data: bool,
    wait_data: Option<WaitData>,
    last_send_time: u64,
    last_ticcmd: TicCmd,
    recvwindow_cmd_base: [TicCmd; NET_MAXPLAYERS],
    start_time: u64,
    num_retries: u32,
    cycles_this_attempt: u32,
    protocol: Protocol,
    lowres_turn: i32,
    max_players: i32,
    is_freedoom: i32,
    player_class: i32,
    reliable_send_seq: u8,
    pid: PidController,
    offset_ms: i64,
    connect_data: ConnectData,
    messages: Vec<String>,
    outbox: Vec<Vec<u8>>,
    delivered: Vec<TicSet>,
}

impl Client {
    /// The invariant of a client: both windows hold `BACKUPTICS` slots and
    /// the controller is within bounds.
    pub closed spec fn wf(&self) -> bool {
        &&& self.recv_window@.len() == BACKUPTICS
        &&& self.send_queue@.len() == BACKUPTICS
        &&& self.pid.wf()
    }

    pub closed spec fn state_spec(&self) -> ClientState {
        self.state
    }

    pub closed spec fn window_start(&self) -> u32 {
        self.recv_window_start
    }

    pub closed spec fn name_spec(&self) -> Seq<char> {
        self.player_name@
    }

    pub closed spec fn drone_spec(&self) -> bool {
        self.drone
    }

    pub closed spec fn connected_spec(&self) -> bool {
        self.connected
    }

    pub closed spec fn reason_spec(&self) -> Option<Seq<char>> {
        match self.reject_reason {
            Some(s) => Some(s@),
            None => None,
        }
    }

    pub closed spec fn settings_spec(&self) -> Option<GameSettings> {
        self.settings
    }

    /// The packets queued for sending, oldest first.
    pub closed spec fn outbox_spec(&self) -> Seq<Seq<u8>> {
        self.outbox@.map_values(|p: Vec<u8>| p@)
    }

    /// The console messages from the server not yet taken, oldest first.
    pub closed spec fn messages_spec(&self) -> Seq<Seq<char>> {
        self.messages@.map_values(|m: String| m@)
    }

    /// The tics delivered to the simulation and not yet taken, oldest first.
    pub closed spec fn delivered_spec(&self) -> Seq<TicSet> {
        self.delivered@
    }

    /// When the current connection attempt or disconnect began.
    pub closed spec fn start_spec(&self) -> u64 {
        self.start_time
    }

    /// The clock offset the controller last computed.
    pub closed spec fn offset_spec(&self) -> i64 {
        self.offset_ms
    }

    /// Slot `i` of the send queue.
    pub closed spec fn send_slot(&self, i: int) -> ServerSend {
        self.send_queue@[i]
    }

    /// The last local input sent, which the next one is diffed against.
    pub closed spec fn last_sent(&self) -> TicCmd {
        self.last_ticcmd
    }

    /// The sequence number the next reliable frame carries.
    pub closed spec fn reliable_seq(&self) -> u8 {
        self.reliable_send_seq
    }

    /// The tic held in slot `i` of the receive window.
    pub closed spec fn slot_cmd(&self, i: int) -> FullTicCmd {
        self.recv_window@[i].cmd
    }

    /// The lobby data last accepted.
    pub closed spec fn wait_data_spec(&self) -> Option<WaitData> {
        self.wait_data
    }

    /// The send queue's slots.
    pub closed spec fn send_queue_spec(&self) -> Seq<ServerSend> {
        self.send_queue@
    }

    /// The latency last measured, in milliseconds.
    pub closed spec fn latency_spec(&self) -> i32 {
        self.last_latency
    }

    /// Whether received game data still waits for its acknowledgement.
    pub closed spec fn need_ack_spec(&self) -> bool {
        self.need_acknowledge
    }

    /// When game data last came.
    pub closed spec fn recv_time_spec(&self) -> u64 {
        self.gamedata_recv_time
    }

    /// When a packet last went out.
    pub closed spec fn last_send_spec(&self) -> u64 {
        self.last_send_time
    }

    /// How many Syns the current connection attempt has sent.
    pub closed spec fn syns_sent(&self) -> u32 {
        self.num_retries
    }

    /// Service cycles the current Syn has waited for an answer.
    pub closed spec fn cycles_spec(&self) -> u32 {
        self.cycles_this_attempt
    }

    /// Whether the client will be a drone once connected.
    pub closed spec fn pending_drone(&self) -> bool {
        self.connect_drone
    }

    /// The connect data of the current attempt.
    pub closed spec fn connect_data_spec(&self) -> ConnectData {
        self.connect_data
    }

    /// The receive window's slots.
    pub closed spec fn window_spec(&self) -> Seq<ServerRecv> {
        self.recv_window@
    }

    /// Whether slot `i` of the receive window holds a tic.
    pub closed spec fn slot_active(&self, i: int) -> bool {
        self.recv_window@[i].active
    }

    /// A client that is not connected, named `player_name`.
    pub fn new(player_name: String, drone: bool) -> (r: Client)
        ensures
            r.wf(),
            r.state_spec() == ClientState::Disconnected,
            r.name_spec() == player_name@,
            r.drone_spec() == drone,
            !r.connected_spec(),
            r.reason_spec() is None,
            r.settings_spec() is None,
            r.window_start() == 0,
            r.outbox_spec() == Seq::<Seq<u8>>::empty(),
            r.delivered_spec() == Seq::<TicSet>::empty(),
    {
        let mut recv_window: Vec<ServerRecv> = Vec::new();
        let mut send_queue: Vec<ServerSend> = Vec::new();
        let mut i: usize = 0;
        while i < BACKUPTICS
            invariant
                i <= BACKUPTICS,
                recv_window@.len() == i,
                send_queue@.len() == i,
            decreases BACKUPTICS - i,
        {
            recv_window.push(ServerRecv::empty(0));
            send_queue.push(ServerSend::empty(0));
            i = i + 1;
        }
        let r = Client {
            state: ClientState::Disconnected,
            settings: None,
            reject_reason: None,
            player_name,
            drone,
            connect_drone: drone,
            recv_window_start: 0,
            recv_window,
            send_queue,
            need_acknowledge: false,
            gamedata_recv_time: 0,
            last_latency: 0,
            waiting_for_launch: false,
            connected: false,
            received_wait_data: false,
            wait_data: None,
            last_send_time: 0,
            last_ticcmd: TicCmd::default(),
            recvwindow_cmd_base: [TicCmd::default(); NET_MAXPLAYERS],
            start_time: 0,
            num_retries: 0,
            cycles_this_attempt: 0,
            protocol: Protocol::ChocolateDoom0,
            lowres_turn: 0,
            max_players: 0,
            is_freedoom: 0,
            player_class: 0,
            reliable_send_seq: 0,
            pid: PidController::new(),
            offset_ms: 0,
            connect_data: ConnectData {
                gamemode: 0,
                gamemission: 0,
                lowres_turn: 0,
                drone: 0,
                max_players: 0,
                is_freedoom: 0,
                wad_sha1sum: [0; 20],
                deh_sha1sum: [0; 20],
                player_class: 0,
            },
            messages: Vec::new(),
            outbox: Vec::new(),
            delivered: Vec::new(),
        };
        assert(r.outbox_spec() =~= Seq::<Seq<u8>>::empty());
        r
    }

    pub fn state(&self) -> (r: ClientState)
        ensures
            r == self.state_spec(),
    {
        self.state
    }

    pub fn player_name(&self) -> (r: &str)
        ensures
            r@ == self.name_spec(),
    {
        self.player_name.as_str()
    }

    pub fn is_drone(&self) -> (r: bool)
        ensures
            r == self.drone_spec(),
    {
        self.drone
    }

    pub fn is_connected(&self) -> (r: bool)
        ensures
            r == self.connected_spec(),
    {
        self.connected
    }

    /// Why the last connection attempt failed, if it did.
    pub fn get_reject_reason(&self) -> (r: Option<&str>)
        ensures
            match self.reason_spec() {
                Some(s) => r matches Some(t) && t@ == s,
                None => r is None,
            },
    {
        match &self.reject_reason {
            Some(s) => Some(s.as_str()),
            None => None,
        }
    }

    /// The settings of the game in progress; none before the game starts.
    pub fn get_settings(&self) -> (r: Option<GameSettings>)
        ensures
            r == if self.state_spec() == ClientState::InGame { self.settings_spec() } else { None },
    {
        if self.state != ClientState::InGame {
            return None;
        }
        self.settings
    }

    /// The start of the receive window: the next tic to be delivered.
    pub fn recv_window_start(&self) -> (r: u32)
        ensures
            r == self.window_start(),
    {
        self.recv_window_start
    }

    /// The clock offset the controller last computed, in milliseconds.
    pub fn clock_offset_ms(&self) -> (r: i64)
        ensures
            r == self.offset_spec(),
    {
        self.offset_ms
    }

    /// Takes the packets queued for sending, oldest first.
    pub fn take_outgoing(&mut self) -> (r: Vec<Vec<u8>>)
        requires
            old(self).wf(),
        ensures
            final(self).wf(),
            r@.map_values(|p: Vec<u8>| p@) == old(self).outbox_spec(),
            final(self).outbox_spec() == Seq::<Seq<u8>>::empty(),
            final(self).state_spec() == old(self).state_spec(),
            final(self).delivered_spec() == old(self).delivered_spec(),
            final(self).window_start() == old(self).window_start(),
    {
        let mut r: Vec<Vec<u8>> = Vec::new();
        r.append(&mut self.outbox);
        assert(self.outbox_spec() =~= Seq::<Seq<u8>>::empty());
        assert(r@ =~= old(self).outbox@);
        r
    }

    /// Takes the tics delivered to the simulation, oldest first.
    pub fn take_delivered(&mut self) -> (r: Vec<TicSet>)
        requires
            old(self).wf(),
        ensures
            final(self).wf(),
            r@ == old(self).delivered_spec(),
            final(self).delivered_spec() == Seq::<TicSet>::empty(),
            final(self).state_spec() == old(self).state_spec(),
            final(self).outbox_spec() == old(self).outbox_spec(),
            final(self).window_start() == old(self).window_start(),
            final(self).connected_spec() == old(self).connected_spec(),
            final(self).drone_spec() == old(self).drone_spec(),
            final(self).offset_spec() == old(self).offset_spec(),
    {
        let mut r: Vec<TicSet> = Vec::new();
        r.append(&mut self.delivered);
        assert(r@ =~= old(self).delivered@);
        r
    }

    /// Queues a packet and notes the time of this outbound traffic.
    fn send_packet(&mut self, packet: Packet, now: u64)
        ensures
            final(self).outbox_spec() == old(self).outbox_spec().push(packet.data@),
            final(self).last_send_time == now,
            final(self).state == old(self).state,
            final(self).recv_window == old(self).recv_window,
            final(self).send_queue == old(self).send_queue,
            final(self).recv_window_start == old(self).recv_window_start,
            final(self).delivered == old(self).delivered,
            final(self).pid == old(self).pid,
            final(self).connected == old(self).connected,
            final(self).drone == old(self).drone,
            final(self).connect_drone == old(self).connect_drone,
            final(self).reject_reason == old(self).reject_reason,
            final(self).settings == old(self).settings,
            final(self).player_name == old(self).player_name,
            final(self).need_acknowledge == old(self).need_acknowledge,
            final(self).gamedata_recv_time == old(self).gamedata_recv_time,
            final(self).last_ticcmd == old(self).last_ticcmd,
            final(self).recvwindow_cmd_base == old(self).recvwindow_cmd_base,
            final(self).start_time == old(self).start_time,
            final(self).num_retries == old(self).num_retries,
            final(self).last_latency == old(self).last_latency,
            final(self).offset_ms == old(self).offset_ms,
            final(self).connect_data == old(self).connect_data,
            final(self).cycles_this_attempt == old(self).cycles_this_attempt,
    {
        self.outbox.push(packet.data);
        self.last_send_time = now;
        assert(self.outbox_spec() =~= old(self).outbox_spec().push(packet.data@));
    }
}

// ---------------------------------------------------------------------
// The tic windows
// ---------------------------------------------------------------------

impl Client {
    /// Gives the client a name when it has none.
    pub fn init(&mut self, default_name: String)
        requires
            old(self).wf(),
        ensures
            final(self).wf(),
            final(self).name_spec() == if old(self).name_spec().len() == 0 {
                default_name@
            } else {
                old(self).name_spec()
            },
            final(self).state_spec() == old(self).state_spec(),
            !final(self).connected_spec(),
    {
        self.connected = false;
        self.received_wait_data = false;
        self.waiting_for_launch = false;
        if self.player_name.as_str().is_empty() {
            self.player_name = default_name;
        }
    }

    /// Empties both windows; the next tic expected is tic 0.
    fn reset_windows(&mut self, now: u64)
        requires
            old(self).wf(),
        ensures
            final(self).wf(),
            final(self).recv_window_start == 0,
            forall|i: int| 0 <= i < BACKUPTICS ==> !(#[trigger] final(self).recv_window@[i]).active
                && final(self).recv_window@[i].resend_time == now,
            forall|i: int| 0 <= i < BACKUPTICS ==> !(#[trigger] final(self).send_queue@[i]).active,
            final(self).state == old(self).state,
            final(self).outbox == old(self).outbox,
            final(self).delivered == old(self).delivered,
            final(self).connected == old(self).connected,
            final(self).settings == old(self).settings,
            final(self).drone == old(self).drone,
            final(self).connect_drone == old(self).connect_drone,
            final(self).reject_reason == old(self).reject_reason,
            final(self).player_name == old(self).player_name,
    {
        self.recv_window_start = 0;
        let mut i: usize = 0;
        while i < BACKUPTICS
            invariant
                i <= BACKUPTICS,
                self.recv_window@.len() == BACKUPTICS,
                self.send_queue@.len() == BACKUPTICS,
                self.pid == old(self).pid,
                self.recv_window_start == 0,
                forall|j: int| 0 <= j < i ==> !(#[trigger] self.recv_window@[j]).active
                    && self.recv_window@[j].resend_time == now,
                forall|j: int| 0 <= j < i ==> !(#[trigger] self.send_queue@[j]).active,
                self.state == old(self).state,
                self.outbox == old(self).outbox,
                self.delivered == old(self).delivered,
                self.connected == old(self).connected,
                self.settings == old(self).settings,
                self.drone == old(self).drone,
                self.connect_drone == old(self).connect_drone,
                self.reject_reason == old(self).reject_reason,
                self.player_name == old(self).player_name,
            decreases BACKUPTICS - i,
        {
            self.recv_window[i] = ServerRecv::empty(now);
            self.send_queue[i] = ServerSend::empty(now);
            i = i + 1;
        }
        self.recvwindow_cmd_base = [TicCmd::default(); NET_MAXPLAYERS];
    }

    /// Acknowledges game data up to the window start.
    fn send_game_data_ack(&mut self, now: u64)
        requires
            old(self).wf(),
        ensures
            final(self).wf(),
            final(self).outbox_spec() == old(self).outbox_spec().push(game_data_ack_packet(old(self).recv_window_start)),
            !final(self).need_acknowledge,
            final(self).state == old(self).state,
            final(self).recv_window == old(self).recv_window,
            final(self).recv_window_start == old(self).recv_window_start,
            final(self).delivered == old(self).delivered,
            final(self).connected == old(self).connected,
            final(self).settings == old(self).settings,
            final(self).send_queue == old(self).send_queue,
            final(self).gamedata_recv_time == old(self).gamedata_recv_time,
            final(self).start_time == old(self).start_time,
            final(self).reject_reason == old(self).reject_reason,
            final(self).drone == old(self).drone,
            final(self).connect_drone == old(self).connect_drone,
    {
        let mut packet = Packet::new();
        packet.write_u16(PacketType::GameDataAck.to_u16());
        packet.write_u8((self.recv_window_start % 256) as u8);
        assert(packet.data@ =~= game_data_ack_packet(self.recv_window_start));
        self.send_packet(packet, now);
        self.need_acknowledge = false;
    }

    /// Asks the server to send tics `start..=end` again, and stamps the
    /// slots of those tics with the time of the request.
    fn send_resend_request(&mut self, start: u32, end: u32, now: u64)
        requires
            old(self).wf(),
            start <= end,
        ensures
            final(self).wf(),
            final(self).outbox_spec() == old(self).outbox_spec().push(resend_request_packet(start, end)),
            final(self).recv_window@.len() == BACKUPTICS,
            forall|i: int| 0 <= i < BACKUPTICS ==> {
                let t = old(self).recv_window_start + i;
                &&& (#[trigger] final(self).recv_window@[i]).active == old(self).recv_window@[i].active
                &&& final(self).recv_window@[i].cmd == old(self).recv_window@[i].cmd
                &&& final(self).recv_window@[i].resend_time == if start <= t <= end {
                    now
                } else {
                    old(self).recv_window@[i].resend_time
                }
            },
            final(self).state == old(self).state,
            final(self).recv_window_start == old(self).recv_window_start,
            final(self).send_queue == old(self).send_queue,
            final(self).delivered == old(self).delivered,
            final(self).connected == old(self).connected,
            final(self).settings == old(self).settings,
            final(self).need_acknowledge == old(self).need_acknowledge,
            final(self).gamedata_recv_time == old(self).gamedata_recv_time,
            final(self).start_time == old(self).start_time,
            final(self).reject_reason == old(self).reject_reason,
            final(self).drone == old(self).drone,
            final(self).connect_drone == old(self).connect_drone,
    {
        let mut packet = Packet::new();
        packet.write_u16(PacketType::GameDataResend.to_u16());
        packet.write_u32(start);
        packet.write_u8((((end - start) as u64 + 1) % 256) as u8);
        assert(packet.data@ =~= resend_request_packet(start, end));
        self.send_packet(packet, now);
        let ghost ob = self.outbox@;
        let w = self.recv_window_start as u64;
        let mut i: usize = 0;
        while i < BACKUPTICS
            invariant
                self.drone == old(self).drone,
                self.connect_drone == old(self).connect_drone,
                self.start_time == old(self).start_time,
                self.reject_reason == old(self).reject_reason,
                i <= BACKUPTICS,
                w == self.recv_window_start,
                self.recv_window@.len() == BACKUPTICS,
                self.send_queue@.len() == BACKUPTICS,
                self.pid == old(self).pid,
                self.recv_window_start == old(self).recv_window_start,
                self.send_queue == old(self).send_queue,
                self.outbox@ == ob,
                forall|j: int| 0 <= j < BACKUPTICS ==> {
                    let t = old(self).recv_window_start + j;
                    &&& (#[trigger] self.recv_window@[j]).active == old(self).recv_window@[j].active
                    &&& self.recv_window@[j].cmd == old(self).recv_window@[j].cmd
                    &&& self.recv_window@[j].resend_time == if j < i && start <= t <= end {
                        now
                    } else {
                        old(self).recv_window@[j].resend_time
                    }
                },
                self.state == old(self).state,
                self.delivered == old(self).delivered,
                self.connected == old(self).connected,
                self.settings == old(self).settings,
                self.need_acknowledge == old(self).need_acknowledge,
                self.gamedata_recv_time == old(self).gamedata_recv_time,
            decreases BACKUPTICS - i,
        {
            let t = w + i as u64;
            if start as u64 <= t && t <= end as u64 {
                self.recv_window[i].resend_time = now;
            }
            i = i + 1;
        }
    }

    /// Stores a received tic in its slot when the slot lies in the window
    /// and is empty; a duplicate or a tic outside the window is dropped.
    /// Returns whether the tic was stored.
    fn store_received_tic(&mut self, seq: i64, cmd: FullTicCmd) -> (stored: bool)
        requires
            old(self).wf(),
            -1000 <= seq - old(self).recv_window_start <= 1000,
        ensures
            final(self).wf(),
            ({
                let idx = seq - old(self).recv_window_start;
                stored == (0 <= idx < BACKUPTICS && !old(self).recv_window@[idx].active)
                && final(self).recv_window@ == if stored {
                    old(self).recv_window@.update(idx, ServerRecv {
                        active: true,
                        resend_time: old(self).recv_window@[idx].resend_time,
                        cmd: cmd,
                    })
                } else {
                    old(self).recv_window@
                }
            }),
            final(self).outbox == old(self).outbox,
            final(self).state == old(self).state,
            final(self).recv_window_start == old(self).recv_window_start,
            final(self).send_queue == old(self).send_queue,
            final(self).delivered == old(self).delivered,
            final(self).connected == old(self).connected,
            final(self).settings == old(self).settings,
            final(self).pid == old(self).pid,
            final(self).drone == old(self).drone,
            final(self).connect_drone == old(self).connect_drone,
            final(self).start_time == old(self).start_time,
            final(self).reject_reason == old(self).reject_reason,
            final(self).need_acknowledge == old(self).need_acknowledge,
    {
        let idx = seq - self.recv_window_start as i64;
        if 0 <= idx && idx < BACKUPTICS as i64 && !self.recv_window[idx as usize].active {
            let resend_time = self.recv_window[idx as usize].resend_time;
            self.recv_window[idx as usize] = ServerRecv { active: true, resend_time, cmd };
            true
        } else {
            false
        }
    }

    /// Feeds the round-trip time of tic `seq` to the clock controller.
    fn update_clock_sync(&mut self, seq: i64, remote_latency: i32, now: u64)
        requires
            old(self).wf(),
        ensures
            final(self).wf(),
            final(self).outbox == old(self).outbox,
            final(self).state == old(self).state,
            final(self).recv_window == old(self).recv_window,
            final(self).recv_window_start == old(self).recv_window_start,
            final(self).send_queue == old(self).send_queue,
            final(self).delivered == old(self).delivered,
            final(self).connected == old(self).connected,
            final(self).settings == old(self).settings,
            final(self).drone == old(self).drone,
            final(self).connect_drone == old(self).connect_drone,
            final(self).start_time == old(self).start_time,
            final(self).reject_reason == old(self).reject_reason,
            final(self).need_acknowledge == old(self).need_acknowledge,
    {
        let slot = if seq >= 0 { (seq % BACKUPTICS as i64) as usize } else { 0 };
        let sent = self.send_queue[slot].time;
        let ms = elapsed_ms(now, sent);
        let latency: i32 = if ms > 0x7fff_ffff { 0x7fff_ffff } else { ms as i32 };
        let error: i32 = if remote_latency < 0 && latency > 0x7fff_ffff + remote_latency {
            0x7fff_ffff
        } else if remote_latency > 0 && latency < remote_latency - 0x7fff_ffff - 1 {
            -0x7fff_ffff - 1
        } else {
            latency - remote_latency
        };
        self.offset_ms = self.pid.update(error);
        self.last_latency = latency;
    }

    /// After a game-data packet whose first tic is `seq`: when tics between
    /// the window start and `seq` are missing, asks for the run of them just
    /// below `seq`.
    fn check_for_missing_tics(&mut self, seq: i64, now: u64)
        requires
            old(self).wf(),
            -1000 <= seq - old(self).recv_window_start <= 1000,
        ensures
            final(self).wf(),
            final(self).outbox_spec() == old(self).outbox_spec() + gap_request(old(self).recv_window@,
                old(self).recv_window_start, seq as int),
            final(self).state == old(self).state,
            final(self).recv_window_start == old(self).recv_window_start,
            forall|i: int| 0 <= i < BACKUPTICS ==> {
                &&& (#[trigger] final(self).recv_window@[i]).active == old(self).recv_window@[i].active
                &&& final(self).recv_window@[i].cmd == old(self).recv_window@[i].cmd
                &&& final(self).recv_window@[i].resend_time == if in_gap(old(self).recv_window@,
                    old(self).recv_window_start, seq as int, i) {
                    now
                } else {
                    old(self).recv_window@[i].resend_time
                }
            },
            final(self).drone == old(self).drone,
            final(self).connect_drone == old(self).connect_drone,
            final(self).start_time == old(self).start_time,
            final(self).reject_reason == old(self).reject_reason,
            final(self).send_queue == old(self).send_queue,
            final(self).delivered == old(self).delivered,
            final(self).connected == old(self).connected,
            final(self).settings == old(self).settings,
            final(self).need_acknowledge == old(self).need_acknowledge,
            final(self).gamedata_recv_time == old(self).gamedata_recv_time,
    {
        let w = self.recv_window_start as i64;
        let mut resend_end = seq - w;
        if resend_end <= 0 {
            assert(self.outbox_spec() == old(self).outbox_spec() + Seq::<Seq<u8>>::empty());
            return;
        }
        if resend_end >= BACKUPTICS as i64 {
            resend_end = BACKUPTICS as i64 - 1;
        }
        let mut resend_start = resend_end - 1;
        while resend_start >= 0 && !self.recv_window[resend_start as usize].active
            invariant
                -1 <= resend_start < resend_end,
                resend_end < BACKUPTICS,
                resend_end == gap_top(old(self).recv_window_start as int, seq as int),
                self.recv_window@.len() == BACKUPTICS,
                self.recv_window@ == old(self).recv_window@,
                last_active_below(self.recv_window@, resend_end - 1) == last_active_below(self.recv_window@,
                    resend_start as int),
            decreases resend_start + 1,
        {
            resend_start = resend_start - 1;
        }
        assert(last_active_below(self.recv_window@, resend_start as int) == resend_start);
        if resend_start < resend_end - 1 && w <= u32::MAX as i64 - BACKUPTICS as i64 {
            let first = (w + resend_start + 1) as u32;
            let last = (w + resend_end - 1) as u32;
            self.send_resend_request(first, last, now);
        }
    }

    /// Handles a game-data packet: stores each tic it carries in its slot
    /// when the slot lies in the window and is empty, asks for the gap of
    /// missing tics just below it, and acknowledges it. A packet cut short
    /// is dropped whole.
    fn parse_game_data(&mut self, packet: &mut Packet, now: u64)
        requires
            old(self).wf(),
        ensures
            final(self).wf(),
            final(self).state == old(self).state,
            final(self).recv_window_start == old(self).recv_window_start,
            final(self).delivered == old(self).delivered,
            final(self).connected == old(self).connected,
            final(self).settings == old(self).settings,
            final(self).drone == old(self).drone,
            final(self).connect_drone == old(self).connect_drone,
            final(self).start_time == old(self).start_time,
            final(self).reject_reason == old(self).reject_reason,
            match dec_game_data(old(packet).data@, old(packet).pos as int, lowres_of(old(self).settings)) {
                None => {
                    &&& final(self).recv_window == old(self).recv_window
                    &&& final(self).outbox == old(self).outbox
                    &&& final(self).need_acknowledge == old(self).need_acknowledge
                    &&& final(self).gamedata_recv_time == old(self).gamedata_recv_time
                },
                Some((first, ts)) => game_data_handled(old(self).recv_window@, final(self).recv_window@,
                    old(self).outbox_spec(), final(self).outbox_spec(), old(self).recv_window_start, first, ts, now)
                    && final(self).gamedata_recv_time == now && !final(self).need_acknowledge,
            },
    {
        let ghost b = packet.data@;
        let ghost p = packet.pos as int;
        let first = match packet.read_u8() {
            Some(v) => v,
            None => return,
        };
        let num_tics = match packet.read_u8() {
            Some(v) => v,
            None => return,
        };
        let lowres_turn = match &self.settings {
            Some(s) => s.lowres_turn != 0,
            None => false,
        };
        let tics = match packet.read_full_ticcmds(num_tics, lowres_turn) {
            Some(v) => v,
            None => return,
        };
        let ghost ts = dec_tics(b, p + 2, num_tics as nat, lowres_turn).unwrap().0;
        proof {
            lemma_dec_tics_len(b, p + 2, num_tics as nat, lowres_turn);
        }
        let seq = expand_tic_num(self.recv_window_start, first);
        let ghost win0 = self.recv_window@;
        let ghost out0 = self.outbox_spec();
        let mut i: usize = 0;
        while i < tics.len()
            invariant
                self.wf(),
                tics@.len() == num_tics,
                ts.len() == num_tics,
                forall|k: int| 0 <= k < num_tics ==> full_ticcmd_is(#[trigger] tics@[k], ts[k].0, ts[k].1, ts[k].2),
                win0 == old(self).recv_window@,
                out0 == old(self).outbox_spec(),
                self.outbox == old(self).outbox,
                self.state == old(self).state,
                self.recv_window_start == old(self).recv_window_start,
                self.delivered == old(self).delivered,
                self.connected == old(self).connected,
                self.settings == old(self).settings,
                self.drone == old(self).drone,
                self.connect_drone == old(self).connect_drone,
                self.start_time == old(self).start_time,
                self.reject_reason == old(self).reject_reason,
                self.need_acknowledge == old(self).need_acknowledge,
                -192 <= seq - self.recv_window_start <= 192,
                i <= num_tics,
                tics_stored(win0, self.recv_window@, self.recv_window_start as int, seq as int, ts, i as int),
            decreases tics@.len() - i,
        {
            let t = seq + i as i64;
            let ghost before = self.recv_window@;
            let stored = self.store_received_tic(t, tics[i]);
            proof {
                let w = self.recv_window_start as int;
                assert forall|j: int| 0 <= j < BACKUPTICS implies {
                    let k = w + j - seq;
                    if 0 <= k < i + 1 && !win0[j].active {
                        (#[trigger] self.recv_window@[j]).active && full_ticcmd_is(self.recv_window@[j].cmd,
                            ts[k].0, ts[k].1, ts[k].2)
                    } else {
                        self.recv_window@[j].active == win0[j].active && self.recv_window@[j].cmd == win0[j].cmd
                    }
                } by {
                    assert(before[j] == before[j]);
                }
            }
            if stored && i + 1 == tics.len() {
                self.update_clock_sync(t, tics[i].latency, now);
            }
            i = i + 1;
        }
        self.need_acknowledge = true;
        self.gamedata_recv_time = now;
        let ghost mid = self.recv_window@;
        let ghost out_mid = self.outbox_spec();
        assert(out_mid == out0);
        self.check_for_missing_tics(seq, now);
        let ghost out_gap = self.outbox_spec();
        self.send_game_data_ack(now);
        proof {
            let w = self.recv_window_start;
            assert(dec_game_data(b, p, lowres_of(old(self).settings)) == Some((first, ts)));
            assert(seq == expand_tic(w as int, first as int));
            assert(tics_stored(win0, self.recv_window@, w as int, seq as int, ts, ts.len() as int)) by {
                assert forall|j: int| 0 <= j < BACKUPTICS implies #[trigger] self.recv_window@[j].active == mid[j].active
                    && self.recv_window@[j].cmd == mid[j].cmd by {}
            }
            lemma_last_active_same(mid, self.recv_window@, BACKUPTICS - 1);
            assert forall|e: int| -1 <= e < BACKUPTICS implies last_active_below(mid, e)
                == #[trigger] last_active_below(self.recv_window@, e) by {
                lemma_last_active_same(mid, self.recv_window@, e);
            }
            assert(gap_request(mid, w, seq as int) == gap_request(self.recv_window@, w, seq as int));
            assert(self.outbox_spec() =~= out0 + gap_request(self.recv_window@, w, seq as int)
                + seq![game_data_ack_packet(w)]);
            assert forall|i: int| 0 <= i < BACKUPTICS && in_gap(self.recv_window@, w, seq as int, i) implies
                (#[trigger] self.recv_window@[i]).resend_time == now by {
                assert(in_gap(mid, w, seq as int, i));
            }
        }
    }
}

impl Client {
    /// Sends tics `start..=end` of the send queue in one game-data packet.
    fn send_tics(&mut self, start: u32, end: u32, now: u64)
        requires
            old(self).wf(),
            start <= end,
        ensures
            final(self).wf(),
            old(self).connected ==> final(self).outbox_spec() == old(self).outbox_spec().push(game_data_packet(
                old(self).recv_window_start, start, end, old(self).send_queue@, clamp16(old(self).last_latency),
                lowres_of(old(self).settings))),
            !old(self).connected ==> final(self).outbox_spec() == old(self).outbox_spec(),
            final(self).state == old(self).state,
            final(self).recv_window == old(self).recv_window,
            final(self).recv_window_start == old(self).recv_window_start,
            final(self).send_queue == old(self).send_queue,
            final(self).delivered == old(self).delivered,
            final(self).connected == old(self).connected,
            final(self).settings == old(self).settings,
            final(self).last_ticcmd == old(self).last_ticcmd,
            final(self).drone == old(self).drone,
            final(self).connect_drone == old(self).connect_drone,
            final(self).start_time == old(self).start_time,
            final(self).reject_reason == old(self).reject_reason,
            final(self).offset_ms == old(self).offset_ms,
    {
        if !self.connected {
            return;
        }
        let mut packet = Packet::new();
        packet.write_u16(PacketType::GameData.to_u16());
        packet.write_u8((self.recv_window_start % 256) as u8);
        packet.write_u8((start % 256) as u8);
        packet.write_u8((((end - start) as u64 + 1) % 256) as u8);
        let lowres_turn = match &self.settings {
            Some(s) => s.lowres_turn != 0,
            None => false,
        };
        let latency: i16 = if self.last_latency > 0x7fff {
            0x7fff
        } else if self.last_latency < -0x8000 {
            -0x8000
        } else {
            self.last_latency as i16
        };
        let ghost head = packet.data@;
        assert(head =~= le16(packet_code(PacketType::GameData)) + seq![(self.recv_window_start % 256) as u8,
            (start % 256) as u8, (((end - start) + 1) % 256) as u8]);
        let mut tic: u64 = start as u64;
        while tic <= end as u64
            invariant
                start <= tic <= end as u64 + 1,
                self.send_queue@.len() == BACKUPTICS,
                latency == clamp16(self.last_latency),
                lowres_turn == lowres_of(self.settings),
                packet.data@ == head + tics_bytes(self.send_queue@, start as int, (tic - start) as nat, latency,
                    lowres_turn),
            decreases end as u64 + 1 - tic,
        {
            let slot = (tic % BACKUPTICS as u64) as usize;
            let ghost before = packet.data@;
            packet.write_i16(latency);
            packet.write_ticcmd_diff(&self.send_queue[slot].cmd, lowres_turn);
            proof {
                let piece = le16(latency as u16) + enc_ticdiff(self.send_queue@[slot as int].cmd, lowres_turn);
                assert(packet.data@ =~= before + piece);
                lemma_concat_associative(head, tics_bytes(self.send_queue@, start as int, (tic - start) as nat,
                    latency, lowres_turn), piece);
                assert(tics_bytes(self.send_queue@, start as int, (tic + 1 - start) as nat, latency, lowres_turn)
                    == tics_bytes(self.send_queue@, start as int, (tic - start) as nat, latency, lowres_turn) + piece);
            }
            tic = tic + 1;
        }
        assert(packet.data@ == game_data_packet(self.recv_window_start, start, end, self.send_queue@,
            clamp16(self.last_latency), lowres_of(self.settings)));
        self.send_packet(packet, now);
        self.need_acknowledge = false;
    }

    /// Queues the local input for tic `maketic`: stores its diff against
    /// the previous input in the send queue and sends it with the
    /// `extratics` tics before it.
    pub fn send_ticcmd(&mut self, ticcmd: &TicCmd, maketic: u32, now: u64)
        requires
            old(self).wf(),
        ensures
            final(self).wf(),
            ({
                let slot = final(self).send_slot(maketic as int % BACKUPTICS as int);
                &&& slot.active
                &&& slot.seq == maketic
                &&& slot.time == now
                &&& slot.cmd == diff_of(old(self).last_sent(), *ticcmd)
            }),
            forall|i: int| 0 <= i < BACKUPTICS && i != maketic as int % BACKUPTICS as int
                ==> final(self).send_slot(i) == old(self).send_slot(i),
            final(self).last_sent() == *ticcmd,
            final(self).state_spec() == old(self).state_spec(),
            final(self).window_start() == old(self).window_start(),
            final(self).delivered_spec() == old(self).delivered_spec(),
            final(self).connected_spec() == old(self).connected_spec(),
            final(self).settings_spec() == old(self).settings_spec(),
            final(self).drone_spec() == old(self).drone_spec(),
            final(self).offset_spec() == old(self).offset_spec(),
            old(self).connected_spec() ==> final(self).outbox_spec() == old(self).outbox_spec().push(game_data_packet(
                old(self).window_start(), send_start(maketic, extratics_of(old(self).settings_spec())), maketic,
                final(self).send_queue_spec(), clamp16(old(self).latency_spec()), lowres_of(old(self).settings_spec()))),
            !old(self).connected_spec() ==> final(self).outbox_spec() == old(self).outbox_spec(),
            final(self).start_spec() == old(self).start_spec(),
            final(self).reason_spec() == old(self).reason_spec(),
            final(self).pending_drone() == old(self).pending_drone(),
    {
        let diff = calculate_ticcmd_diff(&self.last_ticcmd, ticcmd);
        let slot = (maketic % BACKUPTICS as u32) as usize;
        self.send_queue[slot] = ServerSend { active: true, seq: maketic, time: now, cmd: diff };
        self.last_ticcmd = *ticcmd;
        let extratics: i32 = match &self.settings {
            Some(s) => s.extratics,
            None => 0,
        };
        let starttic: u32 = if extratics <= 0 || maketic < extratics as u32 {
            0
        } else {
            maketic - extratics as u32
        };
        self.send_tics(starttic, maketic, now);
    }

    /// Narrows a requested range of tics to the tics the send queue still
    /// holds at its two ends. Returns `None` when it holds none of them.
    fn calculate_resend_range(&self, start: u32, end: u32) -> (r: Option<(u32, u32)>)
        requires
            self.wf(),
            start <= end,
        ensures
            r matches Some((a, b)) ==> start <= a <= b <= end,
    {
        let mut a = start as u64;
        while a <= end as u64
            invariant
                start <= a <= end as u64 + 1,
                self.send_queue@.len() == BACKUPTICS,
            decreases end as u64 + 1 - a,
        {
            let slot = &self.send_queue[(a % BACKUPTICS as u64) as usize];
            if slot.active && slot.seq as u64 == a {
                break;
            }
            a = a + 1;
        }
        if a > end as u64 {
            return None;
        }
        let mut b = end as u64;
        while b > a
            invariant
                a <= b <= end,
                self.send_queue@.len() == BACKUPTICS,
            decreases b,
        {
            let slot = &self.send_queue[(b % BACKUPTICS as u64) as usize];
            if slot.active && slot.seq as u64 == b {
                break;
            }
            b = b - 1;
        }
        Some((a as u32, b as u32))
    }

    /// Handles the server's request that tics be sent again: resends those
    /// of them the send queue still holds. A drone sends no tics.
    fn parse_resend_request(&mut self, packet: &mut Packet, now: u64)
        requires
            old(self).wf(),
        ensures
            final(self).wf(),
            final(self).state == old(self).state,
            final(self).recv_window == old(self).recv_window,
            final(self).recv_window_start == old(self).recv_window_start,
            final(self).send_queue == old(self).send_queue,
            final(self).delivered == old(self).delivered,
            final(self).connected == old(self).connected,
            final(self).settings == old(self).settings,
            final(self).last_ticcmd == old(self).last_ticcmd,
            final(self).connect_drone == old(self).connect_drone,
    {
        if self.drone {
            return;
        }
        let start = match packet.read_i32() {
            Some(v) => v,
            None => return,
        };
        let num_tics = match packet.read_u8() {
            Some(v) => v,
            None => return,
        };
        if start < 0 || num_tics == 0 || start as u64 + num_tics as u64 - 1 > u32::MAX as u64 {
            return;
        }
        let first = start as u32;
        let last = (start as u64 + num_tics as u64 - 1) as u32;
        match self.calculate_resend_range(first, last) {
            Some((a, b)) => self.send_tics(a, b, now),
            None => {},
        }
    }

    /// Rebuilds each player's command of a completed tic from the per-player
    /// baselines, which the rebuilt commands replace. The local player's own
    /// command is not rebuilt unless the client is a drone.
    fn expand_full_ticcmd(&mut self, cmd: &FullTicCmd) -> (r: [TicCmd; NET_MAXPLAYERS])
        requires
            old(self).wf(),
        ensures
            final(self).wf(),
            r@ == expand_spec(*cmd, old(self).recvwindow_cmd_base@, old(self).local_skip()),
            final(self).recvwindow_cmd_base@ == r@,
            final(self).state == old(self).state,
            final(self).recv_window == old(self).recv_window,
            final(self).recv_window_start == old(self).recv_window_start,
            final(self).send_queue == old(self).send_queue,
            final(self).delivered == old(self).delivered,
            final(self).outbox == old(self).outbox,
            final(self).connected == old(self).connected,
            final(self).settings == old(self).settings,
            final(self).drone == old(self).drone,
            final(self).connect_drone == old(self).connect_drone,
            final(self).start_time == old(self).start_time,
            final(self).reject_reason == old(self).reject_reason,
            final(self).need_acknowledge == old(self).need_acknowledge,
            final(self).gamedata_recv_time == old(self).gamedata_recv_time,
            final(self).last_send_time == old(self).last_send_time,
    {
        let skip: i64 = self.local_player_to_skip();
        let mut base = self.recvwindow_cmd_base;
        let mut i: usize = 0;
        while i < NET_MAXPLAYERS
            invariant
                i <= NET_MAXPLAYERS,
                skip == old(self).local_skip(),
                self.recvwindow_cmd_base == old(self).recvwindow_cmd_base,
                forall|j: int| 0 <= j < NET_MAXPLAYERS ==> base[j] == if j < i {
                    expand_spec(*cmd, old(self).recvwindow_cmd_base@, skip as int)[j]
                } else {
                    old(self).recvwindow_cmd_base[j]
                },
            decreases NET_MAXPLAYERS - i,
        {
            if i as i64 != skip && cmd.playeringame[i] {
                let mut b = base[i];
                let rebuilt = apply_ticcmd_diff(&mut b, &cmd.cmds[i]);
                base[i] = rebuilt;
            }
            i = i + 1;
        }
        self.recvwindow_cmd_base = base;
        assert(base@ =~= expand_spec(*cmd, old(self).recvwindow_cmd_base@, skip as int));
        base
    }

    /// The player whose commands are local and not rebuilt from the wire:
    /// the console player, unless the client is a drone (-1 then).
    pub closed spec fn local_skip(&self) -> int {
        if self.drone {
            -1
        } else {
            match self.settings {
                Some(s) => s.consoleplayer as int,
                None => 0,
            }
        }
    }

    fn local_player_to_skip(&self) -> (r: i64)
        ensures
            r == self.local_skip(),
    {
        if self.drone {
            -1
        } else {
            match &self.settings {
                Some(s) => s.consoleplayer as i64,
                None => 0,
            }
        }
    }

    /// Moves the receive window's slots one place toward the front; the
    /// last slot becomes empty.
    fn shift_window(&mut self, now: u64)
        requires
            old(self).wf(),
        ensures
            final(self).wf(),
            forall|k: int| 0 <= k < BACKUPTICS - 1 ==> #[trigger] final(self).recv_window@[k] == old(self).recv_window@[k + 1],
            final(self).recv_window@[BACKUPTICS - 1] == (ServerRecv { active: false, resend_time: now, cmd: zero_full_ticcmd() }),
            final(self).recv_window_start == old(self).recv_window_start,
            final(self).delivered == old(self).delivered,
            final(self).state == old(self).state,
            final(self).outbox == old(self).outbox,
            final(self).connected == old(self).connected,
            final(self).settings == old(self).settings,
            final(self).send_queue == old(self).send_queue,
            final(self).start_time == old(self).start_time,
            final(self).reject_reason == old(self).reject_reason,
            final(self).drone == old(self).drone,
            final(self).connect_drone == old(self).connect_drone,
            final(self).recvwindow_cmd_base == old(self).recvwindow_cmd_base,
            final(self).need_acknowledge == old(self).need_acknowledge,
            final(self).gamedata_recv_time == old(self).gamedata_recv_time,
            final(self).last_send_time == old(self).last_send_time,
    {
        let mut j: usize = 0;
        while j + 1 < BACKUPTICS
            invariant
                self.need_acknowledge == old(self).need_acknowledge,
                self.gamedata_recv_time == old(self).gamedata_recv_time,
                self.last_send_time == old(self).last_send_time,
                self.recvwindow_cmd_base == old(self).recvwindow_cmd_base,
                self.drone == old(self).drone,
                self.connect_drone == old(self).connect_drone,
                self.start_time == old(self).start_time,
                self.reject_reason == old(self).reject_reason,
                j + 1 <= BACKUPTICS,
                self.wf(),
                forall|k: int| 0 <= k < j ==> #[trigger] self.recv_window@[k] == old(self).recv_window@[k + 1],
                forall|k: int| j <= k < BACKUPTICS ==> #[trigger] self.recv_window@[k] == old(self).recv_window@[k],
                self.recv_window_start == old(self).recv_window_start,
                self.delivered == old(self).delivered,
                self.state == old(self).state,
                self.outbox == old(self).outbox,
                self.connected == old(self).connected,
                self.settings == old(self).settings,
                self.send_queue == old(self).send_queue,
            decreases BACKUPTICS - j,
        {
            let next = self.recv_window[j + 1];
            self.recv_window[j] = next;
            j = j + 1;
        }
        self.recv_window[BACKUPTICS - 1] = ServerRecv::empty(now);
    }

    /// Delivers every completed tic at the front of the receive window, in
    /// order, and moves the window past each.
    fn advance_window(&mut self, now: u64)
        requires
            old(self).wf(),
        ensures
            final(self).wf(),
            final(self).recv_window_start >= old(self).recv_window_start,
            final(self).recv_window_start - old(self).recv_window_start <= BACKUPTICS,
            final(self).delivered@.len() == old(self).delivered@.len()
                + (final(self).recv_window_start - old(self).recv_window_start),
            final(self).delivered@.subrange(0, old(self).delivered@.len() as int) == old(self).delivered@,
            final(self).recv_window_start < u32::MAX ==> !final(self).recv_window@[0].active,
            ({
                let n = final(self).recv_window_start - old(self).recv_window_start;
                &&& forall|j: int| 0 <= j < n ==> (#[trigger] old(self).recv_window@[j]).active
                &&& forall|j: int| 0 <= j < BACKUPTICS - n ==> #[trigger] final(self).recv_window@[j]
                    == old(self).recv_window@[j + n]
                &&& forall|j: int| BACKUPTICS - n <= j < BACKUPTICS ==> !(#[trigger] final(self).recv_window@[j]).active
                &&& final(self).recv_window@ == shifted_window(old(self).recv_window@, n, now)
                &&& forall|j: int| 0 <= j < n ==> delivered_as(#[trigger] final(self).delivered@[old(self).delivered@.len()
                    + j], old(self).recv_window@, old(self).recvwindow_cmd_base@, old(self).local_skip(), j)
                &&& final(self).recvwindow_cmd_base@ == base_after(old(self).recv_window@,
                    old(self).recvwindow_cmd_base@, old(self).local_skip(), n as nat)
            }),
            final(self).state == old(self).state,
            final(self).outbox == old(self).outbox,
            final(self).connected == old(self).connected,
            final(self).settings == old(self).settings,
            final(self).send_queue == old(self).send_queue,
            final(self).start_time == old(self).start_time,
            final(self).reject_reason == old(self).reject_reason,
            final(self).drone == old(self).drone,
            final(self).connect_drone == old(self).connect_drone,
            final(self).need_acknowledge == old(self).need_acknowledge,
            final(self).gamedata_recv_time == old(self).gamedata_recv_time,
            final(self).last_send_time == old(self).last_send_time,
    {
        let mut n: usize = 0;
        let ghost win0 = self.recv_window@;
        let ghost base0 = self.recvwindow_cmd_base@;
        let ghost d0 = self.delivered@;
        let ghost skip = self.local_skip();
        while self.recv_window[0].active && self.recv_window_start < u32::MAX
            invariant
                self.need_acknowledge == old(self).need_acknowledge,
                self.gamedata_recv_time == old(self).gamedata_recv_time,
                self.last_send_time == old(self).last_send_time,
                self.drone == old(self).drone,
                self.connect_drone == old(self).connect_drone,
                self.start_time == old(self).start_time,
                self.reject_reason == old(self).reject_reason,
                self.wf(),
                win0 == old(self).recv_window@,
                base0 == old(self).recvwindow_cmd_base@,
                d0 == old(self).delivered@,
                skip == self.local_skip(),
                n <= BACKUPTICS,
                self.recv_window_start == old(self).recv_window_start + n,
                self.delivered@.len() == old(self).delivered@.len() + n,
                self.delivered@.subrange(0, d0.len() as int) == d0,
                self.state == old(self).state,
                self.outbox == old(self).outbox,
                self.connected == old(self).connected,
                self.settings == old(self).settings,
                self.send_queue == old(self).send_queue,
                forall|j: int| 0 <= j < n ==> (#[trigger] win0[j]).active,
                forall|j: int| 0 <= j < BACKUPTICS - n ==> #[trigger] self.recv_window@[j] == win0[j + n],
                forall|j: int| BACKUPTICS - n <= j < BACKUPTICS ==> #[trigger] self.recv_window@[j]
                    == (ServerRecv { active: false, resend_time: now, cmd: zero_full_ticcmd() }),
                forall|j: int| 0 <= j < n ==> delivered_as(#[trigger] self.delivered@[d0.len() + j], win0, base0, skip, j),
                self.recvwindow_cmd_base@ == base_after(win0, base0, skip, n as nat),
            decreases BACKUPTICS - n,
        {
            proof {
                if n == BACKUPTICS {
                    assert(!self.recv_window@[0].active);
                }
            }
            let front = self.recv_window[0].cmd;
            assert(front == win0[n as int].cmd);
            let cmds = self.expand_full_ticcmd(&front);
            let ghost before = self.delivered@;
            self.delivered.push(TicSet { cmds, ingame: front.playeringame });
            assert(self.delivered@.subrange(0, d0.len() as int) == before.subrange(0, d0.len() as int));
            let ghost pre_shift = self.recv_window@;
            self.shift_window(now);
            self.recv_window_start = self.recv_window_start + 1;
            n = n + 1;
            proof {
                assert(self.recv_window@ =~= shifted_window(win0, n as int, now)) by {
                    assert forall|j: int| 0 <= j < BACKUPTICS implies self.recv_window@[j]
                        == shifted_window(win0, n as int, now)[j] by {
                        if j < BACKUPTICS - n {
                            assert(self.recv_window@[j] == pre_shift[j + 1]);
                        } else if j < BACKUPTICS - 1 {
                            assert(self.recv_window@[j] == pre_shift[j + 1]);
                        }
                    }
                }
                assert(base_after(win0, base0, skip, n as nat) == expand_spec(win0[n - 1].cmd,
                    base_after(win0, base0, skip, (n - 1) as nat), skip));
                assert forall|j: int| 0 <= j < n implies delivered_as(#[trigger] self.delivered@[d0.len() + j], win0,
                    base0, skip, j) by {
                    if j < n - 1 {
                        assert(self.delivered@[d0.len() + j] == before[d0.len() + j]);
                    }
                }
                assert forall|j: int| 0 <= j < BACKUPTICS - n implies #[trigger] self.recv_window@[j] == win0[j + n] by {
                    assert(self.recv_window@[j] == pre_shift[j + 1]);
                }
                assert forall|j: int| BACKUPTICS - n <= j < BACKUPTICS implies #[trigger] self.recv_window@[j]
                    == (ServerRecv { active: false, resend_time: now, cmd: zero_full_ticcmd() }) by {
                    if j < BACKUPTICS - 1 {
                        assert(self.recv_window@[j] == pre_shift[j + 1]);
                    }
                }
            }
        }
    }
}

/// How a connection attempt stands after one service cycle.
#[derive(Debug, Clone, Copy, PartialEq, Eq, Structural)]
pub enum ConnectProgress {
    /// No answer yet: service the socket again in 200 ms.
    Pending,
    /// A new Syn went out: wait 2 s before servicing again.
    Retry,
    /// The server accepted us; the client now waits for the launch.
    Connected,
    /// The server refused us, or the session ended; see the reason.
    Rejected,
    /// The attempt took longer than `CONNECT_TIMEOUT_MS`.
    TimedOut,
    /// `MAX_RETRIES` Syns went unanswered.
    RetriesExhausted,
}

/// Whether slot `i` of a receive window is due for a resend request: empty,
/// and last asked for more than `RESEND_TIMEOUT_MS` before `now`.
pub open spec fn due(win: Seq<ServerRecv>, now: u64, i: int) -> bool {
    !win[i].active && elapsed(now, win[i].resend_time) > RESEND_TIMEOUT_MS
}

/// The last slot of the run of due slots that goes on from `a`.
pub open spec fn run_end_at(win: Seq<ServerRecv>, now: u64, a: int) -> int
    decreases BACKUPTICS - a,
{
    if 0 <= a && a + 1 < BACKUPTICS && due(win, now, a + 1) {
        run_end_at(win, now, a + 1)
    } else {
        a
    }
}

/// The maximal runs of due slots that start at `i` or later, as first and
/// last slot, in order.
pub open spec fn due_runs(win: Seq<ServerRecv>, now: u64, i: int) -> Seq<(int, int)>
    decreases BACKUPTICS - i,
{
    if i < 0 || i >= BACKUPTICS {
        Seq::empty()
    } else if due(win, now, i) && (i == 0 || !due(win, now, i - 1)) {
        seq![(i, run_end_at(win, now, i))] + due_runs(win, now, i + 1)
    } else {
        due_runs(win, now, i + 1)
    }
}

proof fn lemma_run_end(win: Seq<ServerRecv>, now: u64, a: int, b: int)
    requires
        0 <= a <= b < BACKUPTICS,
        forall|k: int| a <= k <= b ==> #[trigger] due(win, now, k),
        b == BACKUPTICS - 1 || !due(win, now, b + 1),
    ensures
        run_end_at(win, now, a) == b,
    decreases b - a,
{
    if a < b {
        lemma_run_end(win, now, a + 1, b);
    }
}

proof fn lemma_due_runs_start(win: Seq<ServerRecv>, now: u64, i: int, k: int)
    requires
        0 <= i,
        0 <= k < due_runs(win, now, i).len(),
    ensures
        due_runs(win, now, i)[k].0 >= i,
    decreases BACKUPTICS - i,
{
    if i < BACKUPTICS {
        let rest = due_runs(win, now, i + 1);
        if due(win, now, i) && (i == 0 || !due(win, now, i - 1)) {
            if k > 0 {
                lemma_due_runs_start(win, now, i + 1, k - 1);
                assert(due_runs(win, now, i)[k] == rest[k - 1]);
            }
        } else {
            lemma_due_runs_start(win, now, i + 1, k);
        }
    }
}

/// Runs come in order of their first slot.
proof fn lemma_due_runs_ordered(win: Seq<ServerRecv>, now: u64, i: int, k: int, l: int)
    requires
        0 <= i,
        0 <= k < l < due_runs(win, now, i).len(),
    ensures
        due_runs(win, now, i)[k].0 < due_runs(win, now, i)[l].0,
    decreases BACKUPTICS - i,
{
    if i < BACKUPTICS {
        let rest = due_runs(win, now, i + 1);
        if due(win, now, i) && (i == 0 || !due(win, now, i - 1)) {
            if k == 0 {
                lemma_due_runs_start(win, now, i + 1, l - 1);
                assert(due_runs(win, now, i)[l] == rest[l - 1]);
            } else {
                lemma_due_runs_ordered(win, now, i + 1, k - 1, l - 1);
                assert(due_runs(win, now, i)[k] == rest[k - 1]);
                assert(due_runs(win, now, i)[l] == rest[l - 1]);
            }
        } else {
            lemma_due_runs_ordered(win, now, i + 1, k, l);
        }
    }
}

proof fn lemma_due_runs_contains(win: Seq<ServerRecv>, now: u64, i: int, a: int)
    requires
        0 <= i <= a < BACKUPTICS,
        due(win, now, a),
        a == 0 || !due(win, now, a - 1),
    ensures
        exists|k: int| 0 <= k < due_runs(win, now, i).len() && due_runs(win, now, i)[k] == (a, run_end_at(win, now, a)),
    decreases a - i,
{
    if i == a {
        assert(due_runs(win, now, i)[0] == (a, run_end_at(win, now, a)));
    } else {
        lemma_due_runs_contains(win, now, i + 1, a);
        let rest = due_runs(win, now, i + 1);
        let k = choose|k: int| 0 <= k < rest.len() && rest[k] == (a, run_end_at(win, now, a));
        if due(win, now, i) && (i == 0 || !due(win, now, i - 1)) {
            assert(due_runs(win, now, i)[k + 1] == rest[k]);
        } else {
            assert(due_runs(win, now, i) == rest);
        }
    }
}

/// Resend coalescing: a maximal run `a..=b` of due slots gets exactly one
/// resend request, for the whole run.
pub proof fn lemma_run_requested_once(win: Seq<ServerRecv>, now: u64, a: int, b: int)
    requires
        0 <= a <= b < BACKUPTICS,
        forall|k: int| a <= k <= b ==> #[trigger] due(win, now, k),
        a == 0 || !due(win, now, a - 1),
        b == BACKUPTICS - 1 || !due(win, now, b + 1),
    ensures
        exists|k: int| 0 <= k < due_runs(win, now, 0).len() && due_runs(win, now, 0)[k] == (a, b)
            && forall|l: int| 0 <= l < due_runs(win, now, 0).len() && l != k
                ==> #[trigger] due_runs(win, now, 0)[l] != (a, b),
{
    lemma_run_end(win, now, a, b);
    lemma_due_runs_contains(win, now, 0, a);
    let runs = due_runs(win, now, 0);
    let k = choose|k: int| 0 <= k < runs.len() && runs[k] == (a, run_end_at(win, now, a));
    assert forall|l: int| 0 <= l < runs.len() && l != k implies #[trigger] runs[l] != (a, b) by {
        if l < k {
            lemma_due_runs_ordered(win, now, 0, l, k);
        } else {
            lemma_due_runs_ordered(win, now, 0, k, l);
        }
    }
}

/// Whether a session's settings ask for low-resolution turning.
pub open spec fn lowres_of(s: Option<GameSettings>) -> bool {
    s matches Some(g) && g.lowres_turn != 0
}

/// Decodes the body of a game-data packet at `p`: the low byte of its first
/// tic's number, then its tics.
pub open spec fn dec_game_data(b: Seq<u8>, p: int, lowres: bool) -> Option<(u8, Seq<(i32, u8, Seq<TicDiff>)>)> {
    if !has_bytes(b, p, 2) {
        None
    } else {
        match dec_tics(b, p + 2, b[p + 1] as nat, lowres) {
            Some((ts, _)) => Some((b[p], ts)),
            None => None,
        }
    }
}

/// `new` is `old` with the first `count` of the tics `ts`, the first of
/// which is tic `seq`, stored in the slots they fall in, where empty.
pub open spec fn tics_stored(old: Seq<ServerRecv>, new: Seq<ServerRecv>, w: int, seq: int,
    ts: Seq<(i32, u8, Seq<TicDiff>)>, count: int) -> bool {
    forall|i: int| 0 <= i < BACKUPTICS ==> {
        let k = w + i - seq;
        if 0 <= k < count && !old[i].active {
            (#[trigger] new[i]).active && full_ticcmd_is(new[i].cmd, ts[k].0, ts[k].1, ts[k].2)
        } else {
            new[i].active == old[i].active && new[i].cmd == old[i].cmd
        }
    }
}

/// A game-data packet whose first tic's low byte is `first` and whose tics
/// are `ts` was handled: its tics stored, the gap just below it asked for,
/// with the slots of the gap stamped `now`, and the packet acknowledged.
pub open spec fn game_data_handled(old_win: Seq<ServerRecv>, new_win: Seq<ServerRecv>, old_out: Seq<Seq<u8>>,
    new_out: Seq<Seq<u8>>, w: u32, first: u8, ts: Seq<(i32, u8, Seq<TicDiff>)>, now: u64) -> bool {
    let seq = expand_tic(w as int, first as int);
    &&& tics_stored(old_win, new_win, w as int, seq, ts, ts.len() as int)
    &&& new_out == old_out + gap_request(new_win, w, seq) + seq![game_data_ack_packet(w)]
    &&& forall|i: int| 0 <= i < BACKUPTICS && in_gap(new_win, w, seq, i) ==> (#[trigger] new_win[i]).resend_time == now
}

/// Two windows with the same active slots have the same last active slot.
proof fn lemma_last_active_same(a: Seq<ServerRecv>, b: Seq<ServerRecv>, j: int)
    requires
        forall|k: int| 0 <= k <= j ==> (#[trigger] a[k]).active == b[k].active,
    ensures
        last_active_below(a, j) == last_active_below(b, j),
    decreases j + 1,
{
    if j >= 0 {
        lemma_last_active_same(a, b, j - 1);
    }
}

/// The largest active slot at or below `j`, or -1 when there is none.
pub open spec fn last_active_below(win: Seq<ServerRecv>, j: int) -> int
    decreases j + 1,
{
    if j < 0 {
        -1
    } else if win[j].active {
        j
    } else {
        last_active_below(win, j - 1)
    }
}

/// The slot of the first tic of a game-data packet, kept inside the window.
pub open spec fn gap_top(w: int, seq: int) -> int {
    if seq - w >= BACKUPTICS { BACKUPTICS - 1 } else { seq - w }
}

/// Whether slot `i` lies in the gap of empty slots just below the first tic
/// `seq` of a game-data packet, which the client asks to be sent again.
pub open spec fn in_gap(win: Seq<ServerRecv>, w: u32, seq: int, i: int) -> bool {
    let e = gap_top(w as int, seq);
    &&& e > 0
    &&& w <= u32::MAX - BACKUPTICS
    &&& last_active_below(win, e - 1) < i <= e - 1
}

/// The resend request for the gap below the first tic `seq`, if there is one.
pub open spec fn gap_request(win: Seq<ServerRecv>, w: u32, seq: int) -> Seq<Seq<u8>> {
    let e = gap_top(w as int, seq);
    let s = last_active_below(win, e - 1);
    if e > 0 && s < e - 1 && w <= u32::MAX - BACKUPTICS {
        seq![resend_request_packet((w + s + 1) as u32, (w + e - 1) as u32)]
    } else {
        Seq::empty()
    }
}

/// One resend request for each run of slots, counted from window start `w`.
pub open spec fn resend_packets(w: u32, runs: Seq<(int, int)>) -> Seq<Seq<u8>> {
    runs.map_values(|r: (int, int)| resend_request_packet((w + r.0) as u32, (w + r.1) as u32))
}

/// What a reliable frame of type `t` begins with: its code with the reliable
/// flag, then its sequence number.
pub open spec fn reliable_header(t: PacketType, seq: u8) -> Seq<u8> {
    le16((packet_code(t) | NET_RELIABLE_PACKET) as u16) + seq![seq]
}

/// Whether lobby data passes the checks of the waiting room: no more
/// players than places, no more ready players than players, no more places
/// than `NET_MAXPLAYERS`, and a console player of -1 for a drone and not
/// negative otherwise.
pub open spec fn wait_data_valid(w: WaitData, drone: bool) -> bool {
    &&& w.num_players <= w.max_players
    &&& w.ready_players <= w.num_players
    &&& w.max_players <= NET_MAXPLAYERS
    &&& if drone { w.consoleplayer == -1 } else { w.consoleplayer >= 0 }
}

/// Whether the lobby data at `p` passes the checks of the waiting room,
/// read from its header bytes.
pub open spec fn wait_header_valid(b: Seq<u8>, p: int, drone: bool) -> bool {
    &&& b[p] <= b[p + 3]
    &&& b[p + 2] <= b[p]
    &&& b[p + 3] <= NET_MAXPLAYERS
    &&& if drone { (b[p + 5] as i8) == -1 } else { (b[p + 5] as i8) >= 0 }
}

/// Whether game settings pass the checks at game start: at most
/// `NET_MAXPLAYERS` players, a console player below the player count, and
/// a console player of -1 for a drone and not negative otherwise.
pub open spec fn settings_valid_for(s: GameSettings, drone: bool) -> bool {
    &&& s.num_players <= NET_MAXPLAYERS
    &&& s.consoleplayer < s.num_players
    &&& if drone { s.consoleplayer == -1 } else { s.consoleplayer >= 0 }
}

impl Client {
    /// Checks lobby data from the server.
    pub fn validate_wait_data(&self, wait_data: &WaitData) -> (r: bool)
        ensures
            r == wait_data_valid(*wait_data, self.drone_spec()),
    {
        wait_data.num_players <= wait_data.max_players && wait_data.ready_players <= wait_data.num_players
            && wait_data.max_players <= NET_MAXPLAYERS as i32 && if self.drone {
            wait_data.consoleplayer == -1
        } else {
            wait_data.consoleplayer >= 0
        }
    }

    /// Checks game settings from the server.
    pub fn validate_game_settings(&self, settings: &GameSettings) -> (r: bool)
        ensures
            r == settings_valid_for(*settings, self.drone_spec()),
    {
        settings.num_players <= NET_MAXPLAYERS as i32 && settings.consoleplayer < settings.num_players
            && if self.drone {
            settings.consoleplayer == -1
        } else {
            settings.consoleplayer >= 0
        }
    }

    /// Asks again for every run of missing tics whose last request is more
    /// than `RESEND_TIMEOUT_MS` old, one request per run, and acknowledges
    /// game data that has gone `ACK_DELAY_MS` without acknowledgement.
    fn check_resends(&mut self, now: u64)
        requires
            old(self).wf(),
        ensures
            final(self).wf(),
            old(self).recv_window_start <= u32::MAX - BACKUPTICS ==> {
                let sent = resend_packets(old(self).recv_window_start, due_runs(old(self).recv_window@, now, 0));
                &&& final(self).outbox_spec() == old(self).outbox_spec() + sent + ack_due(old(self).need_acknowledge,
                    now, old(self).gamedata_recv_time, old(self).recv_window_start)
                &&& forall|i: int| 0 <= i < BACKUPTICS ==> (#[trigger] final(self).recv_window@[i]).resend_time
                    == if due(old(self).recv_window@, now, i) { now } else { old(self).recv_window@[i].resend_time }
            },
            final(self).state == old(self).state,
            final(self).recv_window_start == old(self).recv_window_start,
            final(self).delivered == old(self).delivered,
            final(self).connected == old(self).connected,
            final(self).settings == old(self).settings,
            final(self).send_queue == old(self).send_queue,
            forall|i: int| 0 <= i < BACKUPTICS ==>
                (#[trigger] final(self).recv_window@[i]).active == old(self).recv_window@[i].active,
            final(self).start_time == old(self).start_time,
            final(self).reject_reason == old(self).reject_reason,
            final(self).drone == old(self).drone,
            final(self).connect_drone == old(self).connect_drone,
            final(self).need_acknowledge == (old(self).need_acknowledge && !(elapsed(now, old(self).gamedata_recv_time) > ACK_DELAY_MS)),
    {
        let ghost win = self.recv_window@;
        let ghost out0 = self.outbox_spec();
        let ghost mut recorded: Seq<(int, int)> = Seq::empty();
        let w = self.recv_window_start as u64;
        let ghost fits = self.recv_window_start <= u32::MAX - BACKUPTICS;
        let mut run_start: i64 = -1;
        let mut run_end: i64 = -1;
        let mut i: usize = 0;
        while i < BACKUPTICS
            invariant
                self.drone == old(self).drone,
                self.connect_drone == old(self).connect_drone,
                self.start_time == old(self).start_time,
                self.reject_reason == old(self).reject_reason,
                i <= BACKUPTICS,
                self.wf(),
                -1 <= run_start <= run_end < i,
                run_start < 0 ==> run_end < i,
                w == self.recv_window_start,
                win == old(self).recv_window@,
                out0 == old(self).outbox_spec(),
                fits == (self.recv_window_start <= u32::MAX - BACKUPTICS),
                self.state == old(self).state,
                self.recv_window_start == old(self).recv_window_start,
                self.delivered == old(self).delivered,
                self.connected == old(self).connected,
                self.settings == old(self).settings,
                self.send_queue == old(self).send_queue,
                forall|k: int| 0 <= k < BACKUPTICS ==>
                    (#[trigger] self.recv_window@[k]).active == old(self).recv_window@[k].active,
                forall|k: int| i <= k < BACKUPTICS ==> #[trigger] self.recv_window@[k] == win[k],
                fits ==> forall|k: int| 0 <= k < BACKUPTICS ==> (#[trigger] self.recv_window@[k]).resend_time == if k < (
                    if run_start >= 0 { run_start as int } else { i as int }) && due(win, now, k) {
                    now
                } else {
                    win[k].resend_time
                },
                self.need_acknowledge == old(self).need_acknowledge,
                self.gamedata_recv_time == old(self).gamedata_recv_time,
                fits ==> self.outbox_spec() == out0 + resend_packets(self.recv_window_start, recorded),
                run_start < 0 ==> (i == 0 || !due(win, now, i - 1))
                    && due_runs(win, now, 0) == recorded + due_runs(win, now, i as int),
                run_start >= 0 ==> {
                    &&& run_end == i - 1
                    &&& due(win, now, run_start as int)
                    &&& (run_start == 0 || !due(win, now, run_start - 1))
                    &&& forall|k: int| run_start <= k < i ==> #[trigger] due(win, now, k)
                    &&& run_end_at(win, now, run_start as int) == run_end_at(win, now, i - 1)
                    &&& due_runs(win, now, 0) == recorded + seq![(run_start as int, run_end_at(win, now, run_start as int))]
                        + due_runs(win, now, i as int)
                },
            decreases BACKUPTICS - i,
        {
            let slot = self.recv_window[i];
            let need_resend = !slot.active && elapsed_ms(now, slot.resend_time) > RESEND_TIMEOUT_MS;
            assert(need_resend == due(win, now, i as int));
            if need_resend {
                if run_start < 0 {
                    run_start = i as i64;
                    proof {
                        assert(due_runs(win, now, i as int) == seq![(i as int, run_end_at(win, now, i as int))]
                            + due_runs(win, now, i + 1));
                        assert(due_runs(win, now, 0) == recorded + seq![(run_start as int, run_end_at(win, now, run_start as int))]
                            + due_runs(win, now, i + 1));
                    }
                } else {
                    proof {
                        assert(due_runs(win, now, i as int) == due_runs(win, now, i + 1));
                        assert(run_end_at(win, now, i - 1) == run_end_at(win, now, i as int));
                    }
                }
                run_end = i as i64;
            } else {
                if run_start >= 0 {
                    let ghost rs = run_start as int;
                    proof {
                        assert(run_end_at(win, now, i - 1) == i - 1);
                    }
                    if w + (run_end as u64) <= u32::MAX as u64 {
                        self.send_resend_request((w + run_start as u64) as u32, (w + run_end as u64) as u32, now);
                    }
                    proof {
                        let before = recorded;
                        recorded = recorded.push((rs, i - 1));
                        assert(seq![(rs, run_end_at(win, now, rs))] == seq![(rs, i - 1)]);
                        assert(before + seq![(rs, i - 1)] == recorded);
                        if fits {
                            assert(resend_packets(self.recv_window_start, recorded)
                                == resend_packets(self.recv_window_start, before).push(
                                    resend_request_packet((w + rs) as u32, (w + i - 1) as u32)));
                        }
                    }
                    run_start = -1;
                    run_end = -1;
                }
                proof {
                    assert(due_runs(win, now, i as int) == due_runs(win, now, i + 1));
                }
            }
            i = i + 1;
        }
        if run_start >= 0 {
            let ghost rs = run_start as int;
            if w + (run_end as u64) <= u32::MAX as u64 {
                self.send_resend_request((w + run_start as u64) as u32, (w + run_end as u64) as u32, now);
            }
            proof {
                let before = recorded;
                recorded = recorded.push((rs, BACKUPTICS - 1));
                assert(run_end_at(win, now, BACKUPTICS - 1) == BACKUPTICS - 1);
                if fits {
                    assert(resend_packets(self.recv_window_start, recorded)
                        == resend_packets(self.recv_window_start, before).push(
                            resend_request_packet((w + rs) as u32, (w + BACKUPTICS - 1) as u32)));
                }
            }
        }
        proof {
            assert(due_runs(win, now, BACKUPTICS as int) == Seq::<(int, int)>::empty());
            assert(recorded + Seq::<(int, int)>::empty() == recorded);
        }
        let ghost mid = self.outbox_spec();
        if self.need_acknowledge && elapsed_ms(now, self.gamedata_recv_time) > ACK_DELAY_MS {
            self.send_game_data_ack(now);
        }
        assert(self.outbox_spec() =~= mid + ack_due(old(self).need_acknowledge, now, old(self).gamedata_recv_time,
            old(self).recv_window_start));
    }

    /// Sends a keepalive when connected or in game with no outbound traffic
    /// for more than `KEEPALIVE_PERIOD_MS`.
    fn send_keepalive(&mut self, now: u64)
        requires
            old(self).wf(),
        ensures
            final(self).wf(),
            if (old(self).state == ClientState::Connected || old(self).state == ClientState::InGame)
                && elapsed(now, old(self).last_send_time) > KEEPALIVE_PERIOD_MS {
                &&& final(self).outbox_spec() == old(self).outbox_spec().push(
                    game_data_ack_packet(old(self).recv_window_start))
                &&& final(self).last_send_time == now
            } else {
                final(self).outbox_spec() == old(self).outbox_spec() && final(self).last_send_time
                    == old(self).last_send_time
            },
            final(self).state == old(self).state,
            final(self).recv_window == old(self).recv_window,
            final(self).recv_window_start == old(self).recv_window_start,
            final(self).delivered == old(self).delivered,
            final(self).connected == old(self).connected,
            final(self).settings == old(self).settings,
            final(self).send_queue == old(self).send_queue,
            final(self).start_time == old(self).start_time,
            final(self).reject_reason == old(self).reject_reason,
            final(self).drone == old(self).drone,
            final(self).connect_drone == old(self).connect_drone,
            final(self).need_acknowledge == old(self).need_acknowledge,
            final(self).gamedata_recv_time == old(self).gamedata_recv_time,
    {
        if (self.state == ClientState::Connected || self.state == ClientState::InGame)
            && elapsed_ms(now, self.last_send_time) > KEEPALIVE_PERIOD_MS {
            let mut packet = Packet::new();
            packet.write_u16(PacketType::GameDataAck.to_u16());
            packet.write_u8((self.recv_window_start % 256) as u8);
            assert(packet.data@ =~= game_data_ack_packet(self.recv_window_start));
            self.send_packet(packet, now);
        }
    }

    /// Ends the session.
    fn shutdown(&mut self)
        requires
            old(self).wf(),
        ensures
            final(self).wf(),
            final(self).state == ClientState::Disconnected,
            !final(self).connected,
            final(self).outbox == old(self).outbox,
            final(self).reject_reason == old(self).reject_reason,
            final(self).recv_window_start == old(self).recv_window_start,
            final(self).delivered == old(self).delivered,
            final(self).start_time == old(self).start_time,
            final(self).drone == old(self).drone,
            final(self).connect_drone == old(self).connect_drone,
            final(self).connect_data == old(self).connect_data,
            final(self).num_retries == old(self).num_retries,
            final(self).last_send_time == old(self).last_send_time,
            final(self).settings == old(self).settings,
            final(self).cycles_this_attempt == old(self).cycles_this_attempt,
    {
        self.state = ClientState::Disconnected;
        self.connected = false;
    }

    /// The time-driven part of the state machine: connection and disconnection
    /// timeouts, the waiting room, and delivery of completed tics.
    fn handle_state(&mut self, now: u64)
        requires
            old(self).wf(),
        ensures
            final(self).wf(),
            final(self).recv_window_start >= old(self).recv_window_start,
            final(self).state == timed_state(old(self).state, elapsed(now, old(self).start_time)),
            old(self).state == ClientState::Connecting && final(self).state == ClientState::Disconnected
                ==> final(self).reject_reason is Some,
            final(self).state == ClientState::Disconnected && old(self).state != ClientState::Disconnected
                ==> !final(self).connected,
            old(self).state == ClientState::InGame && final(self).recv_window_start < u32::MAX
                ==> !final(self).recv_window@[0].active,
            final(self).delivered@.len() - old(self).delivered@.len() == final(self).recv_window_start
                - old(self).recv_window_start,
            final(self).start_time == old(self).start_time,
            final(self).connected ==> old(self).connected,
            final(self).drone == old(self).drone,
            final(self).connect_drone == old(self).connect_drone,
            old(self).state != ClientState::InGame ==> final(self).outbox == old(self).outbox && final(self).last_send_time == old(self).last_send_time && final(self).recv_window_start == old(self).recv_window_start,
            final(self).settings == old(self).settings,
            final(self).state == old(self).state ==> final(self).reject_reason == old(self).reject_reason,
            old(self).state == ClientState::InGame ==> final(self).state == ClientState::InGame && final(self).recv_window@ == shifted_window(old(self).recv_window@, final(self).recv_window_start - old(self).recv_window_start, now) && final(self).outbox == old(self).outbox && final(self).need_acknowledge == old(self).need_acknowledge && final(self).gamedata_recv_time == old(self).gamedata_recv_time && final(self).last_send_time == old(self).last_send_time,
    {
        match self.state {
            ClientState::Connecting => {
                if elapsed_ms(now, self.start_time) > CONNECT_TIMEOUT_MS {
                    self.reject_reason = Some("Connection attempt timed out".to_owned());
                    self.shutdown();
                }
            },
            ClientState::Connected | ClientState::WaitingLaunch => {
                self.waiting_for_launch = true;
            },
            ClientState::InGame => {
                self.advance_window(now);
            },
            ClientState::Disconnecting => {
                if elapsed_ms(now, self.start_time) > DISCONNECT_TIMEOUT_MS {
                    self.shutdown();
                }
            },
            _ => {},
        }
    }

    /// A drone in game keeps sending a bot's input for the tic at the far
    /// end of the window.
    fn run_bot(&mut self, now: u64)
        requires
            old(self).wf(),
        ensures
            final(self).wf(),
            final(self).state == old(self).state,
            final(self).recv_window_start == old(self).recv_window_start,
            final(self).delivered@ == old(self).delivered@,
            final(self).connected == old(self).connected,
            final(self).settings == old(self).settings,
            final(self).start_spec() == old(self).start_spec(),
            final(self).reason_spec() == old(self).reason_spec(),
            final(self).drone_spec() == old(self).drone_spec(),
            old(self).state != ClientState::InGame ==> final(self).outbox == old(self).outbox && final(self).last_send_time == old(self).last_send_time,
            final(self).pending_drone() == old(self).pending_drone(),
            !(old(self).state == ClientState::InGame && old(self).drone) ==> *final(self) == *old(self),
    {
        if self.state == ClientState::InGame && self.drone && self.recv_window_start <= u32::MAX - BACKUPTICS as u32 {
            let maketic = self.recv_window_start + BACKUPTICS as u32;
            let mut bot = TicCmd::default();
            bot.forwardmove = 50;
            self.send_ticcmd(&bot, maketic, now);
        }
    }

    /// One service cycle: the bot, timeouts and tic delivery, keepalive,
    /// and resend requests.
    pub fn run(&mut self, now: u64)
        requires
            old(self).wf(),
        ensures
            final(self).wf(),
            final(self).window_start() >= old(self).window_start(),
            final(self).connected_spec() ==> old(self).connected_spec(),
            final(self).drone_spec() == old(self).drone_spec(),
            final(self).delivered_spec().len() - old(self).delivered_spec().len() == final(self).window_start()
                - old(self).window_start(),
            final(self).state_spec() == timed_state(old(self).state_spec(), elapsed(now, old(self).start_spec())),
            old(self).state_spec() == ClientState::Connecting && final(self).state_spec() == ClientState::Disconnected
                ==> final(self).reason_spec() is Some,
            old(self).state_spec() == ClientState::InGame && final(self).window_start() < u32::MAX
                ==> !final(self).slot_active(0),
            old(self).state_spec() == ClientState::Connected ==> final(self).outbox_spec() == old(self).outbox_spec() + keepalive_due(now, old(self).last_send_spec(), old(self).window_start()),
            old(self).state_spec() == ClientState::Connected ==> final(self).last_send_spec() == if elapsed(now,
                old(self).last_send_spec()) > KEEPALIVE_PERIOD_MS {
                now
            } else {
                old(self).last_send_spec()
            },
            old(self).state_spec() != ClientState::InGame && old(self).state_spec() != ClientState::Connected
                ==> final(self).outbox_spec() == old(self).outbox_spec(),
            final(self).pending_drone() == old(self).pending_drone(),
            final(self).settings_spec() == old(self).settings_spec(),
            final(self).state_spec() == old(self).state_spec() ==> final(self).reason_spec() == old(self).reason_spec(),
            old(self).state_spec() == ClientState::InGame && !old(self).drone_spec() && final(self).window_start()
                <= u32::MAX - BACKUPTICS ==> final(self).outbox_spec() == old(self).outbox_spec() + keepalive_due(now,
                old(self).last_send_spec(), final(self).window_start()) + resend_packets(final(self).window_start(),
                due_runs(shifted_window(old(self).window_spec(), final(self).window_start() - old(self).window_start(),
                now), now, 0)) + ack_due(old(self).need_ack_spec(), now, old(self).recv_time_spec(),
                final(self).window_start()),
    {
        self.run_bot(now);
        self.handle_state(now);
        self.send_keepalive(now);
        if self.state == ClientState::InGame {
            self.check_resends(now);
        }
    }
}

// ---------------------------------------------------------------------
// The session state machine
// ---------------------------------------------------------------------

impl Client {
    /// Sends Ack with our protocol.
    fn send_ack(&mut self, now: u64)
        requires
            old(self).wf(),
        ensures
            final(self).wf(),
            final(self).outbox_spec() == old(self).outbox_spec().push(ack_packet()),
            final(self).state == old(self).state,
            final(self).recv_window_start == old(self).recv_window_start,
            final(self).delivered == old(self).delivered,
            final(self).connected == old(self).connected,
            final(self).settings == old(self).settings,
            final(self).reject_reason == old(self).reject_reason,
            final(self).drone == old(self).drone,
            final(self).connect_drone == old(self).connect_drone,
            final(self).recv_window == old(self).recv_window,
            final(self).send_queue == old(self).send_queue,
    {
        let mut packet = Packet::new();
        packet.write_u16(PacketType::Ack.to_u16());
        packet.write_protocol(Protocol::ChocolateDoom0);
        assert(packet.data@ =~= ack_packet());
        self.send_packet(packet, now);
    }

    /// Sends a packet that is only its type code.
    fn send_bare(&mut self, t: PacketType, now: u64)
        requires
            old(self).wf(),
        ensures
            final(self).wf(),
            final(self).outbox_spec() == old(self).outbox_spec().push(bare_packet(t)),
            final(self).state == old(self).state,
            final(self).recv_window_start == old(self).recv_window_start,
            final(self).delivered == old(self).delivered,
            final(self).connected == old(self).connected,
            final(self).settings == old(self).settings,
            final(self).reject_reason == old(self).reject_reason,
            final(self).drone == old(self).drone,
            final(self).connect_drone == old(self).connect_drone,
    {
        let mut packet = Packet::new();
        packet.write_u16(t.to_u16());
        self.send_packet(packet, now);
    }

    /// Reads the server's protocol list and picks the first protocol we
    /// speak.
    fn negotiate_protocol(packet: &mut Packet) -> (r: Option<Protocol>)
        ensures
            r matches Some(p) ==> p == Protocol::ChocolateDoom0,
            r is Some <==> list_offers_ours(old(packet).data@, old(packet).pos as int),
            final(packet).data@ == old(packet).data@,
    {
        let ghost b = packet.data@;
        let count = match packet.read_u8() {
            Some(n) => n,
            None => return None,
        };
        let mut i: u8 = 0;
        while i < count
            invariant
                packet.data@ == b,
                b == old(packet).data@,
                i <= count,
                list_offers_ours(b, old(packet).pos as int) == offers_ours(b, packet.pos as int, (count - i) as nat),
            decreases count - i,
        {
            let ghost p = packet.pos as int;
            proof {
                if dec_cstr(b, p) is None {
                    lemma_offers_none(b, p, (count - i) as nat);
                }
            }
            if packet.read_protocol() == Protocol::ChocolateDoom0 {
                return Some(Protocol::ChocolateDoom0);
            }
            i = i + 1;
        }
        None
    }

    /// The server's answer to our Syn: with a protocol in common the client
    /// is connected and acknowledges; without one the attempt ends.
    fn parse_syn(&mut self, packet: &mut Packet, now: u64)
        requires
            old(self).wf(),
        ensures
            final(self).wf(),
            old(self).state != ClientState::Connecting ==> final(self).state == old(self).state
                && final(self).outbox == old(self).outbox,
            old(self).state == ClientState::Connecting ==> final(self).state == ClientState::Connected
                || final(self).state == ClientState::Disconnected,
            old(self).state == ClientState::Connecting && final(self).state == ClientState::Connected
                ==> final(self).outbox_spec() == old(self).outbox_spec().push(ack_packet()),
            old(self).state == ClientState::Connecting ==> (final(self).state == ClientState::Connected
                <==> syn_offers_ours(old(packet).data@, old(packet).pos as int)),
            final(self).state == ClientState::Disconnected && old(self).state == ClientState::Connecting
                ==> !final(self).connected,
            final(self).recv_window_start == old(self).recv_window_start,
            final(self).delivered == old(self).delivered,
            final(self).connect_drone == old(self).connect_drone,
    {
        if self.state != ClientState::Connecting {
            return;
        }
        let _server_version = packet.read_safe_string();
        match Self::negotiate_protocol(packet) {
            Some(protocol) => {
                self.protocol = protocol;
                self.state = ClientState::Connected;
                self.send_ack(now);
            },
            None => {
                self.reject_reason = Some("No common protocol".to_owned());
                self.shutdown();
            },
        }
    }

    /// The server refused the connection: the attempt ends with its reason.
    fn parse_reject(&mut self, packet: &mut Packet)
        requires
            old(self).wf(),
        ensures
            final(self).wf(),
            old(self).state == ClientState::Connecting ==> match dec_cstr(old(packet).data@, old(packet).pos as int) {
                Some((text, _)) => final(self).state == ClientState::Disconnected && !final(self).connected
                    && (final(self).reject_reason matches Some(r) && r@ == safe_chars(utf8_lossy(text))),
                None => final(self).state == old(self).state,
            },
            final(self).outbox == old(self).outbox,
            final(self).recv_window_start == old(self).recv_window_start,
            final(self).delivered == old(self).delivered,
            old(self).state != ClientState::Connecting ==> final(self).state == old(self).state,
            final(self).connect_drone == old(self).connect_drone,
    {
        if self.state != ClientState::Connecting {
            return;
        }
        match packet.read_safe_string() {
            Some(msg) => {
                self.reject_reason = Some(msg);
                self.shutdown();
            },
            None => {},
        }
    }

    /// Lobby data: kept when it passes the checks, dropped otherwise.
    fn parse_waiting_data(&mut self, packet: &mut Packet)
        requires
            old(self).wf(),
        ensures
            final(self).wf(),
            final(self).state == old(self).state,
            final(self).outbox == old(self).outbox,
            final(self).recv_window_start == old(self).recv_window_start,
            final(self).delivered == old(self).delivered,
            final(self).connected == old(self).connected,
            final(self).drone == old(self).drone,
            final(self).connect_drone == old(self).connect_drone,
            match dec_wait_data(old(packet).data@, old(packet).pos as int) {
                Some((names, addrs, q)) => if wait_header_valid(old(packet).data@, old(packet).pos as int, old(self).drone) {
                    final(self).wait_data matches Some(w) && wait_data_is(w, old(packet).data@, old(packet).pos as int,
                        names, addrs, q)
                } else {
                    final(self).wait_data == old(self).wait_data
                },
                None => final(self).wait_data == old(self).wait_data,
            },
    {
        match packet.read_wait_data() {
            Some(w) => {
                if self.validate_wait_data(&w) {
                    self.max_players = w.max_players;
                    self.is_freedoom = w.is_freedoom;
                    self.wait_data = Some(w);
                    self.received_wait_data = true;
                }
            },
            None => {},
        }
    }

    /// The launch: the client now waits for the game to start, and answers.
    fn parse_launch(&mut self, packet: &mut Packet, now: u64)
        requires
            old(self).wf(),
        ensures
            final(self).wf(),
            old(self).state != ClientState::WaitingLaunch ==> final(self).state == old(self).state
                && final(self).outbox == old(self).outbox,
            old(self).state == ClientState::WaitingLaunch ==> if has_bytes(old(packet).data@, old(packet).pos as int, 1) {
                final(self).state == ClientState::WaitingStart
                    && final(self).outbox_spec() == old(self).outbox_spec().push(bare_packet(PacketType::Launch))
            } else {
                final(self).state == old(self).state
            },
            final(self).recv_window_start == old(self).recv_window_start,
            final(self).delivered == old(self).delivered,
            final(self).connect_drone == old(self).connect_drone,
    {
        if self.state != ClientState::WaitingLaunch {
            return;
        }
        match packet.read_u8() {
            Some(num_players) => {
                match &mut self.wait_data {
                    Some(w) => {
                        w.num_players = num_players as i32;
                    },
                    None => {},
                }
                self.state = ClientState::WaitingStart;
                self.send_bare(PacketType::Launch, now);
            },
            None => {},
        }
    }

    /// The game starts: with valid settings the client resets its windows,
    /// enters the game and acknowledges; invalid settings are dropped.
    fn parse_game_start(&mut self, packet: &mut Packet, now: u64)
        requires
            old(self).wf(),
        ensures
            final(self).wf(),
            old(self).state != ClientState::WaitingStart ==> final(self).state == old(self).state
                && final(self).outbox == old(self).outbox && final(self).recv_window_start
                == old(self).recv_window_start,
            final(self).state == ClientState::InGame && old(self).state != ClientState::InGame
                ==> final(self).recv_window_start == 0 && (final(self).settings matches Some(s)
                && settings_valid_for(s, final(self).drone)),
            old(self).state == ClientState::WaitingStart ==> if settings_decode(old(packet).data@, old(packet).pos as int)
                && settings_valid_for(settings_at(old(packet).data@, old(packet).pos as int), old(self).drone) {
                &&& final(self).state == ClientState::InGame
                &&& final(self).settings == Some(settings_at(old(packet).data@, old(packet).pos as int))
                &&& final(self).recv_window_start == 0
                &&& forall|i: int| 0 <= i < BACKUPTICS ==> !(#[trigger] final(self).recv_window@[i]).active
                &&& forall|i: int| 0 <= i < BACKUPTICS ==> !(#[trigger] final(self).send_queue@[i]).active
                &&& final(self).outbox_spec() == old(self).outbox_spec().push(ack_packet())
            } else {
                final(self).state == old(self).state
            },
            !(old(self).state == ClientState::WaitingStart && settings_decode(old(packet).data@, old(packet).pos as int)
                && settings_valid_for(settings_at(old(packet).data@, old(packet).pos as int), old(self).drone)) ==> {
                &&& final(self).state == old(self).state
                &&& final(self).settings == old(self).settings
                &&& final(self).recv_window == old(self).recv_window
                &&& final(self).send_queue == old(self).send_queue
                &&& final(self).recv_window_start == old(self).recv_window_start
                &&& final(self).outbox == old(self).outbox
            },
            final(self).delivered == old(self).delivered,
            final(self).connect_drone == old(self).connect_drone,
    {
        if self.state != ClientState::WaitingStart {
            return;
        }
        let ghost b = packet.data@;
        let ghost p = packet.pos as int;
        match packet.read_settings() {
            Some(settings) => {
                proof {
                    assert(settings_is(settings, b, p));
                    lemma_settings_unique(settings, settings_at(b, p), b, p);
                }
                if self.validate_game_settings(&settings) {
                    self.state = ClientState::InGame;
                    self.settings = Some(settings);
                    self.reset_windows(now);
                    self.lowres_turn = settings.lowres_turn;
                    if settings.consoleplayer >= 0 {
                        self.player_class = settings.player_classes[settings.consoleplayer as usize];
                    }
                    self.send_ack(now);
                }
            },
            None => {},
        }
    }

    /// A message from the server for the console: kept for the host.
    fn parse_console_message(&mut self, packet: &mut Packet)
        requires
            old(self).wf(),
        ensures
            final(self).wf(),
            final(self).state == old(self).state,
            final(self).outbox == old(self).outbox,
            final(self).recv_window_start == old(self).recv_window_start,
            final(self).delivered == old(self).delivered,
            match dec_cstr(old(packet).data@, old(packet).pos as int) {
                Some((text, _)) => final(self).messages_spec() == old(self).messages_spec().push(utf8_lossy(text)),
                None => final(self).messages == old(self).messages,
            },
            final(self).connect_drone == old(self).connect_drone,
    {
        match packet.read_string() {
            Some(msg) => {
                self.messages.push(msg);
                assert(self.messages_spec() =~= old(self).messages_spec().push(msg@));
            },
            None => {},
        }
    }

    /// Takes the console messages the server sent, oldest first.
    pub fn take_messages(&mut self) -> (r: Vec<String>)
        requires
            old(self).wf(),
        ensures
            final(self).wf(),
            r@.len() == old(self).messages_spec().len(),
            forall|i: int| 0 <= i < r@.len() ==> #[trigger] r@[i]@ == old(self).messages_spec()[i],
            final(self).messages_spec() == Seq::<Seq<char>>::empty(),
            final(self).state_spec() == old(self).state_spec(),
    {
        let mut r: Vec<String> = Vec::new();
        r.append(&mut self.messages);
        assert(self.messages_spec() =~= Seq::<Seq<char>>::empty());
        r
    }

    /// The server ends the session: acknowledge and disconnect.
    fn parse_disconnect(&mut self, now: u64)
        requires
            old(self).wf(),
        ensures
            final(self).wf(),
            final(self).state == ClientState::Disconnected,
            final(self).outbox_spec() == old(self).outbox_spec().push(bare_packet(PacketType::DisconnectAck)),
            final(self).recv_window_start == old(self).recv_window_start,
            final(self).delivered == old(self).delivered,
            !final(self).connected,
            final(self).connect_drone == old(self).connect_drone,
    {
        self.send_bare(PacketType::DisconnectAck, now);
        self.shutdown();
    }

    /// The server acknowledged our disconnect.
    fn parse_disconnect_ack(&mut self)
        requires
            old(self).wf(),
        ensures
            final(self).wf(),
            final(self).state == if old(self).state == ClientState::Disconnecting {
                ClientState::Disconnected
            } else {
                old(self).state
            },
            final(self).outbox == old(self).outbox,
            final(self).recv_window_start == old(self).recv_window_start,
            final(self).delivered == old(self).delivered,
            final(self).connect_drone == old(self).connect_drone,
    {
        if self.state == ClientState::Disconnecting {
            self.shutdown();
        }
    }

    /// Handles one datagram from the server. A packet of unknown type, or
    /// one too short to hold its type, changes nothing.
    pub fn handle_packet(&mut self, data: Vec<u8>, now: u64)
        requires
            old(self).wf(),
        ensures
            final(self).wf(),
            final(self).delivered_spec() == old(self).delivered_spec(),
            !frame_known(data@) ==> {
                &&& final(self).state_spec() == old(self).state_spec()
                &&& final(self).outbox_spec() == old(self).outbox_spec()
                &&& final(self).window_spec() == old(self).window_spec()
                &&& final(self).window_start() == old(self).window_start()
                &&& final(self).settings_spec() == old(self).settings_spec()
                &&& final(self).reason_spec() == old(self).reason_spec()
                &&& final(self).connected_spec() == old(self).connected_spec()
                &&& final(self).send_queue_spec() == old(self).send_queue_spec()
            },
            final(self).pending_drone() == old(self).pending_drone(),
            frame_is(data@, PacketType::Syn) && old(self).state_spec() == ClientState::Connecting
                ==> if syn_offers_ours(data@, payload_start(data@)) {
                final(self).state_spec() == ClientState::Connected
                    && final(self).outbox_spec() == old(self).outbox_spec().push(ack_packet())
            } else {
                final(self).state_spec() == ClientState::Disconnected && !final(self).connected_spec()
            },
            frame_is(data@, PacketType::Launch) && old(self).state_spec() == ClientState::WaitingLaunch
                ==> if data@.len() > payload_start(data@) {
                final(self).state_spec() == ClientState::WaitingStart
                    && final(self).outbox_spec() == old(self).outbox_spec().push(bare_packet(PacketType::Launch))
            } else {
                final(self).state_spec() == ClientState::WaitingLaunch
            },
            frame_is(data@, PacketType::GameStart) && old(self).state_spec() == ClientState::WaitingStart
                ==> if settings_decode(data@, payload_start(data@))
                && settings_valid_for(settings_at(data@, payload_start(data@)), old(self).drone_spec()) {
                &&& final(self).state_spec() == ClientState::InGame
                &&& final(self).settings_spec() == Some(settings_at(data@, payload_start(data@)))
                &&& final(self).window_start() == 0
                &&& forall|i: int| 0 <= i < BACKUPTICS ==> !#[trigger] final(self).slot_active(i)
                &&& forall|i: int| 0 <= i < BACKUPTICS ==> !(#[trigger] final(self).send_slot(i)).active
                &&& final(self).outbox_spec() == old(self).outbox_spec().push(ack_packet())
            } else {
                final(self).state_spec() == ClientState::WaitingStart
            },
            frame_is(data@, PacketType::GameStart) && !(old(self).state_spec() == ClientState::WaitingStart
                && settings_decode(data@, payload_start(data@)) && settings_valid_for(settings_at(data@,
                payload_start(data@)), old(self).drone_spec())) ==> {
                &&& final(self).state_spec() == old(self).state_spec()
                &&& final(self).settings_spec() == old(self).settings_spec()
                &&& final(self).window_spec() == old(self).window_spec()
                &&& final(self).send_queue_spec() == old(self).send_queue_spec()
                &&& final(self).window_start() == old(self).window_start()
                &&& final(self).outbox_spec() == old(self).outbox_spec()
            },
            frame_is(data@, PacketType::GameData) ==> {
                &&& final(self).window_start() == old(self).window_start()
                &&& final(self).state_spec() == old(self).state_spec()
                &&& final(self).settings_spec() == old(self).settings_spec()
                &&& old(self).state_spec() != ClientState::InGame ==> final(self).window_spec() == old(self).window_spec()
                    && final(self).outbox_spec() == old(self).outbox_spec()
                &&& old(self).state_spec() == ClientState::InGame ==> match dec_game_data(data@, payload_start(data@),
                    lowres_of(old(self).settings_spec())) {
                    None => final(self).window_spec() == old(self).window_spec()
                        && final(self).outbox_spec() == old(self).outbox_spec(),
                    Some((first, ts)) => game_data_handled(old(self).window_spec(), final(self).window_spec(),
                        old(self).outbox_spec(), final(self).outbox_spec(), old(self).window_start(), first, ts, now),
                }
            },
            frame_is(data@, PacketType::WaitingData) ==> final(self).state_spec() == old(self).state_spec()
                && final(self).outbox_spec() == old(self).outbox_spec() && match dec_wait_data(data@,
                payload_start(data@)) {
                Some((names, addrs, q)) => if wait_header_valid(data@, payload_start(data@), old(self).drone_spec()) {
                    final(self).wait_data_spec() matches Some(w) && wait_data_is(w, data@, payload_start(data@), names,
                        addrs, q)
                } else {
                    final(self).wait_data_spec() == old(self).wait_data_spec()
                },
                None => final(self).wait_data_spec() == old(self).wait_data_spec(),
            },
            frame_is(data@, PacketType::ConsoleMessage) ==> final(self).state_spec() == old(self).state_spec()
                && final(self).outbox_spec() == old(self).outbox_spec() && match dec_cstr(data@, payload_start(data@)) {
                Some((text, _)) => final(self).messages_spec() == old(self).messages_spec().push(utf8_lossy(text)),
                None => final(self).messages_spec() == old(self).messages_spec(),
            },
            frame_is(data@, PacketType::Disconnect) ==> final(self).state_spec() == ClientState::Disconnected
                && !final(self).connected_spec()
                && final(self).outbox_spec() == old(self).outbox_spec().push(bare_packet(PacketType::DisconnectAck)),
            frame_is(data@, PacketType::DisconnectAck) ==> final(self).state_spec() == if old(self).state_spec()
                == ClientState::Disconnecting {
                ClientState::Disconnected
            } else {
                old(self).state_spec()
            },
            frame_is(data@, PacketType::Rejected) && old(self).state_spec() == ClientState::Connecting
                ==> match dec_cstr(data@, payload_start(data@)) {
                Some((text, _)) => final(self).state_spec() == ClientState::Disconnected && !final(self).connected_spec()
                    && final(self).reason_spec() == Some(safe_chars(utf8_lossy(text)))
                    && final(self).outbox_spec() == old(self).outbox_spec(),
                None => final(self).state_spec() == ClientState::Connecting,
            },
    {
        let ghost d = data@;
        let mut packet = Packet { data, pos: 0 };
        let code = match packet.read_u16() {
            Some(c) => c,
            None => return,
        };
        let base = code & 0x7fff;
        proof {
            if code < 0x8000 {
                assert(code & 0x7fff == code && code & 0x8000 == 0) by (bit_vector)
                    requires code < 0x8000u16;
            }
        }
        if code & NET_RELIABLE_PACKET != 0 {
            if packet.read_u8().is_none() {
                return;
            }
        }
        let t = match PacketType::from_u16(base) {
            Some(t) => t,
            None => return,
        };
        assert(get_type_code(d) == packet_code(t));
        assert(packet.pos == payload_start(d));
        match t {
            PacketType::Syn => self.parse_syn(&mut packet, now),
            PacketType::Rejected => self.parse_reject(&mut packet),
            PacketType::WaitingData => self.parse_waiting_data(&mut packet),
            PacketType::Launch => self.parse_launch(&mut packet, now),
            PacketType::GameStart => self.parse_game_start(&mut packet, now),
            PacketType::GameData => {
                if self.state == ClientState::InGame {
                    self.parse_game_data(&mut packet, now);
                }
            },
            PacketType::GameDataResend => {
                if self.state == ClientState::InGame {
                    self.parse_resend_request(&mut packet, now);
                }
            },
            PacketType::ConsoleMessage => self.parse_console_message(&mut packet),
            PacketType::Disconnect => self.parse_disconnect(now),
            PacketType::DisconnectAck => self.parse_disconnect_ack(),
            _ => {},
        }
    }
}

/// Whether one of the `k` protocol names at `p` is ours.
pub open spec fn offers_ours(b: Seq<u8>, p: int, k: nat) -> bool
    decreases k,
{
    if k == 0 {
        false
    } else {
        match dec_cstr(b, p) {
            Some((name, q)) => name == protocol_name() || offers_ours(b, q, (k - 1) as nat),
            None => false,
        }
    }
}

/// Whether the protocol list at `p` (a count, then the names) offers ours.
pub open spec fn list_offers_ours(b: Seq<u8>, p: int) -> bool {
    match crate::packet::dec_u8(b, p) {
        Some((count, q)) => offers_ours(b, q, count as nat),
        None => false,
    }
}

/// Whether a Syn reply that starts at `p` (a version string, then the
/// protocol list) offers our protocol; a missing version string is skipped.
pub open spec fn syn_offers_ours(b: Seq<u8>, p: int) -> bool {
    match dec_cstr(b, p) {
        Some((_, q)) => list_offers_ours(b, q),
        None => list_offers_ours(b, p),
    }
}

proof fn lemma_offers_none(b: Seq<u8>, p: int, k: nat)
    requires
        dec_cstr(b, p) is None,
    ensures
        !offers_ours(b, p, k),
{
}

/// The state after the timeouts of a service cycle: a connection attempt
/// ends after `CONNECT_TIMEOUT_MS`, a disconnect after
/// `DISCONNECT_TIMEOUT_MS`; `waited` is the time since either began.
pub open spec fn timed_state(s: ClientState, waited: u64) -> ClientState {
    if s == ClientState::Connecting && waited > CONNECT_TIMEOUT_MS {
        ClientState::Disconnected
    } else if s == ClientState::Disconnecting && waited > DISCONNECT_TIMEOUT_MS {
        ClientState::Disconnected
    } else {
        s
    }
}

/// The keepalive a service cycle sends: one acknowledgement once more than
/// `KEEPALIVE_PERIOD_MS` have passed since the last outbound packet.
pub open spec fn keepalive_due(now: u64, last_send: u64, w: u32) -> Seq<Seq<u8>> {
    if elapsed(now, last_send) > KEEPALIVE_PERIOD_MS { seq![game_data_ack_packet(w)] } else { Seq::empty() }
}

/// The delayed acknowledgement a service cycle sends: one, when game data
/// waits for it and `ACK_DELAY_MS` have passed since it came.
pub open spec fn ack_due(need: bool, now: u64, recv_time: u64, w: u32) -> Seq<Seq<u8>> {
    if need && elapsed(now, recv_time) > ACK_DELAY_MS { seq![game_data_ack_packet(w)] } else { Seq::empty() }
}

/// Whether a packet is a reliable frame: its type code has the flag set.
pub open spec fn is_reliable(b: Seq<u8>) -> bool {
    get_le16_code(b) & NET_RELIABLE_PACKET != 0
}

/// Where a packet's body starts: after the type code, and after the
/// sequence number of a reliable frame.
pub open spec fn payload_start(b: Seq<u8>) -> int {
    if is_reliable(b) { 3 } else { 2 }
}

/// Whether a packet has a known type and its full header.
pub open spec fn frame_known(b: Seq<u8>) -> bool {
    b.len() >= 2 && b.len() >= payload_start(b) && get_type_code(b) <= 16
}

/// Whether a packet is a frame, plain or reliable, of type `t`.
pub open spec fn frame_is(b: Seq<u8>, t: PacketType) -> bool {
    b.len() >= 2 && b.len() >= payload_start(b) && get_type_code(b) == packet_code(t)
}

/// The type code of a packet with its reliable flag cleared.
pub open spec fn get_type_code(b: Seq<u8>) -> u16 {
    get_le16_code(b) & 0x7fff
}

/// The first two bytes of a packet, little-endian.
pub open spec fn get_le16_code(b: Seq<u8>) -> u16 {
    crate::packet::get_le16(b, 0)
}

// ---------------------------------------------------------------------
// Connecting, launching and leaving
// ---------------------------------------------------------------------

/// What a Syn begins with: its type, the magic number, the game
/// description, and our protocol list.
pub open spec fn syn_header() -> Seq<u8> {
    le16(packet_code(PacketType::Syn)) + le32(NET_MAGIC_NUMBER)
}

/// The game description a Syn carries, "Chocolate Doom 3.0.1".
pub open spec fn game_description() -> Seq<u8> {
    seq![67u8, 104, 111, 99, 111, 108, 97, 116, 101, 32, 68, 111, 111, 109, 32, 51, 46, 48, 46, 49]
}

fn game_description_bytes() -> (r: Vec<u8>)
    ensures
        r@ == game_description(),
{
    let r = vec![67u8, 104, 111, 99, 111, 108, 97, 116, 101, 32, 68, 111, 111, 109, 32, 51, 46, 48, 46, 49];
    assert(r@ == game_description());
    r
}

/// A whole Syn: type and magic number, the game description, our protocol
/// list, the connect data, and the player name, strings NUL-terminated.
pub open spec fn syn_packet(data: ConnectData, name: Seq<char>) -> Seq<u8> {
    syn_header() + cstring(game_description()) + seq![1u8] + cstring(protocol_name()) + enc_connect_data(data)
        + cstring(encode_utf8(name))
}

impl Client {
    /// Sends a Syn: magic number, game description, protocol list, connect
    /// data and player name.
    fn send_syn(&mut self, data: &ConnectData, now: u64)
        requires
            old(self).wf(),
        ensures
            final(self).wf(),
            final(self).outbox_spec() == old(self).outbox_spec().push(syn_packet(*data, old(self).player_name@)),
            final(self).state == old(self).state,
            final(self).recv_window_start == old(self).recv_window_start,
            final(self).delivered == old(self).delivered,
            final(self).connected == old(self).connected,
            final(self).reject_reason == old(self).reject_reason,
            final(self).start_time == old(self).start_time,
            final(self).num_retries == old(self).num_retries,
            final(self).drone == old(self).drone,
            final(self).connect_drone == old(self).connect_drone,
            final(self).player_name == old(self).player_name,
            final(self).cycles_this_attempt == old(self).cycles_this_attempt,
            final(self).connect_data == old(self).connect_data,
    {
        let mut packet = Packet::new();
        packet.write_u16(PacketType::Syn.to_u16());
        packet.write_u32(NET_MAGIC_NUMBER);
        let desc = game_description_bytes();
        packet.write_blob(desc.as_slice());
        packet.write_u8(0);
        packet.write_protocol_list();
        packet.write_connect_data(data);
        packet.write_string(self.player_name.as_str());
        assert(packet.data@ =~= syn_packet(*data, self.player_name@));
        self.send_packet(packet, now);
    }

    /// Starts connecting: the client sends its first Syn and waits for an
    /// answer. `connect_step` drives the rest of the handshake.
    pub fn connect(&mut self, data: ConnectData, now: u64)
        requires
            old(self).wf(),
        ensures
            final(self).wf(),
            final(self).state_spec() == ClientState::Connecting,
            final(self).reason_spec() is None,
            !final(self).connected_spec(),
            final(self).outbox_spec() == old(self).outbox_spec().push(syn_packet(data, old(self).name_spec())),
            final(self).syns_sent() == 1,
            final(self).cycles_spec() == 0,
            final(self).connect_data_spec() == data,
            final(self).pending_drone() == (data.drone != 0),
            final(self).start_spec() == now,
            final(self).delivered_spec() == old(self).delivered_spec(),
    {
        self.state = ClientState::Connecting;
        self.reject_reason = None;
        self.lowres_turn = data.lowres_turn;
        self.max_players = data.max_players;
        self.is_freedoom = data.is_freedoom;
        self.player_class = data.player_class;
        self.connect_drone = data.drone != 0;
        self.connected = false;
        self.received_wait_data = false;
        self.start_time = now;
        self.cycles_this_attempt = 0;
        self.num_retries = 1;
        self.connect_data = data;
        self.send_syn(&data, now);
    }

    /// Decides, after one service cycle, how the handshake goes on: done,
    /// refused, timed out, out of retries, a new Syn after ten unanswered
    /// cycles, or another cycle of waiting.
    pub fn connect_step(&mut self, now: u64) -> (r: ConnectProgress)
        requires
            old(self).wf(),
        ensures
            final(self).wf(),
            old(self).state_spec() == ClientState::Connected ==> r == ConnectProgress::Connected
                && final(self).state_spec() == ClientState::WaitingLaunch && final(self).connected_spec()
                && final(self).reason_spec() is None && final(self).drone_spec() == old(self).pending_drone()
                && final(self).outbox_spec() == old(self).outbox_spec(),
            r == ConnectProgress::Retry ==> old(self).syns_sent() < MAX_RETRIES && final(self).syns_sent()
                == old(self).syns_sent() + 1 && final(self).outbox_spec() == old(self).outbox_spec().push(
                syn_packet(old(self).connect_data_spec(), old(self).name_spec())),
            r == ConnectProgress::Pending ==> final(self).outbox_spec() == old(self).outbox_spec()
                && final(self).syns_sent() == old(self).syns_sent(),
            old(self).state_spec() == ClientState::Connecting && old(self).syns_sent() >= MAX_RETRIES
                ==> r != ConnectProgress::Retry,
            final(self).pending_drone() == old(self).pending_drone(),
            old(self).state_spec() != ClientState::Connected && old(self).state_spec() != ClientState::Connecting
                ==> r == ConnectProgress::Rejected && final(self).state_spec() == old(self).state_spec(),
            r == ConnectProgress::TimedOut || r == ConnectProgress::RetriesExhausted
                ==> final(self).state_spec() == ClientState::Disconnected && final(self).reason_spec() is Some,
            r == ConnectProgress::Pending || r == ConnectProgress::Retry ==> final(self).state_spec()
                == ClientState::Connecting,
            r == ConnectProgress::Retry ==> final(self).outbox_spec().len() == old(self).outbox_spec().len() + 1,
            r == ConnectProgress::RetriesExhausted ==> old(self).syns_sent() >= MAX_RETRIES,
            r == ConnectProgress::Rejected ==> final(self).reason_spec() == old(self).reason_spec()
                && final(self).outbox_spec() == old(self).outbox_spec(),
            old(self).state_spec() == ClientState::Connecting && elapsed(now, old(self).start_spec())
                > CONNECT_TIMEOUT_MS ==> r == ConnectProgress::TimedOut,
            old(self).state_spec() == ClientState::Connecting && !(elapsed(now, old(self).start_spec())
                > CONNECT_TIMEOUT_MS) ==> if old(self).cycles_spec() + 1 < SERVICE_CYCLES_PER_ATTEMPT {
                r == ConnectProgress::Pending && final(self).cycles_spec() == old(self).cycles_spec() + 1
            } else if old(self).syns_sent() < MAX_RETRIES {
                r == ConnectProgress::Retry && final(self).cycles_spec() == 0
            } else {
                r == ConnectProgress::RetriesExhausted
            },
            final(self).start_spec() == old(self).start_spec(),
            final(self).delivered_spec() == old(self).delivered_spec(),
    {
        if self.state == ClientState::Connected {
            self.reject_reason = None;
            self.state = ClientState::WaitingLaunch;
            self.drone = self.connect_drone;
            self.connected = true;
            return ConnectProgress::Connected;
        }
        if self.state != ClientState::Connecting {
            return ConnectProgress::Rejected;
        }
        if elapsed_ms(now, self.start_time) > CONNECT_TIMEOUT_MS {
            self.reject_reason = Some("Connection attempt timed out".to_owned());
            self.shutdown();
            return ConnectProgress::TimedOut;
        }
        if self.cycles_this_attempt < SERVICE_CYCLES_PER_ATTEMPT - 1 {
            self.cycles_this_attempt = self.cycles_this_attempt + 1;
            return ConnectProgress::Pending;
        }
        if self.num_retries >= MAX_RETRIES {
            self.reject_reason = Some("No answer from the server".to_owned());
            self.shutdown();
            return ConnectProgress::RetriesExhausted;
        }
        let data = self.connect_data;
        self.send_syn(&data, now);
        self.num_retries = self.num_retries + 1;
        self.cycles_this_attempt = 0;
        ConnectProgress::Retry
    }

    /// Leaves the session gracefully: sends Disconnect five times and waits
    /// for the acknowledgement, or for `DISCONNECT_TIMEOUT_MS`.
    pub fn disconnect(&mut self, now: u64)
        requires
            old(self).wf(),
        ensures
            final(self).wf(),
            !old(self).connected_spec() ==> final(self).state_spec() == old(self).state_spec()
                && final(self).outbox_spec() == old(self).outbox_spec(),
            old(self).connected_spec() ==> final(self).state_spec() == ClientState::Disconnecting
                && final(self).outbox_spec().len() == old(self).outbox_spec().len() + DISCONNECT_REPEATS
                && forall|i: int| old(self).outbox_spec().len() <= i < final(self).outbox_spec().len()
                    ==> #[trigger] final(self).outbox_spec()[i] == bare_packet(PacketType::Disconnect),
            final(self).delivered_spec() == old(self).delivered_spec(),
    {
        if !self.connected {
            return;
        }
        self.state = ClientState::Disconnecting;
        self.start_time = now;
        let mut k: usize = 0;
        while k < DISCONNECT_REPEATS
            invariant
                k <= DISCONNECT_REPEATS,
                self.wf(),
                self.state == ClientState::Disconnecting,
                self.delivered == old(self).delivered,
                self.outbox_spec().len() == old(self).outbox_spec().len() + k,
                self.outbox_spec().subrange(0, old(self).outbox_spec().len() as int) == old(self).outbox_spec(),
                forall|i: int| old(self).outbox_spec().len() <= i < self.outbox_spec().len()
                    ==> #[trigger] self.outbox_spec()[i] == bare_packet(PacketType::Disconnect),
            decreases DISCONNECT_REPEATS - k,
        {
            let ghost before = self.outbox_spec();
            self.send_bare(PacketType::Disconnect, now);
            assert(self.outbox_spec().subrange(0, old(self).outbox_spec().len() as int)
                == before.subrange(0, old(self).outbox_spec().len() as int));
            k = k + 1;
        }
    }

    /// Starts a reliable frame of type `t` with the next reliable sequence
    /// number.
    fn new_reliable_packet(&mut self, t: PacketType) -> (r: Packet)
        ensures
            r.data@ == reliable_header(t, old(self).reliable_send_seq),
            r.pos == 0,
            final(self).reliable_send_seq == (old(self).reliable_send_seq + 1) % 256,
            final(self).state == old(self).state,
            final(self).outbox == old(self).outbox,
            final(self).recv_window == old(self).recv_window,
            final(self).send_queue == old(self).send_queue,
            final(self).pid == old(self).pid,
            final(self).delivered == old(self).delivered,
            final(self).recv_window_start == old(self).recv_window_start,
            final(self).connected == old(self).connected,
            final(self).last_ticcmd == old(self).last_ticcmd,
    {
        let mut packet = Packet::new();
        packet.write_u16(t.to_u16() | NET_RELIABLE_PACKET);
        packet.write_u8(self.reliable_send_seq);
        self.reliable_send_seq = self.reliable_send_seq.wrapping_add(1);
        assert(packet.data@ =~= reliable_header(t, old(self).reliable_send_seq));
        packet
    }

    /// Asks the server, as the controller, to launch the game.
    pub fn launch_game(&mut self, now: u64)
        requires
            old(self).wf(),
        ensures
            final(self).wf(),
            final(self).state_spec() == old(self).state_spec(),
            final(self).outbox_spec().len() == old(self).outbox_spec().len() + 1,
            final(self).outbox_spec().last().subrange(0, 2) == le16((packet_code(PacketType::Launch) | NET_RELIABLE_PACKET) as u16),
            final(self).delivered_spec() == old(self).delivered_spec(),
    {
        let packet = self.new_reliable_packet(PacketType::Launch);
        assert(packet.data@.subrange(0, 2) =~= le16((packet_code(PacketType::Launch) | NET_RELIABLE_PACKET) as u16));
        self.send_packet(packet, now);
    }

    /// Asks the server, as the controller, to start the game with these
    /// settings.
    pub fn start_game(&mut self, settings: &GameSettings, now: u64)
        requires
            old(self).wf(),
            0 <= settings.num_players <= NET_MAXPLAYERS,
        ensures
            final(self).wf(),
            final(self).state_spec() == old(self).state_spec(),
            final(self).last_sent() == zero_ticcmd(),
            final(self).outbox_spec().len() == old(self).outbox_spec().len() + 1,
            final(self).outbox_spec().last() == reliable_header(PacketType::GameStart, old(self).reliable_seq())
                + crate::packet::enc_settings(*settings),
            final(self).delivered_spec() == old(self).delivered_spec(),
    {
        self.last_ticcmd = TicCmd::default();
        let mut packet = self.new_reliable_packet(PacketType::GameStart);
        packet.write_settings(settings);
        self.send_packet(packet, now);
    }

    /// In the waiting room, asks for the launch with a reliable frame.
    pub fn request_launch(&mut self, now: u64)
        requires
            old(self).wf(),
        ensures
            final(self).wf(),
            final(self).state_spec() == old(self).state_spec(),
            old(self).state_spec() == ClientState::WaitingLaunch ==> final(self).outbox_spec()
                == old(self).outbox_spec().push(reliable_header(PacketType::Launch, old(self).reliable_seq())),
            old(self).state_spec() != ClientState::WaitingLaunch ==> final(self).outbox_spec()
                == old(self).outbox_spec(),
            final(self).delivered_spec() == old(self).delivered_spec(),
    {
        if self.state == ClientState::WaitingLaunch {
            let packet = self.new_reliable_packet(PacketType::Launch);
            self.send_packet(packet, now);
        }
    }
}

} // verus!
