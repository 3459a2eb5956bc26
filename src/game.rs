use vstd::prelude::*;
use crate::net_structs::{TicCmd, GameSettings, BACKUPTICS, NET_MAXPLAYERS};
use crate::client::{Client, TicSet};
use vstd::arithmetic::div_mod::{lemma_fundamental_div_mod, lemma_fundamental_div_mod_converse};

verus! {

/// Tics per second.
pub const TICRATE: u64 = 35;

/// Tics the consumer may wait for the network before it gives up for this
/// pass.
pub const MAX_NETGAME_STALL_TICS: i64 = 2;

/// The special-action bit of a command's buttons.
pub const BT_SPECIAL: u8 = 0x80;

/// Largest tic count the loop keeps.
pub const MAX_TIC: i64 = 0x1_0000_0000_0000;

/// Largest tic count the consumer keeps: `MAX_TIC` tics run `ticdup` times.
pub const MAX_GAMETIC: i64 = 0x100_0000_0000_0000;

/// Largest clock offset, in milliseconds, that the loop applies.
pub const MAX_OFFSET_MS: i64 = 0x1_0000_0000;

/// Latest wall-clock time, in milliseconds, that the loop accepts.
pub const MAX_TIME_MS: u64 = 0x1_0000_0000_0000;

/// Relies on `rand::random`: some value of the type; nothing more is known.
pub assume_specification<T>[ rand::random::<T> ]() -> (r: T)
    where
        rand::distributions::Standard: rand::distributions::Distribution<T>,
;

/// The wall-clock time in tics: milliseconds since the epoch, biased by the
/// controller's offset when new-sync is on, times `TICRATE` / 1000.
pub open spec fn adjusted_tics(now_ms: u64, offset_ms: i64, new_sync: bool) -> int {
    let t = now_ms + if new_sync { offset_ms as int } else { 0 };
    if t >= 0 { t * TICRATE / 1000 } else { 0 }
}

/// A tic count, capped at `MAX_TIC`.
pub open spec fn min_tic(n: int) -> int {
    if n > MAX_TIC { MAX_TIC as int } else { n }
}

/// A clock offset, kept within `MAX_OFFSET_MS`.
pub open spec fn clamp_offset(o: int) -> int {
    if o > MAX_OFFSET_MS {
        MAX_OFFSET_MS as int
    } else if o < -MAX_OFFSET_MS {
        -MAX_OFFSET_MS
    } else {
        o
    }
}

/// Wall-clock tics passed from `lasttime` to `nowtime`.
pub open spec fn new_tics(nowtime: int, lasttime: int) -> int {
    if nowtime > lasttime { nowtime - lasttime } else { 0 }
}

/// How many tics the producer should build: the tics passed, less the
/// tics the old sync asks to skip.
pub open spec fn build_budget(nowtime: int, lasttime: int, skip: int) -> int {
    if skip <= new_tics(nowtime, lasttime) { new_tics(nowtime, lasttime) - skip } else { 0 }
}

/// The tics still to skip afterwards.
pub open spec fn skip_after(nowtime: int, lasttime: int, skip: int) -> int {
    if skip <= new_tics(nowtime, lasttime) { 0 } else { skip - new_tics(nowtime, lasttime) }
}

/// Whether the producer may build a new tic: never as a drone; with
/// new-sync, not more than 2 ahead when disconnected and not more than 8
/// ahead ever; without it, fewer than 5 ahead.
pub open spec fn may_build(drone: bool, new_sync: bool, connected: bool, ahead: int) -> bool {
    if drone {
        false
    } else if new_sync {
        !(!connected && ahead > 2) && !(ahead > 8)
    } else {
        ahead < 5
    }
}

/// A command with its event fields squashed for a repeated tic.
pub open spec fn squashed(c: TicCmd) -> TicCmd {
    TicCmd { chatchar: 0, buttons: c.buttons & !BT_SPECIAL, ..c }
}

/// How a pass of the consumer ended.
#[derive(Debug, Clone, Copy, PartialEq, Eq, Structural)]
pub enum TickStep {
    /// Tics were run; take them with `take_ready_tics`.
    Ran,
    /// Not enough tics yet: sleep 1 ms and call `continue_tick` again.
    Wait,
    /// The network has stalled for `MAX_NETGAME_STALL_TICS`: return to the
    /// host and try again next pass.
    Stalled,
    /// The receive window went backwards: the session cannot go on.
    Fatal,
}

/// The loop driver: the producer clock `maketic`, the consumer clock
/// `gametic`, the tics received so far, and the tics built but not run.
pub struct Game {
    instance_uid: u32,
    ticdata: Vec<TicSet>,
    maketic: i64,
    recvtic: i64,
    gametic: i64,
    localplayer: usize,
    offsetms: i64,
    ticdup: i64,
    new_sync: bool,
    local_playeringame: [bool; NET_MAXPLAYERS],
    frameskip: [bool; 4],
    drone: bool,
    lasttime: i64,
    skiptics: i64,
    frameon: i64,
    oldnettics: i64,
    oldentertics: i64,
    enter_tic: i64,
    counts: i64,
    ready: Vec<TicSet>,
}

impl Game {
    /// The invariant: `BACKUPTICS` tic sets, tic counters within bounds,
    /// the consumer never ahead of the producer's range, `ticdup` at least 1.
    pub closed spec fn wf(&self) -> bool {
        &&& self.ticdata@.len() == BACKUPTICS
        &&& self.instance_uid < 0xfffe
        &&& 0 <= self.maketic <= MAX_TIC
        &&& 0 <= self.recvtic <= MAX_TIC
        &&& 0 <= self.gametic <= MAX_GAMETIC
        &&& 1 <= self.ticdup <= 255
        &&& self.localplayer < NET_MAXPLAYERS
        &&& -MAX_OFFSET_MS <= self.offsetms <= MAX_OFFSET_MS
        &&& 0 <= self.skiptics <= 1
        &&& 0 <= self.frameon <= MAX_TIC
        &&& 0 <= self.counts <= MAX_TIC
        &&& -MAX_TIC <= self.lasttime <= MAX_TIC
        &&& 0 <= self.enter_tic <= MAX_TIC
        &&& 0 <= self.oldentertics <= MAX_TIC
    }

    pub closed spec fn maketic_spec(&self) -> int {
        self.maketic as int
    }

    pub closed spec fn gametic_spec(&self) -> int {
        self.gametic as int
    }

    pub closed spec fn recvtic_spec(&self) -> int {
        self.recvtic as int
    }

    pub closed spec fn ticdup_spec(&self) -> int {
        self.ticdup as int
    }

    pub closed spec fn offset_spec(&self) -> i64 {
        self.offsetms
    }

    pub closed spec fn new_sync_spec(&self) -> bool {
        self.new_sync
    }

    pub closed spec fn drone_spec(&self) -> bool {
        self.drone
    }

    /// The wall-clock tic, divided by `ticdup`, up to which the producer has
    /// caught up.
    pub closed spec fn last_time_spec(&self) -> int {
        self.lasttime as int
    }

    /// The tic set kept in slot `i`.
    pub closed spec fn tic_slot(&self, i: int) -> TicSet {
        self.ticdata@[i]
    }

    /// The player this client inputs for.
    pub closed spec fn local_player(&self) -> int {
        self.localplayer as int
    }

    /// The last tic every participant's input is known for.
    pub open spec fn low_tic_spec(&self, connected: bool) -> int {
        if connected && self.recvtic_spec() < self.maketic_spec() { self.recvtic_spec() } else { self.maketic_spec() }
    }

    /// Whether there are players to run tics for.
    pub open spec fn players_spec(&self, connected: bool) -> bool {
        if connected {
            exists|i: int| 0 <= i < NET_MAXPLAYERS && self.local_ingame(i)
        } else {
            !self.drone_spec()
        }
    }

    /// Whether the pass can run its tics now: there are players, and the
    /// low tic covers all `counts` of them.
    pub open spec fn can_run(&self, connected: bool) -> bool {
        self.players_spec(connected) && self.low_tic_spec(connected) >= self.gametic_spec() / self.ticdup_spec()
            + self.counts_spec()
    }

    /// How many tics the current pass of the consumer runs.
    pub closed spec fn counts_spec(&self) -> int {
        self.counts as int
    }

    /// The old sync's pending skip.
    pub closed spec fn skip_spec(&self) -> int {
        self.skiptics as int
    }

    /// The wall-clock tic at which the current pass of the consumer began.
    pub closed spec fn enter_tic_spec(&self) -> int {
        self.enter_tic as int
    }

    /// Whether player `i` counts as in game locally.
    pub closed spec fn local_ingame(&self, i: int) -> bool {
        self.local_playeringame[i]
    }

    /// The tics run and not yet taken, oldest first.
    pub closed spec fn ready_spec(&self) -> Seq<TicSet> {
        self.ready@
    }

    /// A loop with nothing built, received or run.
    pub fn new() -> (r: Game)
        ensures
            r.wf(),
            r.maketic_spec() == 0,
            r.gametic_spec() == 0,
            r.recvtic_spec() == 0,
            r.ticdup_spec() == 1,
            r.ready_spec() == Seq::<TicSet>::empty(),
    {
        let uid: u32 = rand::random::<u32>() % 0xfffe;
        let mut ticdata: Vec<TicSet> = Vec::new();
        let mut i: usize = 0;
        while i < BACKUPTICS
            invariant
                i <= BACKUPTICS,
                ticdata@.len() == i,
            decreases BACKUPTICS - i,
        {
            ticdata.push(TicSet { cmds: [TicCmd::default(); NET_MAXPLAYERS], ingame: [false; NET_MAXPLAYERS] });
            i = i + 1;
        }
        Game {
            instance_uid: uid,
            ticdata,
            maketic: 0,
            recvtic: 0,
            gametic: 0,
            localplayer: 0,
            offsetms: 0,
            ticdup: 1,
            new_sync: true,
            local_playeringame: [false; NET_MAXPLAYERS],
            frameskip: [false; 4],
            drone: false,
            lasttime: 0,
            skiptics: 0,
            frameon: 0,
            oldnettics: 0,
            oldentertics: 0,
            enter_tic: 0,
            counts: 0,
            ready: Vec::new(),
        }
    }

    /// The number that tells this instance apart in the lobby.
    pub fn instance_uid(&self) -> (r: u32)
        requires
            self.wf(),
        ensures
            r < 0xfffe,
    {
        self.instance_uid
    }
}

impl Game {
    /// Takes the session's parameters: tic duplication, new-sync, the local
    /// player and whether this client is a drone. The players of the session
    /// count as in game.
    pub fn configure(&mut self, settings: &GameSettings, drone: bool)
        requires
            old(self).wf(),
        ensures
            final(self).wf(),
            final(self).ticdup_spec() == if 1 <= settings.ticdup <= 255 { settings.ticdup as int } else { 1 },
            final(self).new_sync_spec() == (settings.new_sync != 0),
            final(self).drone_spec() == drone,
            final(self).local_player() == if 0 <= settings.consoleplayer < NET_MAXPLAYERS {
                settings.consoleplayer as int
            } else {
                0
            },
            forall|i: int| 0 <= i < NET_MAXPLAYERS ==> #[trigger] final(self).local_ingame(i) == (i < settings.num_players),
            final(self).maketic_spec() == old(self).maketic_spec(),
            final(self).gametic_spec() == old(self).gametic_spec(),
    {
        self.ticdup = if 1 <= settings.ticdup && settings.ticdup <= 255 { settings.ticdup as i64 } else { 1 };
        self.new_sync = settings.new_sync != 0;
        self.drone = drone;
        self.localplayer = if 0 <= settings.consoleplayer && settings.consoleplayer < NET_MAXPLAYERS as i32 {
            settings.consoleplayer as usize
        } else {
            0
        };
        let ghost td = self.ticdup;
        let mut i: usize = 0;
        while i < NET_MAXPLAYERS
            invariant
                i <= NET_MAXPLAYERS,
                self.wf(),
                self.ticdup == td,
                self.maketic == old(self).maketic,
                self.gametic == old(self).gametic,
                self.new_sync == (settings.new_sync != 0),
                self.drone == drone,
                self.localplayer == (if 0 <= settings.consoleplayer < NET_MAXPLAYERS { settings.consoleplayer as int } else { 0 }),
                forall|j: int| 0 <= j < i ==> #[trigger] self.local_playeringame[j] == (j < settings.num_players),
            decreases NET_MAXPLAYERS - i,
        {
            self.local_playeringame[i] = (i as i32) < settings.num_players;
            i = i + 1;
        }
    }

    /// The wall-clock time in tics.
    pub fn get_adjusted_time(&self, now_ms: u64) -> (r: i64)
        requires
            self.wf(),
            now_ms <= MAX_TIME_MS,
        ensures
            r == adjusted_tics(now_ms, self.offset_spec(), self.new_sync_spec()),
            0 <= r <= MAX_TIC,
    {
        let t: i64 = now_ms as i64 + if self.new_sync { self.offsetms } else { 0 };
        if t >= 0 {
            assert(t * 35 / 1000 <= MAX_TIC) by (nonlinear_arith)
                requires 0 <= t <= MAX_TIME_MS + MAX_OFFSET_MS;
            t * 35 / 1000
        } else {
            0
        }
    }

    /// Takes the clock offset the controller computed.
    pub fn set_offset_ms(&mut self, offset_ms: i64)
        requires
            old(self).wf(),
        ensures
            final(self).wf(),
            final(self).offset_spec() == clamp_offset(offset_ms as int),
            final(self).enter_tic_spec() == old(self).enter_tic_spec(),
            final(self).maketic_spec() == old(self).maketic_spec(),
            final(self).gametic_spec() == old(self).gametic_spec(),
            final(self).recvtic_spec() == old(self).recvtic_spec(),
            final(self).ready_spec() == old(self).ready_spec(),
            final(self).ticdup_spec() == old(self).ticdup_spec(),
            final(self).counts_spec() == old(self).counts_spec(),
            final(self).new_sync_spec() == old(self).new_sync_spec(),
            final(self).local_player() == old(self).local_player(),
            final(self).last_time_spec() == old(self).last_time_spec(),
            final(self).skip_spec() == old(self).skip_spec(),
    {
        self.offsetms = if offset_ms > MAX_OFFSET_MS {
            MAX_OFFSET_MS
        } else if offset_ms < -MAX_OFFSET_MS {
            -MAX_OFFSET_MS
        } else {
            offset_ms
        };
    }

    /// The last tic every participant's input is known for: what we have
    /// built, and when connected also what we have received.
    pub fn get_low_tic(&self, connected: bool) -> (r: i64)
        ensures
            r == self.low_tic_spec(connected),
    {
        if connected && self.recvtic < self.maketic {
            self.recvtic
        } else {
            self.maketic
        }
    }

    /// Whether there are players to run tics for.
    pub fn players_in_game(&self, connected: bool) -> (r: bool)
        ensures
            r == self.players_spec(connected),
    {
        if connected {
            let mut i: usize = 0;
            while i < NET_MAXPLAYERS
                invariant
                    i <= NET_MAXPLAYERS,
                    connected,
                    forall|j: int| 0 <= j < i ==> !self.local_ingame(j),
                decreases NET_MAXPLAYERS - i,
            {
                if self.local_playeringame[i] {
                    assert(self.local_ingame(i as int));
                    return true;
                }
                i = i + 1;
            }
            false
        } else {
            !self.drone
        }
    }

    /// Builds the local input for tic `maketic` when the producer may run
    /// ahead that far: hands it to the client when connected and keeps it
    /// for the local player.
    pub fn build_new_tic(&mut self, client: &mut Client, cmd: &TicCmd, now: u64) -> (r: bool)
        requires
            old(self).wf(),
            old(client).wf(),
        ensures
            final(self).wf(),
            final(self).enter_tic_spec() == old(self).enter_tic_spec(),
            final(client).wf(),
            r == (may_build(old(client).drone_spec(), old(self).new_sync_spec(), old(client).connected_spec(),
                old(self).maketic_spec() - old(self).gametic_spec() / old(self).ticdup_spec())
                && old(self).maketic_spec() < MAX_TIC),
            r ==> {
                let i = old(self).maketic_spec() % BACKUPTICS as int;
                let set = final(self).tic_slot(i);
                &&& forall|j: int| 0 <= j < NET_MAXPLAYERS ==> #[trigger] set.cmds[j] == if j == old(self).local_player() {
                    *cmd
                } else {
                    old(self).tic_slot(i).cmds[j]
                }
                &&& forall|j: int| 0 <= j < NET_MAXPLAYERS ==> #[trigger] set.ingame[j] == (j == old(self).local_player()
                    || old(self).tic_slot(i).ingame[j])
                &&& forall|j: int| 0 <= j < BACKUPTICS && j != i ==> #[trigger] final(self).tic_slot(j) == old(self).tic_slot(j)
            },
            !r ==> forall|j: int| 0 <= j < BACKUPTICS ==> #[trigger] final(self).tic_slot(j) == old(self).tic_slot(j),
            old(client).connected_spec() && r && old(self).maketic_spec() <= u32::MAX ==> final(client).outbox_spec().len()
                == old(client).outbox_spec().len() + 1 && final(client).last_sent() == *cmd,
            final(self).local_player() == old(self).local_player(),
            final(self).ticdup_spec() == old(self).ticdup_spec(),
            final(self).new_sync_spec() == old(self).new_sync_spec(),
            final(self).offset_spec() == old(self).offset_spec(),
            final(self).last_time_spec() == old(self).last_time_spec(),
            final(self).counts_spec() == old(self).counts_spec(),
            final(client).drone_spec() == old(client).drone_spec(),
            final(self).maketic_spec() == old(self).maketic_spec() + if r { 1int } else { 0 },
            final(self).gametic_spec() == old(self).gametic_spec(),
            final(self).recvtic_spec() == old(self).recvtic_spec(),
            final(self).ready_spec() == old(self).ready_spec(),
            final(client).window_start() == old(client).window_start(),
            final(client).state_spec() == old(client).state_spec(),
            final(client).connected_spec() == old(client).connected_spec(),
            final(client).delivered_spec() == old(client).delivered_spec(),
            final(self).skip_spec() == old(self).skip_spec(),
            final(client).offset_spec() == old(client).offset_spec(),
            !r ==> final(client).outbox_spec() == old(client).outbox_spec(),
    {
        let gameticdiv = self.gametic / self.ticdup;
        let ahead = self.maketic - gameticdiv;
        let connected = client.is_connected();
        if client.is_drone() {
            return false;
        }
        if self.new_sync {
            if !connected && ahead > 2 {
                return false;
            }
            if ahead > 8 {
                return false;
            }
        } else if ahead >= 5 {
            return false;
        }
        if self.maketic >= MAX_TIC {
            return false;
        }
        if connected && self.maketic <= u32::MAX as i64 {
            client.send_ticcmd(cmd, self.maketic as u32, now);
        }
        let slot = (self.maketic % BACKUPTICS as i64) as usize;
        let mut set = self.ticdata[slot];
        set.cmds[self.localplayer] = *cmd;
        set.ingame[self.localplayer] = true;
        self.ticdata[slot] = set;
        self.maketic = self.maketic + 1;
        true
    }

    /// Stores a tic the client delivered: every player's command but the
    /// local player's own (unless a drone), then counts it received.
    pub fn receive_tic(&mut self, tic: &TicSet)
        requires
            old(self).wf(),
        ensures
            final(self).wf(),
            final(self).enter_tic_spec() == old(self).enter_tic_spec(),
            final(self).recvtic_spec() == old(self).recvtic_spec() + if old(self).recvtic_spec() < MAX_TIC { 1int } else { 0 },
            old(self).recvtic_spec() < MAX_TIC ==> forall|i: int| 0 <= i < NET_MAXPLAYERS ==> {
                let kept = final(self).tic_slot(old(self).recvtic_spec() % BACKUPTICS as int);
                let before = old(self).tic_slot(old(self).recvtic_spec() % BACKUPTICS as int);
                if old(self).drone_spec() || i != old(self).local_player() {
                    kept.cmds[i] == #[trigger] tic.cmds[i] && kept.ingame[i] == tic.ingame[i]
                } else {
                    kept.cmds[i] == before.cmds[i] && kept.ingame[i] == before.ingame[i]
                }
            },
            final(self).maketic_spec() == old(self).maketic_spec(),
            final(self).gametic_spec() == old(self).gametic_spec(),
            final(self).ready_spec() == old(self).ready_spec(),
            final(self).ticdup_spec() == old(self).ticdup_spec(),
            final(self).counts_spec() == old(self).counts_spec(),
            final(self).new_sync_spec() == old(self).new_sync_spec(),
            final(self).local_player() == old(self).local_player(),
            final(self).last_time_spec() == old(self).last_time_spec(),
            final(self).skip_spec() == old(self).skip_spec(),
            final(self).offset_spec() == old(self).offset_spec(),
    {
        if self.recvtic >= MAX_TIC {
            return;
        }
        let slot = (self.recvtic % BACKUPTICS as i64) as usize;
        let mut set = self.ticdata[slot];
        let ghost before = set;
        let mut i: usize = 0;
        while i < NET_MAXPLAYERS
            invariant
                i <= NET_MAXPLAYERS,
                self.localplayer < NET_MAXPLAYERS,
                forall|j: int| 0 <= j < NET_MAXPLAYERS ==> if j < i && (self.drone || j != self.localplayer) {
                    set.cmds[j] == tic.cmds[j] && set.ingame[j] == tic.ingame[j]
                } else {
                    set.cmds[j] == before.cmds[j] && set.ingame[j] == before.ingame[j]
                },
            decreases NET_MAXPLAYERS - i,
        {
            if self.drone || i != self.localplayer {
                set.cmds[i] = tic.cmds[i];
                set.ingame[i] = tic.ingame[i];
            }
            i = i + 1;
        }
        self.ticdata[slot] = set;
        self.recvtic = self.recvtic + 1;
    }

    /// Services the network and builds the local inputs that wall time calls
    /// for: as many as tics passed since the last update, less any tics the
    /// old sync asks to skip, stopping at the first refusal.
    pub fn net_update(&mut self, client: &mut Client, cmd: &TicCmd, now: u64)
        requires
            old(self).wf(),
            old(client).wf(),
            now <= MAX_TIME_MS,
        ensures
            final(self).wf(),
            final(client).wf(),
            final(self).enter_tic_spec() == old(self).enter_tic_spec(),
            final(self).gametic_spec() == old(self).gametic_spec(),
            final(self).ready_spec() == old(self).ready_spec(),
            final(self).ticdup_spec() == old(self).ticdup_spec(),
            final(self).counts_spec() == old(self).counts_spec(),
            final(self).new_sync_spec() == old(self).new_sync_spec(),
            final(self).local_player() == old(self).local_player(),
            final(client).window_start() >= old(client).window_start(),
            final(client).connected_spec() ==> old(client).connected_spec(),
            final(client).drone_spec() == old(client).drone_spec(),
            final(client).delivered_spec() == Seq::<TicSet>::empty(),
            final(self).recvtic_spec() == min_tic(old(self).recvtic_spec() + old(client).delivered_spec().len()
                + final(client).window_start() - old(client).window_start()),
            final(self).offset_spec() == clamp_offset(final(client).offset_spec() as int),
            final(self).last_time_spec() == adjusted_tics(now, final(self).offset_spec(), final(self).new_sync_spec())
                / final(self).ticdup_spec(),
            final(self).skip_spec() == skip_after(final(self).last_time_spec(), old(self).last_time_spec(),
                old(self).skip_spec()),
            old(self).maketic_spec() <= final(self).maketic_spec(),
            final(self).maketic_spec() - old(self).maketic_spec() <= build_budget(final(self).last_time_spec(),
                old(self).last_time_spec(), old(self).skip_spec()),
            final(self).maketic_spec() - old(self).maketic_spec() < build_budget(final(self).last_time_spec(),
                old(self).last_time_spec(), old(self).skip_spec()) ==> !(may_build(final(client).drone_spec(),
                final(self).new_sync_spec(), final(client).connected_spec(), final(self).maketic_spec()
                - final(self).gametic_spec() / final(self).ticdup_spec()) && final(self).maketic_spec() < MAX_TIC),
    {
        client.run(now);
        let ghost w_after = client.window_start();
        let delivered = client.take_delivered();
        assert(delivered@.len() == old(client).delivered_spec().len() + w_after - old(client).window_start());
        let mut k: usize = 0;
        while k < delivered.len()
            invariant
                self.wf(),
                k <= delivered@.len(),
                self.maketic == old(self).maketic,
                self.gametic == old(self).gametic,
                self.recvtic == min_tic(old(self).recvtic + k),
                self.ready@ == old(self).ready@,
                self.enter_tic == old(self).enter_tic,
                self.ticdup == old(self).ticdup,
                self.counts == old(self).counts,
                self.new_sync == old(self).new_sync,
                self.localplayer == old(self).localplayer,
                self.lasttime == old(self).lasttime,
                self.skiptics == old(self).skiptics,
            decreases delivered@.len() - k,
        {
            self.receive_tic(&delivered[k]);
            k = k + 1;
        }
        self.set_offset_ms(client.clock_offset_ms());
        let nowtime = self.get_adjusted_time(now) / self.ticdup;
        let oldtime = self.lasttime;
        let mut newtics: i64 = if nowtime > self.lasttime { nowtime - self.lasttime } else { 0 };
        self.lasttime = nowtime;
        if self.skiptics <= newtics {
            newtics = newtics - self.skiptics;
            self.skiptics = 0;
        } else {
            self.skiptics = self.skiptics - newtics;
            newtics = 0;
        }
        assert(newtics == build_budget(nowtime as int, oldtime as int, old(self).skiptics as int));
        assert(self.skiptics == skip_after(nowtime as int, oldtime as int, old(self).skiptics as int));
        let ghost skip_final = self.skiptics;
        let ghost off_final = self.offsetms;
        assert(nowtime == adjusted_tics(now, off_final, self.new_sync) / self.ticdup as int);
        let mut built: i64 = 0;
        let mut refused = false;
        while !refused && built < newtics
            invariant
                refused ==> !(may_build(client.drone_spec(), self.new_sync, client.connected_spec(),
                    self.maketic - self.gametic / self.ticdup) && self.maketic < MAX_TIC),
                self.wf(),
                client.wf(),
                0 <= built <= newtics,
                self.maketic == old(self).maketic + built,
                self.gametic == old(self).gametic,
                self.recvtic == min_tic(old(self).recvtic + delivered@.len()),
                self.ready@ == old(self).ready@,
                self.enter_tic == old(self).enter_tic,
                self.ticdup == old(self).ticdup,
                self.counts == old(self).counts,
                self.new_sync == old(self).new_sync,
                self.localplayer == old(self).localplayer,
                self.lasttime == nowtime,
                self.skiptics == skip_final,
                self.offsetms == off_final,
                nowtime == adjusted_tics(now, off_final, self.new_sync) / self.ticdup as int,
                newtics == build_budget(nowtime as int, oldtime as int, old(self).skiptics as int),
                oldtime == old(self).lasttime,
                client.window_start() == w_after,
                self.offsetms == clamp_offset(client.offset_spec() as int),
                client.window_start() >= old(client).window_start(),
                client.connected_spec() ==> old(client).connected_spec(),
                client.drone_spec() == old(client).drone_spec(),
                client.delivered_spec() == Seq::<TicSet>::empty(),
            decreases newtics - built + if refused { 0int } else { 1 },
        {
            if self.build_new_tic(client, cmd, now) {
                built = built + 1;
            } else {
                refused = true;
            }
        }
    }

    /// Starts the loop: the producer's clock begins now.
    pub fn start_loop(&mut self, now: u64)
        requires
            old(self).wf(),
            now <= MAX_TIME_MS,
        ensures
            final(self).wf(),
            final(self).last_time_spec() == adjusted_tics(now, old(self).offset_spec(), old(self).new_sync_spec())
                / old(self).ticdup_spec(),
            final(self).maketic_spec() == old(self).maketic_spec(),
            final(self).gametic_spec() == old(self).gametic_spec(),
    {
        self.lasttime = self.get_adjusted_time(now) / self.ticdup;
    }

    /// Takes the tics run since the last call, oldest first, for the
    /// simulation.
    pub fn take_ready_tics(&mut self) -> (r: Vec<TicSet>)
        requires
            old(self).wf(),
        ensures
            final(self).wf(),
            r@ == old(self).ready_spec(),
            final(self).ready_spec() == Seq::<TicSet>::empty(),
            final(self).maketic_spec() == old(self).maketic_spec(),
            final(self).gametic_spec() == old(self).gametic_spec(),
    {
        let mut r: Vec<TicSet> = Vec::new();
        r.append(&mut self.ready);
        assert(r@ =~= old(self).ready@);
        r
    }
}

impl Game {
    /// Leaves only the local player in game, for play without a server.
    pub fn single_player_clear(localplayer: usize, set: &mut TicSet)
        ensures
            final(set).cmds == old(set).cmds,
            forall|i: int| 0 <= i < NET_MAXPLAYERS ==> final(set).ingame[i] == (old(set).ingame[i] && i == localplayer),
    {
        let mut i: usize = 0;
        while i < NET_MAXPLAYERS
            invariant
                i <= NET_MAXPLAYERS,
                set.cmds == old(set).cmds,
                forall|j: int| 0 <= j < NET_MAXPLAYERS ==> set.ingame[j] == if j < i {
                    old(set).ingame[j] && j == localplayer
                } else {
                    old(set).ingame[j]
                },
            decreases NET_MAXPLAYERS - i,
        {
            if i != localplayer {
                set.ingame[i] = false;
            }
            i = i + 1;
        }
    }

    /// Squashes the event fields of each command before a tic is repeated:
    /// no chat character, and no special-action button.
    pub fn ticdup_squash(set: &mut TicSet)
        ensures
            final(set).ingame == old(set).ingame,
            forall|i: int| 0 <= i < NET_MAXPLAYERS ==> final(set).cmds[i] == squashed(old(set).cmds[i]),
    {
        let mut i: usize = 0;
        while i < NET_MAXPLAYERS
            invariant
                i <= NET_MAXPLAYERS,
                set.ingame == old(set).ingame,
                forall|j: int| 0 <= j < NET_MAXPLAYERS ==> set.cmds[j] == if j < i {
                    squashed(old(set).cmds[j])
                } else {
                    old(set).cmds[j]
                },
            decreases NET_MAXPLAYERS - i,
        {
            let mut c = set.cmds[i];
            c.chatchar = 0;
            c.buttons = c.buttons & !BT_SPECIAL;
            set.cmds[i] = c;
            i = i + 1;
        }
    }

    /// The old frame-skip heuristic: when another player is the key player,
    /// slow down while we are ahead, and skip a tic after four frames in a
    /// row found us ahead.
    fn old_net_sync(&mut self)
        requires
            old(self).wf(),
        ensures
            final(self).wf(),
            final(self).maketic == old(self).maketic,
            final(self).gametic == old(self).gametic,
            final(self).recvtic == old(self).recvtic,
            final(self).ready == old(self).ready,
            final(self).ticdup == old(self).ticdup,
            final(self).counts == old(self).counts,
            final(self).enter_tic == old(self).enter_tic,
            final(self).new_sync == old(self).new_sync,
            final(self).offsetms == old(self).offsetms,
    {
        if self.frameon < MAX_TIC {
            self.frameon = self.frameon + 1;
        }
        let mut keyplayer: usize = 0;
        let mut i: usize = 0;
        while i < NET_MAXPLAYERS
            invariant
                i <= NET_MAXPLAYERS,
                keyplayer < NET_MAXPLAYERS,
            decreases NET_MAXPLAYERS - i,
        {
            if self.local_playeringame[i] {
                keyplayer = i;
                break;
            }
            i = i + 1;
        }
        if self.localplayer != keyplayer {
            if self.maketic <= self.recvtic && self.lasttime > -MAX_TIC {
                self.lasttime = self.lasttime - 1;
            }
            let slot = (self.frameon % 4) as usize;
            self.frameskip[slot] = self.oldnettics > self.recvtic;
            self.oldnettics = self.maketic;
            if self.frameskip[0] && self.frameskip[1] && self.frameskip[2] && self.frameskip[3] {
                self.skiptics = 1;
            }
        }
    }

    /// Begins one pass of the consumer: services the network, works out how
    /// many tics to run, then goes on as `continue_tick` does.
    pub fn tick(&mut self, client: &mut Client, cmd: &TicCmd, now: u64) -> (r: TickStep)
        requires
            old(self).wf(),
            old(client).wf(),
            now <= MAX_TIME_MS,
        ensures
            final(self).wf(),
            final(client).wf(),
            final(self).enter_tic_spec() == adjusted_tics(now, old(self).offset_spec(), old(self).new_sync_spec())
                / old(self).ticdup_spec(),
            final(self).counts_spec() >= 1,
            final(self).maketic_spec() >= old(self).maketic_spec(),
            r == TickStep::Fatal <==> final(self).low_tic_spec(final(client).connected_spec())
                < old(self).gametic_spec() / old(self).ticdup_spec(),
            r == TickStep::Ran ==> final(self).gametic_spec() == old(self).gametic_spec() + final(self).counts_spec()
                * final(self).ticdup_spec() && final(self).ready_spec().len() == old(self).ready_spec().len()
                + final(self).counts_spec() * final(self).ticdup_spec(),
            r == TickStep::Ran ==> ran_from(*final(self), old(self).gametic_spec(), old(self).ready_spec(),
                final(client).connected_spec()) && final(self).low_tic_spec(final(client).connected_spec())
                >= old(self).gametic_spec() / old(self).ticdup_spec() + final(self).counts_spec(),
            r != TickStep::Fatal ==> final(self).gametic_spec() / final(self).ticdup_spec()
                <= final(self).low_tic_spec(final(client).connected_spec()),
            r != TickStep::Ran ==> final(self).gametic_spec() == old(self).gametic_spec() && final(self).ready_spec()
                == old(self).ready_spec(),
            r == TickStep::Wait || r == TickStep::Stalled ==> !final(self).can_run(final(client).connected_spec()),
            r == TickStep::Stalled ==> adjusted_tics(now, final(self).offset_spec(), final(self).new_sync_spec())
                / final(self).ticdup_spec() - final(self).enter_tic_spec() >= MAX_NETGAME_STALL_TICS,
            r == TickStep::Wait ==> adjusted_tics(now, final(self).offset_spec(), final(self).new_sync_spec())
                / final(self).ticdup_spec() - final(self).enter_tic_spec() < MAX_NETGAME_STALL_TICS,
    {
        let enter_tic = self.get_adjusted_time(now) / self.ticdup;
        self.net_update(client, cmd, now);
        let connected = client.is_connected();
        let lowtic = self.get_low_tic(connected);
        let available = lowtic - self.gametic / self.ticdup;
        let realtics = enter_tic - self.oldentertics;
        self.oldentertics = enter_tic;
        let mut counts: i64;
        if self.new_sync {
            counts = available;
        } else {
            if realtics < available - 1 {
                counts = realtics + 1;
            } else if realtics < available {
                counts = realtics;
            } else {
                counts = available;
            }
            if counts < 1 {
                counts = 1;
            }
            if connected {
                self.old_net_sync();
            }
        }
        if counts < 1 {
            counts = 1;
        }
        if counts > MAX_TIC {
            counts = MAX_TIC;
        }
        self.enter_tic = enter_tic;
        self.counts = counts;
        self.continue_tick(client, cmd, now)
    }

    /// Goes on with a pass of the consumer. When the tics it needs are all
    /// there it runs them, each `ticdup` times. Otherwise it services the
    /// network once: then it runs them if they have come, gives up with
    /// `Fatal` if the low tic has fallen below the consumer, and otherwise
    /// returns `Wait`, or `Stalled` once `MAX_NETGAME_STALL_TICS` have
    /// passed since the pass began.
    pub fn continue_tick(&mut self, client: &mut Client, cmd: &TicCmd, now: u64) -> (r: TickStep)
        requires
            old(self).wf(),
            old(client).wf(),
            now <= MAX_TIME_MS,
        ensures
            final(self).wf(),
            final(client).wf(),
            final(self).maketic_spec() >= old(self).maketic_spec(),
            final(self).counts_spec() == old(self).counts_spec(),
            final(self).ticdup_spec() == old(self).ticdup_spec(),
            final(self).enter_tic_spec() == old(self).enter_tic_spec(),
            old(self).can_run(old(client).connected_spec()) ==> r == TickStep::Ran && ran_pass(*old(self),
                *final(self), old(client).connected_spec()),
            r == TickStep::Fatal <==> final(self).low_tic_spec(final(client).connected_spec())
                < old(self).gametic_spec() / old(self).ticdup_spec(),
            r == TickStep::Ran ==> final(self).gametic_spec() == old(self).gametic_spec() + old(self).counts_spec()
                * old(self).ticdup_spec() && final(self).ready_spec().len() == old(self).ready_spec().len()
                + old(self).counts_spec() * old(self).ticdup_spec(),
            r == TickStep::Ran ==> ran_from(*final(self), old(self).gametic_spec(), old(self).ready_spec(),
                final(client).connected_spec()) && final(self).low_tic_spec(final(client).connected_spec())
                >= old(self).gametic_spec() / old(self).ticdup_spec() + old(self).counts_spec(),
            r != TickStep::Fatal ==> final(self).gametic_spec() / final(self).ticdup_spec()
                <= final(self).low_tic_spec(final(client).connected_spec()),
            r != TickStep::Ran ==> final(self).gametic_spec() == old(self).gametic_spec() && final(self).ready_spec()
                == old(self).ready_spec(),
            r == TickStep::Wait || r == TickStep::Stalled ==> !final(self).can_run(final(client).connected_spec()),
            r == TickStep::Stalled ==> adjusted_tics(now, final(self).offset_spec(), final(self).new_sync_spec())
                / final(self).ticdup_spec() - old(self).enter_tic_spec() >= MAX_NETGAME_STALL_TICS,
            r == TickStep::Wait ==> adjusted_tics(now, final(self).offset_spec(), final(self).new_sync_spec())
                / final(self).ticdup_spec() - old(self).enter_tic_spec() < MAX_NETGAME_STALL_TICS,
    {
        let connected = client.is_connected();
        if self.players_in_game(connected) && self.get_low_tic(connected) >= self.gametic / self.ticdup + self.counts {
            return self.run_counted_tics(connected);
        }
        self.net_update(client, cmd, now);
        let connected = client.is_connected();
        let lowtic = self.get_low_tic(connected);
        if lowtic < self.gametic / self.ticdup {
            return TickStep::Fatal;
        }
        if self.players_in_game(connected) && lowtic >= self.gametic / self.ticdup + self.counts {
            return self.run_counted_tics(connected);
        }
        if self.get_adjusted_time(now) / self.ticdup - self.enter_tic >= MAX_NETGAME_STALL_TICS {
            return TickStep::Stalled;
        }
        TickStep::Wait
    }

    /// Runs the pass's `counts` tics, each `ticdup` times: the tic set of
    /// each, with the other players taken out when not connected, and the
    /// event fields squashed on every repeat.
    fn run_counted_tics(&mut self, connected: bool) -> (r: TickStep)
        requires
            old(self).wf(),
            old(self).can_run(connected),
        ensures
            final(self).wf(),
            r == TickStep::Ran,
            ran_pass(*old(self), *final(self), connected),
            final(self).maketic == old(self).maketic,
            final(self).recvtic == old(self).recvtic,
            final(self).counts == old(self).counts,
            final(self).ticdup == old(self).ticdup,
            final(self).enter_tic == old(self).enter_tic,
            final(self).offsetms == old(self).offsetms,
            final(self).new_sync == old(self).new_sync,
            final(self).drone == old(self).drone,
            final(self).ticdata@ == old(self).ticdata@,
            final(self).localplayer == old(self).localplayer,
            final(self).gametic / final(self).ticdup == old(self).gametic / old(self).ticdup + old(self).counts,
    {
        let t = self.ticdup;
        let n = self.counts;
        let base = self.gametic / t;
        let ghost g0 = self.gametic as int;
        let ghost r0 = self.ready@;
        let ghost lp = self.localplayer as int;
        proof {
            assert(base + n <= MAX_TIC);
            assert(g0 < (base + 1) * t) by (nonlinear_arith) requires base == g0 / (t as int), t >= 1, g0 >= 0;
            assert(g0 + n * t <= MAX_GAMETIC) by (nonlinear_arith)
                requires g0 < (base + 1) * t, base + n <= MAX_TIC, 1 <= t <= 255, n >= 0;
        }
        let mut c: i64 = 0;
        while c < n
            invariant
                self.wf(),
                0 <= c <= n,
                n == self.counts,
                t == self.ticdup,
                base == g0 / (t as int),
                0 <= base,
                base + n <= MAX_TIC,
                g0 + n * t <= MAX_GAMETIC,
                lp == self.localplayer,
                self.ticdata@ == old(self).ticdata@,
                self.gametic == g0 + c * t,
                self.ready@.len() == r0.len() + c * t,
                self.ready@.subrange(0, r0.len() as int) == r0,
                forall|j: int| 0 <= j < c * t ==> ran_as(#[trigger] self.ready@[r0.len() + j],
                    old(self).ticdata@[(base + j / (t as int)) % BACKUPTICS as int], lp, connected, j % (t as int) != 0),
                self.maketic == old(self).maketic,
                self.recvtic == old(self).recvtic,
                self.enter_tic == old(self).enter_tic,
                self.offsetms == old(self).offsetms,
                self.new_sync == old(self).new_sync,
                self.drone == old(self).drone,
            decreases n - c,
        {
            let slot = ((base + c) % BACKUPTICS as i64) as usize;
            let s0 = self.ticdata[slot];
            let mut set = s0;
            if !connected {
                Self::single_player_clear(self.localplayer, &mut set);
            }
            let mut k: i64 = 0;
            while k < t
                invariant
                    self.wf(),
                    0 <= c < n,
                    0 <= k <= t,
                    n == self.counts,
                    t == self.ticdup,
                    base == g0 / (t as int),
                    g0 + n * t <= MAX_GAMETIC,
                    lp == self.localplayer,
                    s0 == old(self).ticdata@[(base + c) % BACKUPTICS as int],
                    self.ticdata@ == old(self).ticdata@,
                    self.gametic == g0 + c * t + k,
                    self.ready@.len() == r0.len() + c * t + k,
                    self.ready@.subrange(0, r0.len() as int) == r0,
                    ran_as(set, s0, lp, connected, k != 0),
                    forall|j: int| 0 <= j < c * t + k ==> ran_as(#[trigger] self.ready@[r0.len() + j],
                        old(self).ticdata@[(base + j / (t as int)) % BACKUPTICS as int], lp, connected, j % (t as int) != 0),
                    self.maketic == old(self).maketic,
                    self.recvtic == old(self).recvtic,
                    self.enter_tic == old(self).enter_tic,
                    self.offsetms == old(self).offsetms,
                    self.new_sync == old(self).new_sync,
                    self.drone == old(self).drone,
                decreases t - k,
            {
                proof {
                    assert((c + 1) * t <= n * t) by (nonlinear_arith) requires c + 1 <= n, t >= 1;
                    assert((c + 1) * t == c * t + t) by (nonlinear_arith);
                    assert(c * t + k < n * t);
                    lemma_fundamental_div_mod_converse((c * t + k) as int, t as int, c as int, k as int);
                }
                self.local_playeringame = set.ingame;
                let ghost before = self.ready@;
                self.ready.push(set);
                proof {
                    assert forall|j: int| 0 <= j < c * t + k + 1 implies ran_as(#[trigger] self.ready@[r0.len() + j],
                        old(self).ticdata@[(base + j / (t as int)) % BACKUPTICS as int], lp, connected, j % (t as int) != 0) by {
                        if j < c * t + k {
                            assert(self.ready@[r0.len() + j] == before[r0.len() + j]);
                        }
                    }
                    assert(self.ready@.subrange(0, r0.len() as int) == before.subrange(0, r0.len() as int));
                }
                self.gametic = self.gametic + 1;
                let ghost prev = set;
                Self::ticdup_squash(&mut set);
                proof {
                    lemma_squash_twice(s0, prev, set, lp, connected, k != 0);
                }
                k = k + 1;
            }
            proof {
                assert((c + 1) * t == c * t + t) by (nonlinear_arith);
            }
            c = c + 1;
        }
        proof {
            let ti = t as int;
            lemma_fundamental_div_mod(g0, ti);
            assert(g0 + n * ti == (g0 / ti + n) * ti + g0 % ti) by (nonlinear_arith)
                requires ti >= 1, g0 == ti * (g0 / ti) + g0 % ti;
            lemma_fundamental_div_mod_converse(g0 + n * ti, ti, g0 / ti + n, g0 % ti);
        }
        TickStep::Ran
    }
}

/// Squashing is idempotent, so every repeat of a tic runs the same
/// squashed set.
proof fn lemma_squash_twice(s0: TicSet, prev: TicSet, set: TicSet, lp: int, connected: bool, repeat: bool)
    requires
        ran_as(prev, s0, lp, connected, repeat),
        set.ingame == prev.ingame,
        forall|i: int| 0 <= i < NET_MAXPLAYERS ==> set.cmds[i] == squashed(prev.cmds[i]),
    ensures
        ran_as(set, s0, lp, connected, true),
{
    assert forall|i: int| 0 <= i < NET_MAXPLAYERS implies #[trigger] set.cmds[i] == squashed(s0.cmds[i])
        && set.ingame[i] == (s0.ingame[i] && (connected || i == lp)) by {
        let b = s0.cmds[i].buttons;
        assert((b & !BT_SPECIAL) & !BT_SPECIAL == b & !BT_SPECIAL) by (bit_vector);
        assert(prev.cmds[i] == if repeat { squashed(s0.cmds[i]) } else { s0.cmds[i] });
        assert(set.ingame[i] == prev.ingame[i]);
    }
}

/// `r` is tic set `s` as run: the other players taken out of the game when
/// not connected, and the event fields squashed on a repeat.
pub open spec fn ran_as(r: TicSet, s: TicSet, local: int, connected: bool, repeat: bool) -> bool {
    forall|i: int| 0 <= i < NET_MAXPLAYERS ==> {
        &&& #[trigger] r.cmds[i] == if repeat { squashed(s.cmds[i]) } else { s.cmds[i] }
        &&& r.ingame[i] == (s.ingame[i] && (connected || i == local))
    }
}

/// A pass ran into `b` from consumer tic `g0` and ready list `r0`: `b`'s
/// `counts` tics, each `ticdup` times, from `b`'s tic sets that follow
/// `g0 / ticdup`, in order.
pub open spec fn ran_from(b: Game, g0: int, r0: Seq<TicSet>, connected: bool) -> bool {
    let t = b.ticdup_spec();
    let n = b.counts_spec();
    let base = g0 / t;
    &&& b.gametic_spec() == g0 + n * t
    &&& b.ready_spec().len() == r0.len() + n * t
    &&& b.ready_spec().subrange(0, r0.len() as int) == r0
    &&& forall|j: int| 0 <= j < n * t ==> ran_as(#[trigger] b.ready_spec()[r0.len() + j], b.tic_slot(
        (base + j / t) % BACKUPTICS as int), b.local_player(), connected, j % t != 0)
}

/// A pass ran from `a` to `b`: `counts` tics, each `ticdup` times, from the
/// tic sets that follow `gametic / ticdup`.
pub open spec fn ran_pass(a: Game, b: Game, connected: bool) -> bool {
    let t = a.ticdup_spec();
    let n = a.counts_spec();
    let base = a.gametic_spec() / t;
    let r0 = a.ready_spec();
    &&& b.gametic_spec() == a.gametic_spec() + n * t
    &&& b.ready_spec().len() == r0.len() + n * t
    &&& b.ready_spec().subrange(0, r0.len() as int) == r0
    &&& forall|j: int| 0 <= j < n * t ==> ran_as(#[trigger] b.ready_spec()[r0.len() + j], a.tic_slot(
        (base + j / t) % BACKUPTICS as int), a.local_player(), connected, j % t != 0)
}

} // verus!
