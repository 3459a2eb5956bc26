use doomnet::client::{Client, ClientState, ConnectProgress, PidController, expand_tic_num};
use doomnet::game::{Game, TickStep};
use doomnet::net_structs::{ConnectData, FullTicCmd, GameSettings, TicCmd, TicDiff, NET_MAXPLAYERS};
use doomnet::packet::Packet;

fn connect_data() -> ConnectData {
    ConnectData {
        gamemode: 2,
        gamemission: 1,
        lowres_turn: 0,
        drone: 0,
        max_players: 8,
        is_freedoom: 0,
        wad_sha1sum: [7; 20],
        deh_sha1sum: [0; 20],
        player_class: 0,
    }
}

fn syn_reply() -> Vec<u8> {
    let mut p = Packet::new();
    p.write_u16(0);
    p.write_string("Chocolate Doom 3.0.1");
    p.write_u8(1);
    p.write_string("CHOCOLATE_DOOM_0");
    p.data
}

fn settings(num_players: i32, consoleplayer: i32) -> GameSettings {
    GameSettings {
        ticdup: 1,
        extratics: 1,
        deathmatch: 0,
        episode: 1,
        nomonsters: 0,
        fast_monsters: 0,
        respawn_monsters: 0,
        map: 1,
        skill: 2,
        gameversion: 4,
        lowres_turn: 0,
        new_sync: 1,
        timelimit: 0,
        loadgame: -1,
        random: 0,
        num_players,
        consoleplayer,
        player_classes: [0; NET_MAXPLAYERS],
    }
}

fn connected_client(now: u64) -> Client {
    let mut c = Client::new("Player1".to_string(), false);
    c.connect(connect_data(), now);
    c.handle_packet(syn_reply(), now);
    c.run(now);
    assert_eq!(c.connect_step(now), ConnectProgress::Connected);
    c
}

fn in_game_client(now: u64) -> Client {
    let mut c = connected_client(now);
    c.handle_packet(vec![15, 0, 2], now);
    assert_eq!(c.state(), ClientState::WaitingStart);
    let mut p = Packet::new();
    p.write_u16(5);
    p.write_settings(&settings(2, 0));
    c.handle_packet(p.data, now);
    assert_eq!(c.state(), ClientState::InGame);
    c.take_outgoing();
    c
}

/// A game-data packet from the server carrying tics `first..first+n`, in
/// which player 1 moves forward by the tic number.
fn game_data(first: u8, n: u8) -> Vec<u8> {
    let mut p = Packet::new();
    p.write_u16(6);
    p.write_u8(first);
    p.write_u8(n);
    for k in 0..n {
        let mut f = FullTicCmd {
            latency: 0,
            seq: 0,
            playeringame: [false; NET_MAXPLAYERS],
            cmds: [TicDiff::default(); NET_MAXPLAYERS],
        };
        f.playeringame[0] = true;
        f.playeringame[1] = true;
        f.cmds[1] = TicDiff { diff: 1, cmd: TicCmd { forwardmove: (first + k) as i8 + 1, ..TicCmd::default() } };
        p.write_full_ticcmd(&f, false);
    }
    p.data
}

#[test]
fn test_client_initialization() {
    let client = Client::new("Player1".to_string(), false);
    assert_eq!(client.player_name(), "Player1");
    assert!(!client.is_drone());
}

#[test]
fn init_fills_an_empty_name_only() {
    let mut c = Client::new(String::new(), false);
    c.init("Fluffy".to_string());
    assert_eq!(c.player_name(), "Fluffy");
    let mut d = Client::new("Max".to_string(), false);
    d.init("Fluffy".to_string());
    assert_eq!(d.player_name(), "Max");
}

#[test]
fn clean_handshake() {
    let mut c = Client::new("Player1".to_string(), false);
    c.connect(connect_data(), 0);
    let out = c.take_outgoing();
    assert_eq!(out.len(), 1);
    assert_eq!(&out[0][0..6], &[0, 0, 0x8c, 0xe1, 0xab, 0x56]);
    c.handle_packet(syn_reply(), 10);
    assert_eq!(c.state(), ClientState::Connected);
    c.run(10);
    assert_eq!(c.connect_step(10), ConnectProgress::Connected);
    assert_eq!(c.state(), ClientState::WaitingLaunch);
    assert!(c.is_connected());
    assert_eq!(c.get_reject_reason(), None);
    let out = c.take_outgoing();
    let mut ack = vec![1u8, 0];
    ack.extend_from_slice(b"CHOCOLATE_DOOM_0\0");
    assert_eq!(out[0], ack);
}

#[test]
fn rejection() {
    let mut c = Client::new("Player1".to_string(), false);
    c.connect(connect_data(), 0);
    let mut p = Packet::new();
    p.write_u16(2);
    p.write_string("server full");
    c.handle_packet(p.data, 5);
    assert_eq!(c.state(), ClientState::Disconnected);
    assert_eq!(c.get_reject_reason(), Some("server full"));
    assert_eq!(c.connect_step(5), ConnectProgress::Rejected);
}

#[test]
fn no_common_protocol_ends_the_attempt() {
    let mut c = Client::new("Player1".to_string(), false);
    c.connect(connect_data(), 0);
    let mut p = Packet::new();
    p.write_u16(0);
    p.write_string("x");
    p.write_u8(1);
    p.write_string("OTHER_PROTOCOL");
    c.handle_packet(p.data, 1);
    assert_eq!(c.state(), ClientState::Disconnected);
    assert_eq!(c.get_reject_reason(), Some("No common protocol"));
}

#[test]
fn handshake_times_out() {
    let mut c = Client::new("Player1".to_string(), false);
    c.connect(connect_data(), 0);
    assert_eq!(c.connect_step(30_001), ConnectProgress::TimedOut);
    assert_eq!(c.state(), ClientState::Disconnected);
    assert!(c.get_reject_reason().is_some());
}

#[test]
fn handshake_retries_then_gives_up() {
    let mut c = Client::new("Player1".to_string(), false);
    c.connect(connect_data(), 0);
    c.take_outgoing();
    let mut syns = 1;
    let mut last = ConnectProgress::Pending;
    for _ in 0..200 {
        last = c.connect_step(0);
        if last == ConnectProgress::Retry {
            syns += 1;
        }
        if last != ConnectProgress::Pending && last != ConnectProgress::Retry {
            break;
        }
    }
    assert_eq!(last, ConnectProgress::RetriesExhausted);
    assert_eq!(syns, 10);
    assert_eq!(c.take_outgoing().len(), 9);
}

#[test]
fn unknown_packet_type_changes_nothing() {
    let mut c = connected_client(0);
    c.take_outgoing();
    c.handle_packet(vec![99, 0, 1, 2], 1);
    c.handle_packet(vec![1], 1);
    assert_eq!(c.state(), ClientState::WaitingLaunch);
    assert!(c.take_outgoing().is_empty());
}

#[test]
fn invalid_settings_are_dropped() {
    let mut c = connected_client(0);
    c.handle_packet(vec![15, 0, 2], 0);
    let mut p = Packet::new();
    p.write_u16(5);
    p.write_settings(&settings(2, 2));
    c.handle_packet(p.data, 0);
    assert_eq!(c.state(), ClientState::WaitingStart);
    assert_eq!(c.get_settings(), None);
}

#[test]
fn lossy_delivery() {
    let mut c = in_game_client(0);
    c.handle_packet(game_data(0, 2), 10);
    c.run(10);
    c.take_outgoing();
    // tic 2 is lost: tics 3 and 4 arrive
    c.handle_packet(game_data(3, 2), 20);
    let out = c.take_outgoing();
    assert!(out.contains(&vec![11, 0, 2, 0, 0, 0, 1]));
    c.run(20);
    let early = c.take_delivered();
    assert_eq!(early.len(), 2);
    c.handle_packet(game_data(2, 1), 30);
    c.run(30);
    let late = c.take_delivered();
    assert_eq!(late.len(), 3);
    let all: Vec<_> = early.iter().chain(late.iter()).collect();
    for (k, set) in all.iter().enumerate() {
        assert_eq!(set.cmds[1].forwardmove, k as i8 + 1);
        assert!(set.ingame[1]);
    }
    assert_eq!(c.recv_window_start(), 5);
}

#[test]
fn missing_tics_are_asked_again_after_300_ms() {
    let mut c = in_game_client(0);
    c.take_outgoing();
    c.run(301);
    let out = c.take_outgoing();
    let resends: Vec<_> = out.iter().filter(|p| p[0] == 11).collect();
    assert_eq!(resends.len(), 1);
    assert_eq!(resends[0], &vec![11, 0, 0, 0, 0, 0, 128]);
}

#[test]
fn keepalive() {
    let mut c = Client::new("Player1".to_string(), false);
    c.connect(connect_data(), 0);
    c.handle_packet(syn_reply(), 0);
    assert_eq!(c.state(), ClientState::Connected);
    c.take_outgoing();
    let mut acks = 0;
    for now in (0..=3000u64).step_by(10) {
        c.run(now);
        acks += c.take_outgoing().iter().filter(|p| **p == vec![7, 0, 0]).count();
    }
    assert_eq!(acks, 2);
}

#[test]
fn graceful_disconnect() {
    let mut c = connected_client(0);
    c.take_outgoing();
    c.disconnect(100);
    assert_eq!(c.state(), ClientState::Disconnecting);
    let out = c.take_outgoing();
    assert_eq!(out, vec![vec![8u8, 0]; 5]);
    c.handle_packet(vec![9, 0], 200);
    assert_eq!(c.state(), ClientState::Disconnected);
}

#[test]
fn disconnect_times_out() {
    let mut c = connected_client(0);
    c.disconnect(100);
    c.run(5101);
    assert_eq!(c.state(), ClientState::Disconnected);
}

#[test]
fn server_disconnect_is_acknowledged() {
    let mut c = in_game_client(0);
    c.handle_packet(vec![8, 0], 1);
    assert_eq!(c.state(), ClientState::Disconnected);
    assert_eq!(c.take_outgoing(), vec![vec![9u8, 0]]);
}

#[test]
fn send_ticcmd_sends_extratics() {
    let mut c = in_game_client(0);
    let cmd = TicCmd { forwardmove: 5, ..TicCmd::default() };
    c.send_ticcmd(&cmd, 0, 1);
    c.send_ticcmd(&cmd, 1, 2);
    let out = c.take_outgoing();
    assert_eq!(out.len(), 2);
    // second packet: type, window start, first tic 0, two tics
    assert_eq!(&out[1][0..5], &[6, 0, 0, 0, 2]);
    // the first tic carries forwardmove, the second no change
    assert_eq!(&out[1][5..9], &[0, 0, 1, 5]);
    assert_eq!(&out[1][9..], &[0, 0, 0]);
}

#[test]
fn resend_request_from_server() {
    let mut c = in_game_client(0);
    let cmd = TicCmd { forwardmove: 5, ..TicCmd::default() };
    c.send_ticcmd(&cmd, 0, 1);
    c.take_outgoing();
    let mut p = Packet::new();
    p.write_u16(11);
    p.write_i32(0);
    p.write_u8(3);
    c.handle_packet(p.data, 2);
    let out = c.take_outgoing();
    assert_eq!(out.len(), 1);
    assert_eq!(&out[0][0..5], &[6, 0, 0, 0, 1]);
}

#[test]
fn expand_tic_numbers() {
    assert_eq!(expand_tic_num(0x3f, 0xff), -1);
    assert_eq!(expand_tic_num(0x1c0, 0x10), 0x210);
    assert_eq!(expand_tic_num(0x140, 0x30), 0x130);
    assert_eq!(expand_tic_num(0x1f5, 0xf0), 0x1f0);
    for w in [0u32, 1, 0x3f, 0x40, 0xb0, 0xb1, 0xff, 0x12345, 0x7fff_ffff] {
        for b in 0..=255u8 {
            let r = expand_tic_num(w, b);
            assert_eq!(r.rem_euclid(256), b as i64);
            assert!((r - w as i64).abs() <= 192);
        }
    }
}

#[test]
fn pid_controller_output() {
    let mut pid = PidController::new();
    // 0.1 * 100 - 0.01 * 100 + 0.02 * 100 = 11
    assert_eq!(pid.update(100), 11);
    // 0.1 * 100 - 0.01 * 200 + 0 = 8
    assert_eq!(pid.update(100), 8);
    // 0.1 * -50 - 0.01 * 150 + 0.02 * -150 = -9.5, toward zero
    assert_eq!(pid.update(-50), -9);
}

#[test]
fn stall_bound() {
    let start = 1_700_000_000_000u64;
    let mut c = in_game_client(start);
    let mut g = Game::new();
    g.configure(&settings(2, 0), false);
    g.start_loop(start);
    let cmd = TicCmd::default();
    let mut now = start;
    let mut step = g.tick(&mut c, &cmd, now);
    while step == TickStep::Wait {
        now += 1;
        step = g.continue_tick(&mut c, &cmd, now);
        assert!(now - start < 1000);
    }
    assert_eq!(step, TickStep::Stalled);
    assert!(now - start <= 2 * 1000 / 35 + 29);
}

#[test]
fn single_player_runs_tics() {
    let start = 1_700_000_000_000u64;
    let mut c = Client::new("Solo".to_string(), false);
    let mut g = Game::new();
    g.configure(&settings(1, 0), false);
    g.start_loop(start);
    let cmd = TicCmd { forwardmove: 3, ..TicCmd::default() };
    let mut ran = Vec::new();
    let mut now = start;
    for _ in 0..50 {
        now += 29;
        let mut step = g.tick(&mut c, &cmd, now);
        while step == TickStep::Wait {
            now += 1;
            step = g.continue_tick(&mut c, &cmd, now);
        }
        ran.extend(g.take_ready_tics());
    }
    assert!(!ran.is_empty());
    for set in &ran {
        assert_eq!(set.cmds[0].forwardmove, 3);
        assert!(set.ingame[0]);
        assert!(!set.ingame[1]);
    }
}

#[test]
fn console_messages_are_kept() {
    let mut c = connected_client(0);
    let mut p = Packet::new();
    p.write_u16(12);
    p.write_string("welcome");
    c.handle_packet(p.data, 1);
    assert_eq!(c.take_messages(), vec!["welcome".to_string()]);
    assert!(c.take_messages().is_empty());
}

#[test]
fn reliable_frames_are_understood() {
    let mut c = connected_client(0);
    c.handle_packet(vec![15, 0x80, 0, 2], 0);
    assert_eq!(c.state(), ClientState::WaitingStart);
}

#[test]
fn launch_requests_are_reliable() {
    let mut c = connected_client(0);
    c.take_outgoing();
    c.request_launch(1);
    c.request_launch(2);
    assert_eq!(c.take_outgoing(), vec![vec![15u8, 0x80, 0], vec![15u8, 0x80, 1]]);
}

#[test]
fn resend_requests_coalesce_runs() {
    let mut c = in_game_client(0);
    c.handle_packet(game_data(0, 2), 10);
    c.run(10);
    c.handle_packet(game_data(4, 1), 20);
    c.run(20);
    assert_eq!(c.recv_window_start(), 2);
    c.take_outgoing();
    c.run(400);
    let out = c.take_outgoing();
    let resends: Vec<_> = out.into_iter().filter(|p| p[0] == 11).collect();
    assert_eq!(resends, vec![vec![11, 0, 2, 0, 0, 0, 2], vec![11, 0, 5, 0, 0, 0, 125]]);
}

#[test]
fn short_game_data_is_dropped() {
    let mut c = in_game_client(0);
    let mut data = game_data(0, 3);
    data.truncate(data.len() - 2);
    c.handle_packet(data, 10);
    assert!(c.take_outgoing().is_empty());
    c.run(10);
    assert!(c.take_delivered().is_empty());
    assert_eq!(c.recv_window_start(), 0);
}

#[test]
fn reliable_game_start_is_understood() {
    let mut c = connected_client(0);
    c.handle_packet(vec![15, 0, 2], 0);
    let mut p = Packet::new();
    p.write_u16(5 | 0x8000);
    p.write_u8(0);
    p.write_settings(&settings(2, 0));
    c.handle_packet(p.data, 0);
    assert_eq!(c.state(), ClientState::InGame);
}

#[test]
fn valid_wait_data_is_kept_and_invalid_dropped() {
    let mut c = connected_client(0);
    c.take_outgoing();
    let mut p = Packet::new();
    p.write_u16(4);
    for b in [1u8, 0, 1, 4, 1, 0] {
        p.write_u8(b);
    }
    p.write_string("alice");
    p.write_string("10.0.0.1");
    p.write_blob(&[0; 41]);
    c.handle_packet(p.data, 1);
    assert_eq!(c.state(), ClientState::WaitingLaunch);
    assert!(c.take_outgoing().is_empty());
}

#[test]
fn drone_needs_console_player_minus_one() {
    let mut data = connect_data();
    data.drone = 1;
    let mut c = Client::new("Bot".to_string(), true);
    c.connect(data, 0);
    c.handle_packet(syn_reply(), 0);
    assert_eq!(c.connect_step(0), ConnectProgress::Connected);
    assert!(c.is_drone());
    c.handle_packet(vec![15, 0, 2], 0);
    let mut bad = settings(2, -2);
    bad.consoleplayer = -2;
    let mut p = Packet::new();
    p.write_u16(5);
    p.write_settings(&bad);
    c.handle_packet(p.data, 0);
    assert_eq!(c.state(), ClientState::WaitingStart);
    let mut q = Packet::new();
    q.write_u16(5);
    q.write_settings(&settings(2, -1));
    c.handle_packet(q.data, 0);
    assert_eq!(c.state(), ClientState::InGame);
}

#[test]
fn handshake_times_out_while_waiting() {
    let mut c = Client::new("Player1".to_string(), false);
    c.connect(connect_data(), 0);
    assert_eq!(c.connect_step(200), ConnectProgress::Pending);
    assert_eq!(c.connect_step(30_001), ConnectProgress::TimedOut);
    assert_eq!(c.get_reject_reason(), Some("Connection attempt timed out"));
    c.run(30_002);
    assert_eq!(c.get_reject_reason(), Some("Connection attempt timed out"));
}
