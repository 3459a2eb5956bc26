use doomnet::net_structs::{
    ConnectData, FullTicCmd, GameSettings, PacketType, Protocol, Skill, TicCmd, TicDiff, NET_MAXPLAYERS,
    NET_TICDIFF_CHATCHAR, NET_TICDIFF_TURN,
};
use doomnet::packet::Packet;
use doomnet::ticdiff::{apply_ticcmd_diff, calculate_ticcmd_diff};

fn packet_of(data: Vec<u8>) -> Packet {
    Packet { data, pos: 0 }
}

#[test]
fn integers_are_little_endian() {
    let mut p = Packet::new();
    p.write_u16(0x1234);
    p.write_i16(-2);
    p.write_u32(0x0102_0304);
    p.write_i32(-1);
    p.write_i8(-3);
    assert_eq!(p.data, vec![0x34, 0x12, 0xfe, 0xff, 4, 3, 2, 1, 0xff, 0xff, 0xff, 0xff, 0xfd]);
    assert_eq!(p.read_u16(), Some(0x1234));
    assert_eq!(p.read_i16(), Some(-2));
    assert_eq!(p.read_u32(), Some(0x0102_0304));
    assert_eq!(p.read_i32(), Some(-1));
    assert_eq!(p.read_i8(), Some(-3));
    assert_eq!(p.read_u8(), None);
    p.reset();
    assert_eq!(p.pos, 0);
    assert_eq!(p.read_u8(), Some(0x34));
}

#[test]
fn short_reads_fail_and_keep_the_cursor() {
    let mut p = packet_of(vec![1, 2, 3]);
    p.pos = 2;
    assert_eq!(p.read_u16(), None);
    assert_eq!(p.pos, 2);
    p.pos = 0;
    assert_eq!(p.read_u32(), None);
    assert_eq!(p.pos, 0);
}

#[test]
fn strings() {
    let mut p = Packet::new();
    p.write_string("hello");
    assert_eq!(p.data, b"hello\0".to_vec());
    assert_eq!(p.read_string(), Some("hello".to_string()));
    assert_eq!(p.pos, 6);
    let mut q = packet_of(b"no end".to_vec());
    assert_eq!(q.read_string(), None);
    assert_eq!(q.pos, 0);
}

#[test]
fn invalid_utf8_becomes_replacement_character() {
    let mut p = packet_of(vec![b'a', 0xff, b'b', 0]);
    assert_eq!(p.read_string(), Some("a\u{fffd}b".to_string()));
}

#[test]
fn safe_strings_keep_printable_and_whitespace() {
    let mut p = packet_of(vec![b'a', 1, b'\t', b' ', 0x7f, b'~', 0xff, 0]);
    assert_eq!(p.read_safe_string(), Some("a\t ~".to_string()));
}

#[test]
fn protocol_names() {
    let mut p = Packet::new();
    p.write_protocol_list();
    assert_eq!(p.data[0], 1);
    assert_eq!(&p.data[1..], b"CHOCOLATE_DOOM_0\0");
    p.pos = 1;
    assert_eq!(p.read_protocol(), Protocol::ChocolateDoom0);
    let mut q = packet_of(b"CHOCOLATE_DOOM_1\0".to_vec());
    assert_eq!(q.read_protocol(), Protocol::Unknown);
    assert_eq!(q.pos, 17);
    let mut r = packet_of(b"CHOC".to_vec());
    assert_eq!(r.read_protocol(), Protocol::Unknown);
    assert_eq!(r.pos, 0);
}

#[test]
fn packet_type_codes() {
    assert_eq!(PacketType::from_u16(0), Some(PacketType::Syn));
    assert_eq!(PacketType::from_u16(16), Some(PacketType::NatHolePunch));
    assert_eq!(PacketType::from_u16(17), None);
    assert_eq!(PacketType::GameDataResend.to_u16(), 11);
    for code in 0..=16u16 {
        assert_eq!(PacketType::from_u16(code).unwrap().to_u16(), code);
    }
    assert_eq!(Skill::NoItems.value(), -1);
    assert_eq!(Skill::Nightmare.value(), 4);
}

#[test]
fn connect_data_layout() {
    let data = ConnectData {
        gamemode: 2,
        gamemission: 1,
        lowres_turn: 0,
        drone: 1,
        max_players: 8,
        is_freedoom: 0,
        wad_sha1sum: [0xab; 20],
        deh_sha1sum: [0xcd; 20],
        player_class: 3,
    };
    let mut p = Packet::new();
    p.write_connect_data(&data);
    assert_eq!(p.data.len(), 47);
    assert_eq!(&p.data[0..6], &[2, 1, 0, 1, 8, 0]);
    assert_eq!(p.data[6], 0xab);
    assert_eq!(p.data[26], 0xcd);
    assert_eq!(p.data[46], 3);
}

#[test]
fn settings_round_trip() {
    let mut s = GameSettings {
        ticdup: 1,
        extratics: 2,
        deathmatch: 1,
        episode: 3,
        nomonsters: 0,
        fast_monsters: 1,
        respawn_monsters: 0,
        map: 7,
        skill: -1,
        gameversion: 4,
        lowres_turn: 1,
        new_sync: 1,
        timelimit: 0x0102_0304,
        loadgame: -1,
        random: 1,
        num_players: 3,
        consoleplayer: 2,
        player_classes: [0; NET_MAXPLAYERS],
    };
    s.player_classes[0] = 1;
    s.player_classes[2] = 255;
    let mut p = Packet::new();
    p.write_settings(&s);
    assert_eq!(p.data.len(), 23);
    assert_eq!(&p.data[12..16], &[4, 3, 2, 1]);
    assert_eq!(p.read_settings(), Some(s));
    assert_eq!(p.pos, 23);
}

#[test]
fn settings_with_too_many_players_are_refused() {
    let mut data = vec![0u8; 30];
    data[18] = 9;
    let mut p = packet_of(data);
    assert_eq!(p.read_settings(), None);
    assert_eq!(p.pos, 0);
    let mut short = packet_of(vec![0u8; 19]);
    assert_eq!(short.read_settings(), None);
    let mut data = vec![0u8; 21];
    data[18] = 2;
    let mut missing_class = packet_of(data);
    assert_eq!(missing_class.read_settings(), None);
}

#[test]
fn wait_data() {
    let mut p = Packet::new();
    for b in [2u8, 0, 1, 4, 1, 0xff] {
        p.write_u8(b);
    }
    p.write_string("alice");
    p.write_string("10.0.0.1");
    p.write_string("bob");
    p.write_string("10.0.0.2");
    p.write_blob(&[1; 20]);
    p.write_blob(&[2; 20]);
    p.write_u8(1);
    let w = p.read_wait_data().unwrap();
    assert_eq!(w.num_players, 2);
    assert_eq!(w.max_players, 4);
    assert_eq!(w.consoleplayer, -1);
    assert_eq!(w.player_names, vec!["alice".to_string(), "bob".to_string()]);
    assert_eq!(w.player_addrs[1], "10.0.0.2");
    assert_eq!(w.wad_sha1sum, [1; 20]);
    assert_eq!(w.deh_sha1sum, [2; 20]);
    assert_eq!(w.is_freedoom, 1);
}

#[test]
fn wait_data_with_long_name_is_refused() {
    let mut p = Packet::new();
    for b in [1u8, 0, 1, 4, 1, 0] {
        p.write_u8(b);
    }
    p.write_string("a name that is far too long for the lobby");
    p.write_string("addr");
    p.write_blob(&[0; 41]);
    assert!(p.read_wait_data().is_none());
}

#[test]
fn diff_fidelity() {
    let last = TicCmd { forwardmove: 10, angleturn: 0, buttons: 0, ..TicCmd::default() };
    let new = TicCmd { forwardmove: 10, angleturn: 256, buttons: 0, chatchar: 65, ..TicCmd::default() };
    let d = calculate_ticcmd_diff(&last, &new);
    assert_eq!(d.diff, NET_TICDIFF_TURN | NET_TICDIFF_CHATCHAR);
    let mut p = Packet::new();
    p.write_ticcmd_diff(&d, false);
    assert_eq!(p.data, vec![36, 0, 1, 65]);
    let back = p.read_ticcmd_diff(false).unwrap();
    let mut base = last;
    let rebuilt = apply_ticcmd_diff(&mut base, &back);
    assert_eq!(rebuilt, new);
    assert_eq!(base, new);
    let next = TicCmd { chatchar: 0, ..new };
    let d2 = calculate_ticcmd_diff(&new, &next);
    assert_eq!(d2.diff, 0);
    let mut q = Packet::new();
    q.write_ticcmd_diff(&d2, false);
    let back2 = q.read_ticcmd_diff(false).unwrap();
    let rebuilt2 = apply_ticcmd_diff(&mut base, &back2);
    assert_eq!(rebuilt2.chatchar, 0);
    assert_eq!(rebuilt2, next);
}

#[test]
fn diff_round_trip_with_every_field() {
    let last = TicCmd::default();
    let cmd = TicCmd {
        forwardmove: -5,
        sidemove: 7,
        angleturn: -512,
        chatchar: 1,
        buttons: 3,
        consistancy: 9,
        buttons2: 4,
        inventory: -300,
        lookfly: 2,
        arti: 6,
    };
    for lowres in [false, true] {
        let d = calculate_ticcmd_diff(&last, &cmd);
        assert_eq!(d.diff, 255);
        let mut p = Packet::new();
        p.write_ticcmd_diff(&d, lowres);
        assert_eq!(p.data.len(), if lowres { 12 } else { 13 });
        let back = p.read_ticcmd_diff(lowres).unwrap();
        let mut base = last;
        assert_eq!(apply_ticcmd_diff(&mut base, &back), cmd);
    }
}

#[test]
fn event_fields_do_not_stick() {
    let base_cmd = TicCmd { lookfly: 4, buttons2: 2, ..TicCmd::default() };
    let d = TicDiff { diff: 0, cmd: TicCmd { arti: 9, inventory: 5, chatchar: 3, ..TicCmd::default() } };
    let mut base = TicCmd { arti: 1, inventory: 2, chatchar: 3, ..base_cmd };
    let r = apply_ticcmd_diff(&mut base, &d);
    assert_eq!(r, base_cmd);
}

#[test]
fn truncated_diff_is_refused() {
    let mut p = packet_of(vec![NET_TICDIFF_TURN as u8, 1]);
    assert_eq!(p.read_ticcmd_diff(false), None);
    assert_eq!(p.pos, 0);
    assert_eq!(p.read_ticcmd_diff(true), Some(TicDiff {
        diff: NET_TICDIFF_TURN,
        cmd: TicCmd { angleturn: 256, ..TicCmd::default() },
    }));
}

#[test]
fn full_ticcmd_round_trip() {
    let mut f = FullTicCmd {
        latency: -20,
        seq: 0,
        playeringame: [false; NET_MAXPLAYERS],
        cmds: [TicDiff::default(); NET_MAXPLAYERS],
    };
    f.playeringame[0] = true;
    f.playeringame[5] = true;
    f.cmds[0] = TicDiff { diff: 1, cmd: TicCmd { forwardmove: 25, ..TicCmd::default() } };
    f.cmds[5] = TicDiff { diff: 4 | 128, cmd: TicCmd { angleturn: -1000, buttons2: 1, inventory: 12, ..TicCmd::default() } };
    let mut p = Packet::new();
    p.write_full_ticcmd(&f, false);
    assert_eq!(&p.data[0..3], &[0xec, 0xff, 0b0010_0001]);
    assert_eq!(p.read_full_ticcmd(false), Some(f));
    assert_eq!(p.pos, p.data.len());
}

#[test]
fn truncated_full_ticcmd_is_refused() {
    let mut p = packet_of(vec![0, 0, 1, 1]);
    assert_eq!(p.read_full_ticcmd(false), None);
    assert_eq!(p.pos, 0);
}

#[test]
fn settings_fields_in_declared_order() {
    let s = GameSettings {
        ticdup: 1,
        extratics: 2,
        deathmatch: 3,
        episode: 4,
        nomonsters: 5,
        fast_monsters: 6,
        respawn_monsters: 7,
        map: 8,
        skill: 9,
        gameversion: 10,
        lowres_turn: 11,
        new_sync: 12,
        timelimit: 0,
        loadgame: 13,
        random: 14,
        num_players: 0,
        consoleplayer: 15,
        player_classes: [0; NET_MAXPLAYERS],
    };
    let mut p = Packet::new();
    p.write_settings(&s);
    assert_eq!(&p.data[0..12], &[1, 2, 3, 4, 5, 6, 7, 8, 9, 10, 11, 12]);
    assert_eq!(&p.data[16..20], &[13, 14, 0, 15]);
}

#[test]
fn safe_strings_keep_exactly_unicode_whitespace() {
    for code in 0u32..0x3100 {
        if let Some(c) = char::from_u32(code) {
            if c == '\0' {
                continue;
            }
            let mut data = c.to_string().into_bytes();
            data.push(0);
            let mut p = Packet { data, pos: 0 };
            let kept = p.read_safe_string().unwrap();
            let expected = c.is_ascii_graphic() || c.is_whitespace();
            assert_eq!(kept == c.to_string(), expected, "U+{:04X}", code);
        }
    }
}
