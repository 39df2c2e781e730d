use terracotta::code::Room;
use terracotta::payload::{read_advert, write_advert, CLOSE, MIDDLE, MOTD, OPEN};

#[test]
fn the_advertisement_of_a_room() {
    let room = Room::from("AB12").unwrap();
    assert_eq!(write_advert(&room, 25565), b"[MOTD]Terracotta:AB12[/MOTD][AD]25565[/AD]".to_vec());
    assert_eq!(write_advert(&room, 0), b"[MOTD]Terracotta:AB12[/MOTD][AD]0[/AD]".to_vec());
    assert_eq!(
        write_advert(&Room::create(65535), 65535),
        b"[MOTD]Terracotta:B8JJ[/MOTD][AD]65535[/AD]".to_vec()
    );
}

#[test]
fn the_tags_of_an_advertisement() {
    assert_eq!(&OPEN, b"[MOTD]");
    assert_eq!(&MOTD, b"Terracotta:");
    assert_eq!(&MIDDLE, b"[/MOTD][AD]");
    assert_eq!(&CLOSE, b"[/AD]");
}

#[test]
fn an_advertisement_is_read_back() {
    let (room, port) = read_advert(&b"[MOTD]Terracotta:AB12[/MOTD][AD]25565[/AD]".to_vec()).unwrap();
    assert_eq!(room.code().as_str(), "AB12");
    assert_eq!(room.port(), 22102);
    assert_eq!(port, 25565);
    for (code, port) in [(1u16, 0u16), (1, 1), (22102, 9), (65535, 65535), (40000, 10), (7, 100), (8, 1000)] {
        let bytes = write_advert(&Room::create(code), port);
        let (room, back) = read_advert(&bytes).unwrap();
        assert_eq!((room.port(), back), (code, port));
    }
}

#[test]
fn every_room_is_read_back() {
    for code in 1..=u16::MAX {
        let port = code.wrapping_mul(31).wrapping_add(7);
        let (room, back) = read_advert(&write_advert(&Room::create(code), port)).unwrap();
        assert_eq!((room.port(), back), (code, port));
    }
}

#[test]
fn foreign_advertisements_are_passed_over() {
    for text in [
        "[MOTD]A Minecraft Server[/MOTD][AD]25565[/AD]",
        "[MOTD]Terracotta AB12[/MOTD][AD]25565[/AD]",
        "[MOTD]terracotta:AB12[/MOTD][AD]25565[/AD]",
        "[MOTD]Terracotta:[/MOTD][AD]25565[/AD]",
        "[MOTD][/MOTD][AD]25565[/AD]",
        "[AD]25565[/AD]",
        "",
        "M-SEARCH * HTTP/1.1\r\nHOST: 239.255.255.250:1900\r\n",
    ] {
        assert!(read_advert(&text.as_bytes().to_vec()).is_none(), "{:?}", text);
    }
}

#[test]
fn malformed_advertisements_are_dropped() {
    for text in [
        "[MOTD]Terracotta:AB12[/MOTD][AD]25565[/AD] ",
        " [MOTD]Terracotta:AB12[/MOTD][AD]25565[/AD]",
        "[MOTD]Terracotta:AB12[/MOTD][AD]25565[/AD]\n",
        "[MOTD]Terracotta:AB12[/MOTD][AD]025565[/AD]",
        "[MOTD]Terracotta:AB12[/MOTD][AD]02556[/AD]",
        "[MOTD]Terracotta:AB12[/MOTD][AD]65536[/AD]",
        "[MOTD]Terracotta:AB12[/MOTD][AD]99999[/AD]",
        "[MOTD]Terracotta:AB12[/MOTD][AD][/AD]",
        "[MOTD]Terracotta:AB12[/MOTD][AD]-1[/AD]",
        "[MOTD]Terracotta:AB12[/MOTD][AD]2556a[/AD]",
        "[MOTD]Terracotta:AB12[/MOTD][AD]25565[/ad]",
        "[MOTD]Terracotta:AB12[/MOTD][AD]25565",
        "[MOTD]Terracotta:AB12[/MOTD]",
        "[MOTD]Terracotta:AB12[/MOTD][ad]25565[/AD]",
        "[MOTD]Terracotta:ab12[/MOTD][AD]25565[/AD]",
        "[MOTD]Terracotta:AB1[/MOTD][AD]25565[/AD]",
        "[MOTD]Terracotta:AB123[/MOTD][AD]2556[/AD]",
        "[MOTD]Terracotta:9TZ4[/MOTD][AD]25565[/AD]",
        "[MOTD]Terracotta:ZZZZ[/MOTD][AD]25565[/AD]",
        "[motd]Terracotta:AB12[/MOTD][AD]25565[/AD]",
    ] {
        assert!(read_advert(&text.as_bytes().to_vec()).is_none(), "{:?}", text);
    }
    assert!(read_advert(&vec![0xff; 40]).is_none());
    assert!(read_advert(&vec![0; 1500]).is_none());
}

#[test]
fn an_advertisement_is_small() {
    for (code, port) in [(1u16, 0u16), (65535, 65535)] {
        let n = write_advert(&Room::create(code), port).len();
        assert!((38..=42).contains(&n));
    }
}
