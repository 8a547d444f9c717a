use sets::join_code::{
    grouped_code, join_code_display, join_code_from_seed, join_code_text, matchmaking_room_url,
    private_room_url, public_room_url, ActiveJoinCodeTyping, TypingKey,
};
use sets::matchmaking::{assign_private_lobby, assign_public_lobby, id_le};
use sets::rng::RollbackRng;
use sets::text::{decimal_string, strip_spaces};

#[test]
fn rng_starts_offset_and_steps_like_the_lcg() {
    let r = RollbackRng::new(98765);
    assert_eq!(r.seed, 98765 + 54321);
    assert_eq!(RollbackRng::new(u32::MAX).seed, 54320);
    let mut a = RollbackRng::new(98765);
    let v = a.next_u31();
    let expected_seed = (153086u32).wrapping_mul(1664525).wrapping_add(1013904223);
    assert_eq!(a.seed, expected_seed);
    assert_eq!(v, expected_seed & 0x7FFF_FFFF);
    let mut b = RollbackRng::new(98765);
    assert_eq!(b.next_u31(), v);
    for _ in 0..100 {
        let x = a.next_u31();
        let y = b.next_u31();
        assert_eq!(x, y);
        assert!(x < 0x8000_0000);
    }
}

#[test]
fn public_seats_follow_sorted_ids() {
    let ids: Vec<Vec<u8>> = vec![b"b7".to_vec(), b"a1".to_vec(), b"c0".to_vec(), b"a10".to_vec()];
    assert!(assign_public_lobby(&ids[0], &Vec::new()).is_none());
    let mut seats = Vec::new();
    for i in 0..ids.len() {
        let mut peers = ids.clone();
        let local = peers.remove(i);
        let a = assign_public_lobby(&local, &peers).unwrap();
        seats.push(a.local_index);
        if a.local_index == 0 {
            assert_eq!(a.host, None);
        } else {
            // The host is "a1": position 0 of the list if it was the local id, else peer j at j + 1.
            let h = a.host.unwrap();
            let all: Vec<Vec<u8>> = std::iter::once(local.clone()).chain(peers.iter().cloned()).collect();
            assert_eq!(all[h], b"a1".to_vec());
        }
    }
    assert_eq!(seats, vec![2, 0, 3, 1]);
}

#[test]
fn private_seats_skip_the_host() {
    let host = b"m".to_vec();
    let peers = vec![b"m".to_vec(), b"z".to_vec(), b"c".to_vec()];
    assert_eq!(assign_private_lobby(&b"k".to_vec(), &host, &peers), 2);
    assert_eq!(assign_private_lobby(&b"a".to_vec(), &host, &peers), 1);
    assert_eq!(assign_private_lobby(&b"zz".to_vec(), &host, &peers), 3);
    assert_eq!(assign_private_lobby(&host, &host, &peers), 1);
}

#[test]
fn ids_compare_as_strings() {
    assert!(id_le(&b"abc".to_vec(), &b"abd".to_vec()));
    assert!(id_le(&b"ab".to_vec(), &b"abc".to_vec()));
    assert!(!id_le(&b"abc".to_vec(), &b"ab".to_vec()));
    assert!(id_le(&b"".to_vec(), &b"".to_vec()));
    assert!(id_le(&b"same".to_vec(), &b"same".to_vec()));
    assert_eq!(id_le(&b"Zeta".to_vec(), &b"alpha".to_vec()), "Zeta" <= "alpha");
}

#[test]
fn join_codes_have_six_digits() {
    assert_eq!(join_code_from_seed(0), 100000 + 1442695040888963407u64 % 900000);
    for seed in [0u64, 1, 42, 1_700_000_000_000_000, u64::MAX] {
        let x = seed.wrapping_mul(6364136223846793005).wrapping_add(1442695040888963407);
        let code = join_code_from_seed(seed);
        assert_eq!(code, 100000 + x % 900000);
        assert!((100000..=999999).contains(&code));
        let text = join_code_text(seed);
        assert_eq!(text, code.to_string());
        assert_eq!(text.len(), 6);
    }
}

#[test]
fn decimal_text_matches_to_string() {
    for n in [0u64, 7, 10, 99, 100, 123456, u64::MAX] {
        assert_eq!(decimal_string(n), n.to_string());
    }
}

#[test]
fn grouped_codes_strip_back() {
    let g = grouped_code("123456");
    assert_eq!(g, "123 456");
    assert_eq!(strip_spaces(&g), "123456");
    assert_eq!(strip_spaces(" 1 2 3 "), "123");
}

#[test]
fn room_addresses() {
    assert_eq!(public_room_url(), "wss://durfdog-sets.hf.space/rounds_lobby?next=8");
    assert_eq!(matchmaking_room_url(""), "wss://durfdog-sets.hf.space/rounds_lobby?next=8");
    assert_eq!(matchmaking_room_url("123 456"), "wss://durfdog-sets.hf.space/room_123456?next=8");
    assert_eq!(private_room_url("987654"), "wss://durfdog-sets.hf.space/room_987654?next=8");
}

#[test]
fn code_box_shows_typed_digits() {
    assert_eq!(join_code_display(""), "_ _ _  _ _ _");
    assert_eq!(join_code_display("12"), "1 2 _  _ _ _");
    assert_eq!(join_code_display("123456"), "1 2 3  4 5 6");
}

#[test]
fn typing_a_code() {
    let mut t = ActiveJoinCodeTyping::new();
    assert!(t.handle_key(&TypingKey::Character("1".to_string())).is_none());
    assert_eq!(t.code, "");
    t.start_typing();
    t.handle_key(&TypingKey::Character("12".to_string()));
    t.handle_key(&TypingKey::Character("x".to_string()));
    t.handle_key(&TypingKey::Character("345".to_string()));
    assert_eq!(t.code, "12345");
    assert!(t.handle_key(&TypingKey::Enter).is_none());
    t.handle_key(&TypingKey::Character("67".to_string()));
    assert_eq!(t.code, "1234567");
    t.handle_key(&TypingKey::Backspace);
    assert_eq!(t.code, "123456");
    t.handle_key(&TypingKey::Character("8".to_string()));
    assert_eq!(t.code, "123456");
    assert_eq!(t.handle_key(&TypingKey::Enter), Some("123456".to_string()));
    assert!(t.is_typing);
    t.handle_key(&TypingKey::Other);
    assert_eq!(t.code, "123456");
    t.handle_key(&TypingKey::Escape);
    assert!(!t.is_typing);
    assert_eq!(t.code, "");
    t.start_typing();
    t.handle_key(&TypingKey::Backspace);
    assert_eq!(t.code, "");
}

#[test]
fn private_clients_take_different_seats_after_the_host() {
    let ids: Vec<Vec<u8>> = vec![b"q".to_vec(), b"d".to_vec(), b"x".to_vec(), b"a".to_vec(), b"m".to_vec()];
    let host = 4;
    let mut seats = Vec::new();
    for i in 0..ids.len() {
        if i == host {
            continue;
        }
        let mut peers = ids.clone();
        let local = peers.remove(i);
        let seat = assign_private_lobby(&local, &ids[host], &peers);
        assert!(seat >= 1);
        seats.push(seat);
    }
    // Clients sorted: a, d, q, x.
    assert_eq!(seats, vec![3, 2, 4, 1]);
}

#[test]
fn grouping_splits_after_the_third_byte() {
    assert_eq!(grouped_code("abcé"), "abc é");
    assert_eq!(grouped_code("123"), "123 ");
    assert_eq!(strip_spaces(&grouped_code("482913")), "482913");
}

#[test]
fn code_lengths_count_bytes() {
    let mut t = ActiveJoinCodeTyping::new();
    t.start_typing();
    t.code = "ééé".to_string();
    assert!(t.complete_code().is_some());
    t.handle_key(&TypingKey::Character("1".to_string()));
    assert_eq!(t.code, "ééé");
    t.handle_key(&TypingKey::Backspace);
    assert_eq!(t.code, "éé");
    assert_eq!(join_code_display("éééééé"), "é é é  é é é");
}

#[test]
fn code_frame_keeps_reading_after_escape() {
    let mut t = ActiveJoinCodeTyping::new();
    t.start_typing();
    let keys = vec![
        TypingKey::Character("5".to_string()),
        TypingKey::Escape,
        TypingKey::Character("6".to_string()),
    ];
    assert!(t.handle_frame(&keys).is_none());
    assert_eq!(t.code, "6");
    assert!(!t.is_typing);
    // A closed entry ignores the whole next frame.
    assert!(t.handle_frame(&vec![TypingKey::Character("7".to_string())]).is_none());
    assert_eq!(t.code, "6");
}

#[test]
fn code_frame_connects_on_the_last_complete_enter() {
    let mut t = ActiveJoinCodeTyping::new();
    t.start_typing();
    let keys = vec![
        TypingKey::Character("12345".to_string()),
        TypingKey::Enter,
        TypingKey::Character("6".to_string()),
        TypingKey::Enter,
        TypingKey::Backspace,
    ];
    assert_eq!(t.handle_frame(&keys), Some("123456".to_string()));
    assert_eq!(t.code, "12345");
    assert!(t.is_typing);
}
