use windows_hotkeys::keys::{ModKey, VKey, MOD_NOREPEAT};
use windows_hotkeys::{extra_keys_pressed, keystate_is_pressed, HotkeyId, HotkeyManager};

#[test]
fn test_vk_codes() {
    assert_eq!(VKey::Back.to_vk_code(), 0x08);
    assert_eq!(VKey::Tab.to_vk_code(), 0x09);
    assert_eq!(VKey::Return.to_vk_code(), 0x0D);
    assert_eq!(VKey::Escape.to_vk_code(), 0x1B);
    assert_eq!(VKey::Space.to_vk_code(), 0x20);
    assert_eq!(VKey::Left.to_vk_code(), 0x25);
    assert_eq!(VKey::Up.to_vk_code(), 0x26);
    assert_eq!(VKey::Right.to_vk_code(), 0x27);
    assert_eq!(VKey::Down.to_vk_code(), 0x28);
    assert_eq!(VKey::A.to_vk_code(), 0x41);
    assert_eq!(VKey::B.to_vk_code(), 0x42);
    assert_eq!(VKey::C.to_vk_code(), 0x43);
    assert_eq!(VKey::Custom(1234).to_vk_code(), 1234);
}

#[test]
fn test_combine_modifier_masks() {
    assert_eq!(ModKey::combine(&Vec::new()), 0);
    assert_eq!(ModKey::combine(&vec![ModKey::Alt]), 0x0001);
    assert_eq!(ModKey::combine(&vec![ModKey::Control, ModKey::Alt]), 0x0003);
    assert_eq!(ModKey::combine(&vec![ModKey::Shift, ModKey::Win]), 0x000C);
    assert_eq!(
        ModKey::combine(&vec![ModKey::Alt, ModKey::Control, ModKey::Shift, ModKey::Win]),
        0x000F
    );
    // Repeating a modifier changes nothing: the flags are a bitmask.
    assert_eq!(ModKey::combine(&vec![ModKey::Alt, ModKey::Alt]), 0x0001);
}

#[test]
fn test_register_request_carries_norepeat_flag() {
    let m: HotkeyManager<fn() -> i32> = HotkeyManager::new_with_id_offset(3);
    let req = m.register_request(VKey::Return, &vec![ModKey::Control, ModKey::Alt]);
    assert_eq!(req.id, HotkeyId(3));
    assert_eq!(req.modifier_mask, 0x0003 | MOD_NOREPEAT);
    assert_eq!(req.modifier_mask, 0x4003);
    assert_eq!(req.vk_code, 0x0D);

    let req = m.register_request(VKey::Custom(0x7B), &Vec::new());
    assert_eq!(req.modifier_mask, MOD_NOREPEAT);
    assert_eq!(req.vk_code, 0x7B);
}

#[test]
fn test_keystate_is_pressed_reads_sign_bit() {
    assert!(keystate_is_pressed(-1));
    assert!(keystate_is_pressed(i16::MIN));
    assert!(keystate_is_pressed(-32767));
    assert!(!keystate_is_pressed(0));
    assert!(!keystate_is_pressed(1));
    assert!(!keystate_is_pressed(i16::MAX));
}

#[test]
fn test_extra_key_gate() {
    assert!(extra_keys_pressed(&Vec::new(), &Vec::new()));
    assert!(extra_keys_pressed(&Vec::new(), &vec![VKey::A]));
    assert!(extra_keys_pressed(&vec![VKey::A], &vec![VKey::B, VKey::A]));
    assert!(!extra_keys_pressed(&vec![VKey::A], &Vec::new()));
    assert!(!extra_keys_pressed(&vec![VKey::A, VKey::B], &vec![VKey::A]));
    assert!(extra_keys_pressed(&vec![VKey::A, VKey::B], &vec![VKey::B, VKey::A]));
    assert!(extra_keys_pressed(&vec![VKey::Custom(65)], &vec![VKey::Custom(65)]));
    assert!(!extra_keys_pressed(&vec![VKey::Custom(65)], &vec![VKey::A]));
}
