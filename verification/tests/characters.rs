use shell_ai::text::{char_is_control, char_is_whitespace};

#[test]
fn white_space_and_control_characters_agree_with_std() {
    for u in (0u32..0x3100).chain(0xfe00..0x10000).chain([0x1_0000, 0x10_ffff]) {
        if let Some(c) = char::from_u32(u) {
            assert_eq!(char_is_whitespace(c), c.is_whitespace(), "{u:#x}");
            assert_eq!(char_is_control(c), c.is_control(), "{u:#x}");
        }
    }
}
