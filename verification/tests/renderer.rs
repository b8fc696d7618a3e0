use termula::renderer::{image_display_cols, iterm2_image_escape, kitty_image_escape, png_width};

fn png_with_width(width: u32, len: usize) -> Vec<u8> {
    let mut data = vec![0u8; len.max(24)];
    data[16..20].copy_from_slice(&width.to_be_bytes());
    data
}

#[test]
fn png_width_reads_ihdr() {
    assert_eq!(png_width(&[0u8; 23]), None);
    assert_eq!(png_width(&png_with_width(0x0102_0304, 24)), Some(0x0102_0304));
}

#[test]
fn display_cols_cap_wide_images() {
    assert_eq!(image_display_cols(&png_with_width(800, 24), 100), None);
    assert_eq!(image_display_cols(&png_with_width(801, 24), 100), Some(100));
    assert_eq!(image_display_cols(&[1, 2, 3], 100), None);
}

#[test]
fn kitty_single_chunk() {
    assert_eq!(kitty_image_escape(&[1, 2, 3], 80), "\x1b_Gf=100,a=T;AQID\x1b\\\n");
    let wide = png_with_width(1000, 24);
    let out = kitty_image_escape(&wide, 80);
    assert!(out.starts_with("\x1b_Gf=100,a=T,c=80;"));
}

#[test]
fn kitty_many_chunks_carry_all_data() {
    let data: Vec<u8> = (0..7000u32).map(|i| (i % 251) as u8).collect();
    let out = kitty_image_escape(&data, 80);
    assert!(out.ends_with('\n'));
    let pieces: Vec<&str> = out.trim_end_matches('\n').split("\x1b\\").filter(|p| !p.is_empty()).collect();
    assert_eq!(pieces.len(), 3);
    assert!(pieces[0].starts_with("\x1b_Gf=100,a=T,m=1,c=80;"));
    assert!(pieces[1].starts_with("\x1b_Gm=1;"));
    assert!(pieces[2].starts_with("\x1b_Gm=0;"));
    let joined: String = pieces.iter().map(|p| p.split_once(';').unwrap().1).collect();
    assert_eq!(joined.len(), 9336);
    assert!(pieces[0].split_once(';').unwrap().1.len() == 4096);
}

#[test]
fn iterm2_escape_for_png() {
    assert_eq!(
        iterm2_image_escape(&[1, 2, 3], 80),
        "\x1b]1337;File=inline=1;size=3;preserveAspectRatio=1:AQID\x07\n"
    );
    let wide = png_with_width(1000, 30);
    let out = iterm2_image_escape(&wide, 120);
    assert!(out.starts_with("\x1b]1337;File=inline=1;size=30;preserveAspectRatio=1;width=120:"));
}

use termula::renderer::{iterm2_sequence, kitty_sequence};

#[test]
fn kitty_sequence_from_base64_text() {
    assert_eq!(kitty_sequence("QUJD", None), "\x1b_Gf=100,a=T;QUJD\x1b\\\n");
    assert_eq!(kitty_sequence("QUJD", Some(7)), "\x1b_Gf=100,a=T,c=7;QUJD\x1b\\\n");
    let text = "A".repeat(4097);
    assert_eq!(
        kitty_sequence(&text, Some(3)),
        format!(
            "\x1b_Gf=100,a=T,m=1,c=3;{}\x1b\\\x1b_Gm=0;A\x1b\\\n",
            "A".repeat(4096)
        )
    );
    let text = "B".repeat(8192);
    assert_eq!(
        kitty_sequence(&text, None),
        format!(
            "\x1b_Gf=100,a=T,m=1;{}\x1b\\\x1b_Gm=0;{}\x1b\\\n",
            "B".repeat(4096),
            "B".repeat(4096)
        )
    );
}

#[test]
fn iterm2_sequence_from_base64_text() {
    assert_eq!(
        iterm2_sequence("QUJD", 3, Some(12)),
        "\x1b]1337;File=inline=1;size=3;preserveAspectRatio=1;width=12:QUJD\x07\n"
    );
}
