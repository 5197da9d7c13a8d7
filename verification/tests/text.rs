use smolbox::allocator::Global;
use smolbox::text::{is_utf8, scalar_width};
use smolbox::SmallBox;

fn std_says(bytes: &[u8]) -> bool {
    std::str::from_utf8(bytes).is_ok()
}

#[test]
fn widths_of_well_formed_scalars() {
    assert_eq!(scalar_width(b"a", 0), 1);
    assert_eq!(scalar_width(&[0x00], 0), 1);
    assert_eq!(scalar_width(&[0x7F], 0), 1);
    assert_eq!(scalar_width("é".as_bytes(), 0), 2);
    assert_eq!(scalar_width(&[0xC2, 0x80], 0), 2);
    assert_eq!(scalar_width(&[0xDF, 0xBF], 0), 2);
    assert_eq!(scalar_width("€".as_bytes(), 0), 3);
    assert_eq!(scalar_width(&[0xE0, 0xA0, 0x80], 0), 3);
    assert_eq!(scalar_width(&[0xED, 0x9F, 0xBF], 0), 3);
    assert_eq!(scalar_width(&[0xEE, 0x80, 0x80], 0), 3);
    assert_eq!(scalar_width(&[0xEF, 0xBF, 0xBF], 0), 3);
    assert_eq!(scalar_width("😀".as_bytes(), 0), 4);
    assert_eq!(scalar_width(&[0xF0, 0x90, 0x80, 0x80], 0), 4);
    assert_eq!(scalar_width(&[0xF4, 0x8F, 0xBF, 0xBF], 0), 4);
    assert_eq!(scalar_width("aé€😀".as_bytes(), 1), 2);
    assert_eq!(scalar_width("aé€😀".as_bytes(), 3), 3);
    assert_eq!(scalar_width("aé€😀".as_bytes(), 6), 4);
}

#[test]
fn widths_of_what_is_no_scalar() {
    assert_eq!(scalar_width(&[0x80], 0), 0);
    assert_eq!(scalar_width(&[0xBF], 0), 0);
    assert_eq!(scalar_width(&[0xC2], 0), 0);
    assert_eq!(scalar_width(&[0xC2, 0x7F], 0), 0);
    assert_eq!(scalar_width(&[0xC2, 0xC0], 0), 0);
    assert_eq!(scalar_width(&[0xC0, 0x80], 0), 0);
    assert_eq!(scalar_width(&[0xC1, 0xBF], 0), 0);
    assert_eq!(scalar_width(&[0xE0, 0x80, 0x80], 0), 0);
    assert_eq!(scalar_width(&[0xE0, 0x9F, 0xBF], 0), 0);
    assert_eq!(scalar_width(&[0xE2, 0x82], 0), 0);
    assert_eq!(scalar_width(&[0xE2, 0x82, 0x2C], 0), 0);
    assert_eq!(scalar_width(&[0xED, 0xA0, 0x80], 0), 0);
    assert_eq!(scalar_width(&[0xED, 0xBF, 0xBF], 0), 0);
    assert_eq!(scalar_width(&[0xF0, 0x80, 0x80, 0x80], 0), 0);
    assert_eq!(scalar_width(&[0xF0, 0x8F, 0xBF, 0xBF], 0), 0);
    assert_eq!(scalar_width(&[0xF0, 0x90, 0x80], 0), 0);
    assert_eq!(scalar_width(&[0xF4, 0x90, 0x80, 0x80], 0), 0);
    assert_eq!(scalar_width(&[0xF7, 0xBF, 0xBF, 0xBF], 0), 0);
    assert_eq!(scalar_width(&[0xF8, 0x88, 0x80, 0x80, 0x80], 0), 0);
    assert_eq!(scalar_width(&[0xFF], 0), 0);
    assert_eq!(scalar_width("é".as_bytes(), 1), 0);
}

#[test]
fn validity_of_chosen_texts() {
    assert!(is_utf8(b""));
    assert!(is_utf8(b"plain"));
    assert!(is_utf8("grüße, мир, 世界, 😀".as_bytes()));
    assert!(is_utf8(&[0xF4, 0x8F, 0xBF, 0xBF, 0x00, 0x7F]));
    assert!(!is_utf8(&[b'a', 0x80]));
    assert!(!is_utf8(&[b'a', 0xC3]));
    assert!(!is_utf8(&[0xC3, 0xA9, 0xFF]));
    assert!(!is_utf8(&[0xED, 0xA0, 0x80]));
    assert!(!is_utf8(&[0xE2, 0x82, 0xAC, 0xE2, 0x82]));
    assert!(!is_utf8(&[0xF0, 0x9F, 0x98]));
    assert!(!is_utf8(&[0xC0, 0xAF]));
}

#[test]
fn validity_agrees_on_every_short_sequence() {
    for first in 0..=255u8 {
        assert_eq!(is_utf8(&[first]), std_says(&[first]), "{:02x}", first);
        for second in 0..=255u8 {
            let pair = [first, second];
            assert_eq!(is_utf8(&pair), std_says(&pair), "{:02x?}", pair);
        }
    }
}

#[test]
fn validity_agrees_on_three_and_four_bytes() {
    let leads = [0x00, 0x7F, 0x80, 0xBF, 0xC1, 0xC2, 0xDF, 0xE0, 0xE1, 0xEC, 0xED, 0xEE, 0xEF,
        0xF0, 0xF1, 0xF3, 0xF4, 0xF5, 0xF7, 0xF8, 0xFF];
    let rests = [0x00, 0x7F, 0x80, 0x8F, 0x90, 0x9F, 0xA0, 0xBF, 0xC0, 0xFF];
    for first in leads {
        for second in rests {
            for third in rests {
                let triple = [first, second, third];
                assert_eq!(is_utf8(&triple), std_says(&triple), "{:02x?}", triple);
                for fourth in rests {
                    let quad = [first, second, third, fourth];
                    assert_eq!(is_utf8(&quad), std_says(&quad), "{:02x?}", quad);
                }
            }
        }
    }
}

#[test]
fn checked_text_from_bytes() {
    let bytes = SmallBox::<[u8], [u8; 8], Global>::try_copy_from("héllo".as_bytes()).unwrap();
    let text = SmallBox::<str, [u8; 8], Global>::from_utf8(bytes).unwrap();
    assert_eq!(SmallBox::as_bytes(&text), "héllo".as_bytes());
    assert!(SmallBox::is_inlined(&text));
    assert_eq!(text.len(), 6);

    let bytes = SmallBox::<[u8], [u8; 2], Global>::try_copy_from(&[b'a', 0xFF, b'b'][..]).unwrap();
    let same = SmallBox::<str, [u8; 2], Global>::from_utf8(bytes).unwrap_err();
    assert_eq!(same.to_vec(), [b'a', 0xFF, b'b']);
    assert!(!SmallBox::is_inlined(&same));

    let empty = SmallBox::<[u8], [u8; 0], Global>::try_copy_from(&[][..]).unwrap();
    let text = SmallBox::<str, [u8; 0], Global>::from_utf8(empty).unwrap();
    assert_eq!(text.len(), 0);
}
