use diydetect::bytes::{read_pointer, read_u16, read_u32, read_u64, read_units, PointerWidth};
use diydetect::digest::Hasher;
use diydetect::host::{host_or, report_name};
use diydetect::text::{
    chars_of, decimal_of, file_stem, find_first, hex_of, range_of, same_text, string_of,
    trim_end_char,
};
use diydetect::utf16::{decode_until_zero, decode_utf16, null_terminated};

#[test]
fn chars_and_back() {
    let chars = chars_of("a\u{e9}\u{1f600}");
    assert_eq!(chars, vec!['a', '\u{e9}', '\u{1f600}']);
    assert_eq!(string_of(&chars), "a\u{e9}\u{1f600}");
    assert_eq!(range_of(&chars, 1, 3), "\u{e9}\u{1f600}");
    assert_eq!(range_of(&chars, 2, 2), "");
}

#[test]
fn texts_are_compared() {
    assert!(same_text("net", "net"));
    assert!(!same_text("net", "nets"));
    assert!(!same_text("net", "Net"));
}

#[test]
fn slashes_are_trimmed_at_the_end_only() {
    assert_eq!(trim_end_char("http://c:8080///", '/'), "http://c:8080");
    assert_eq!(trim_end_char("http://c:8080", '/'), "http://c:8080");
    assert_eq!(trim_end_char("//", '/'), "");
    assert_eq!(trim_end_char("", '/'), "");
    assert_eq!(trim_end_char("/a", '/'), "/a");
}

#[test]
fn numbers_in_decimal() {
    assert_eq!(decimal_of(0), "0");
    assert_eq!(decimal_of(9), "9");
    assert_eq!(decimal_of(10), "10");
    assert_eq!(decimal_of(u32::MAX), "4294967295");
}

#[test]
fn bytes_in_hex() {
    assert_eq!(hex_of(&vec![]), "");
    assert_eq!(hex_of(&vec![0x00, 0x0f, 0xa5, 0xff]), "000fa5ff");
}

#[test]
fn stems_of_file_names() {
    assert_eq!(file_stem("a.json"), "a");
    assert_eq!(file_stem("a.b.json"), "a.b");
    assert_eq!(file_stem("a"), "a");
    assert_eq!(file_stem(".json"), ".json");
    assert_eq!(file_stem(".a.json"), ".a");
    assert_eq!(file_stem("a."), "a");
    assert_eq!(file_stem(""), "");
}

#[test]
fn first_place_of_a_character() {
    assert_eq!(find_first(&chars_of("a:b:c"), ':'), Some(1));
    assert_eq!(find_first(&chars_of("abc"), ':'), None);
    assert_eq!(find_first(&chars_of(""), ':'), None);
}

#[test]
fn utf16_is_decoded() {
    assert_eq!(decode_utf16(&[0x43, 0x3a, 0x5c], 3), "C:\\");
    assert_eq!(decode_utf16(&[0x43, 0x3a, 0x5c], 1), "C");
    assert_eq!(decode_utf16(&[], 0), "");
    assert_eq!(decode_utf16(&[0xd83d, 0xde00], 2), "\u{1f600}");
}

#[test]
fn lone_surrogates_are_replaced() {
    assert_eq!(decode_utf16(&[0xd83d], 1), "\u{fffd}");
    assert_eq!(decode_utf16(&[0xde00, 0x41], 2), "\u{fffd}A");
    assert_eq!(decode_utf16(&[0xd83d, 0x41], 2), "\u{fffd}A");
    assert_eq!(decode_utf16(&[0xd83d, 0xd83d, 0xde00], 3), "\u{fffd}\u{1f600}");
}

#[test]
fn decoding_agrees_with_the_standard_library() {
    let units: Vec<u16> = vec![0xd83d, 0xde00, 0xdc00, 0x41, 0xd800, 0xe000, 0xffff, 0xdbff, 0xdfff];
    assert_eq!(decode_utf16(&units, units.len()), String::from_utf16_lossy(&units));
}

#[test]
fn text_goes_there_and_back() {
    let text = "C:\\Users\\\u{e9}\u{1f600}";
    let wide = null_terminated(text);
    let expected: Vec<u16> = text.encode_utf16().chain(std::iter::once(0)).collect();
    assert_eq!(wide, expected);
    assert_eq!(decode_until_zero(&wide), text);
}

#[test]
fn decoding_stops_at_zero() {
    assert_eq!(decode_until_zero(&vec![0x61, 0x62, 0, 0x63]), "ab");
    assert_eq!(decode_until_zero(&vec![0x61, 0x62]), "ab");
    assert_eq!(decode_until_zero(&vec![0, 0x61]), "");
}

#[test]
fn little_endian_numbers() {
    let b: Vec<u8> = (1..=10).collect();
    assert_eq!(read_u16(&b, 1), 0x0302);
    assert_eq!(read_u32(&b, 0), 0x0403_0201);
    assert_eq!(read_u64(&b, 2), 0x0a09_0807_0605_0403);
    assert_eq!(read_pointer(&b, 0, PointerWidth::Four), 0x0403_0201);
    assert_eq!(read_pointer(&b, 0, PointerWidth::Eight), 0x0807_0605_0403_0201);
    assert_eq!(read_units(&b, 2), vec![0x0201, 0x0403]);
    assert_eq!(PointerWidth::Four.bytes(), 4);
    assert_eq!(PointerWidth::Eight.bytes(), 8);
}

#[test]
fn digests_of_known_messages() {
    assert_eq!(
        Hasher::new().finish(),
        "e3b0c44298fc1c149afbf4c8996fb92427ae41e4649b934ca495991b7852b855"
    );
    assert_eq!(
        Hasher::new().absorb(b"abc").finish(),
        "ba7816bf8f01cfea414140de5dae2223b00361a396177a9cb410ff61f20015ad"
    );
    assert_eq!(
        Hasher::new().absorb(b"a").absorb(b"").absorb(b"bc").finish(),
        "ba7816bf8f01cfea414140de5dae2223b00361a396177a9cb410ff61f20015ad"
    );
    assert!(Hasher::new().has_room(8192));
    assert!(!Hasher::new().absorb(b"a").has_room(0x1fff_ffff_ffff_ffff));
}

#[test]
fn a_chosen_name_goes_before_that_of_the_machine() {
    assert_eq!(host_or(Some("lab-7".to_string()), "box".to_string()), "lab-7");
    assert_eq!(host_or(None, "box".to_string()), "box");
    assert_eq!(report_name(Some("Lab".to_string())), "Lab");
}

#[test]
fn the_machine_has_a_name_in_lower_case() {
    let name = report_name(None);
    assert_eq!(name, name.to_ascii_lowercase());
}
