use process_inspector::name::{decode_utf16, file_name, get_process_name};

fn wide(text: &str) -> Vec<u16> {
    text.encode_utf16().collect()
}

fn chars(text: &str) -> Vec<char> {
    text.chars().collect()
}

fn base(text: &str) -> String {
    file_name(&chars(text)).into_iter().collect()
}

#[test]
fn image_path_gives_its_base_name() {
    let path = wide("C:\\Windows\\System32\\notepad.exe");
    assert_eq!(get_process_name(&path), "notepad.exe");
}

#[test]
fn no_path_gives_access_placeholder() {
    assert_eq!(get_process_name(&[]), "[Access Denied or Process Closed]");
}

#[test]
fn lone_high_surrogate_gives_invalid_name() {
    let path = [0x0043, 0x003A, 0x005C, 0xD800, 0x0041];
    assert_eq!(get_process_name(&path), "[Invalid Name]");
}

#[test]
fn lone_low_surrogate_gives_invalid_name() {
    assert_eq!(get_process_name(&[0xDC00]), "[Invalid Name]");
    assert_eq!(get_process_name(&[0x0041, 0xDFFF, 0x0042]), "[Invalid Name]");
}

#[test]
fn surrogates_in_wrong_order_give_invalid_name() {
    assert_eq!(get_process_name(&[0xDC00, 0xD800]), "[Invalid Name]");
}

#[test]
fn high_surrogate_at_the_end_gives_invalid_name() {
    assert_eq!(get_process_name(&[0x0041, 0xD83D]), "[Invalid Name]");
}

#[test]
fn surrogate_pair_is_one_character() {
    let path = wide("C:\\tools\\\u{1F600}.exe");
    assert_eq!(get_process_name(&path), "\u{1F600}.exe");
    assert_eq!(decode_utf16(&[0xD83D, 0xDE00]), Some(vec!['\u{1F600}']));
    assert_eq!(decode_utf16(&[0xD800, 0xDC00]), Some(vec!['\u{10000}']));
    assert_eq!(decode_utf16(&[0xDBFF, 0xDFFF]), Some(vec!['\u{10FFFF}']));
}

#[test]
fn units_outside_the_surrogate_range_stand_for_themselves() {
    assert_eq!(
        decode_utf16(&[0x0000, 0x0041, 0xD7FF, 0xE000, 0xFFFF]),
        Some(vec!['\0', 'A', '\u{D7FF}', '\u{E000}', '\u{FFFF}'])
    );
    assert_eq!(decode_utf16(&[]), Some(vec![]));
}

#[test]
fn decoding_agrees_with_the_standard_decoder() {
    let samples: [&[u16]; 6] = [
        &[0x0048, 0x0069],
        &[0xD83D, 0xDE00, 0x0021],
        &[0xD83D],
        &[0xDE00, 0xD83D],
        &[0x0041, 0xD800, 0xD800, 0xDC00],
        &[0x00E9, 0x4E2D, 0x6587],
    ];
    for units in samples {
        let expected: Option<Vec<char>> =
            String::from_utf16(units).ok().map(|text| text.chars().collect());
        assert_eq!(decode_utf16(units), expected);
    }
}

#[test]
fn both_separators_part_components() {
    assert_eq!(base("C:/mixed\\parts/x.exe"), "x.exe");
    assert_eq!(base("/usr/bin/tool"), "tool");
    assert_eq!(base("relative\\tool.exe"), "tool.exe");
}

#[test]
fn separators_at_the_end_are_passed_over() {
    assert_eq!(base("C:\\Program Files\\App\\"), "App");
    assert_eq!(base("C:\\Program Files\\App\\\\//"), "App");
}

#[test]
fn single_dots_are_passed_over() {
    assert_eq!(base("C:\\dir\\."), "dir");
    assert_eq!(base("C:\\dir\\.\\.\\"), "dir");
    assert_eq!(base("."), "");
    assert_eq!(base(".\\tool.exe"), "tool.exe");
}

#[test]
fn two_dots_at_the_end_give_no_name() {
    assert_eq!(base("C:\\dir\\.."), "");
    assert_eq!(base("C:\\dir\\..\\"), "");
    assert_eq!(base(".."), "");
    assert_eq!(base("C:\\dir\\..\\."), "");
}

#[test]
fn dots_inside_a_name_are_kept() {
    assert_eq!(base("C:\\dir\\..."), "...");
    assert_eq!(base("C:\\dir\\.hidden"), ".hidden");
    assert_eq!(base("C:\\dir\\a."), "a.");
    assert_eq!(base("C:\\dir\\..b"), "..b");
}

#[test]
fn path_without_a_file_gives_empty_name() {
    assert_eq!(base(""), "");
    assert_eq!(base("\\"), "");
    assert_eq!(base("C:\\"), "");
    assert_eq!(base("C:"), "");
    assert_eq!(base("c:/"), "");
    assert_eq!(get_process_name(&wide("C:\\")), "");
}

#[test]
fn drive_designator_is_set_aside() {
    assert_eq!(base("C:tool.exe"), "tool.exe");
    assert_eq!(base("z:tool.exe"), "tool.exe");
    assert_eq!(base("1:tool.exe"), "1:tool.exe");
    assert_eq!(base("C:\\dir\\D:"), "D:");
}

#[test]
fn name_without_directory_is_itself() {
    assert_eq!(base("svchost.exe"), "svchost.exe");
    assert_eq!(get_process_name(&wide("svchost.exe")), "svchost.exe");
}

#[test]
fn system_style_paths() {
    assert_eq!(base("\\SystemRoot\\System32\\smss.exe"), "smss.exe");
    assert_eq!(base("\\??\\C:\\Windows\\system32\\csrss.exe"), "csrss.exe");
    assert_eq!(base("\\\\?\\C:\\Windows\\explorer.exe"), "explorer.exe");
    assert_eq!(base("\\\\server\\share\\tool.exe"), "tool.exe");
}

#[test]
fn name_with_spaces_and_brackets() {
    assert_eq!(base("C:\\x\\[Invalid Name]"), "[Invalid Name]");
    assert_eq!(base("C:\\x\\my tool (1).exe"), "my tool (1).exe");
}
