use prism::launcher::{
    desktop_device_info, desktop_refusal, event_body, event_title, file_failure, greet,
    immersive_reply, server_message, FileStep, PhoneFeature,
};
use prism::text::{bool_str, chars_of, contains_text, decimal, parse_u32, same_text};

#[test]
fn greeting_names_the_guest() {
    assert_eq!(greet("Ada"), "Hello, Ada! You've been greeted from Rust!");
}

#[test]
fn phone_features_are_refused() {
    assert!(desktop_refusal(PhoneFeature::Vibration).contains("Android"));
    assert_ne!(
        desktop_refusal(PhoneFeature::Immersive),
        desktop_refusal(PhoneFeature::StatusBar)
    );
    assert_eq!(immersive_reply(Some(true)), Ok(true));
    assert!(immersive_reply(None).is_err());
}

#[test]
fn numbers_are_read_like_the_standard_library_does() {
    for text in [
        "", "0", "7", "+7", "-7", "+", "007", "4294967295", "4294967296", "99999999999999999999",
        "1x", " 1", "1 ", "0x10", "+0004294967295",
    ] {
        assert_eq!(parse_u32(text), text.parse::<u32>().ok(), "{:?}", text);
    }
}

#[test]
fn numbers_are_written() {
    for n in [0u64, 9, 10, 12345, u64::MAX] {
        assert_eq!(decimal(n), n.to_string());
    }
    assert_eq!((bool_str(true), bool_str(false)), ("true", "false"));
}

#[test]
fn texts_are_searched() {
    assert!(contains_text("abcabd", "abd"));
    assert!(contains_text("abc", ""));
    assert!(!contains_text("ab", "abc"));
    assert!(same_text("é", "é"));
    assert!(!same_text("a", "ab"));
    assert_eq!(chars_of("aé"), vec!['a', 'é']);
}

#[test]
fn launcher_texts() {
    assert_eq!(server_message(), "这条数据来自 Rust 后端");
    assert_eq!(event_title(), "来自 Rust 的事件");
    assert_eq!(event_body(1700000000123), "事件触发时间戳: 1700000000123");
    assert_eq!(desktop_device_info().platform, "desktop");
    assert_eq!(file_failure(FileStep::FindDirectory, "x"), "获取目录失败: x");
    assert_eq!(file_failure(FileStep::CreateDirectory, "x"), "创建目录失败: x");
    assert_eq!(file_failure(FileStep::Write, "no space"), "写入失败: no space");
    assert_eq!(file_failure(FileStep::Read, ""), "读取失败: ");
}
