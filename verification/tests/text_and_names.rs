use rblx_godot::enums::MessageType;
use rblx_godot::text::{api_name_compatible, camel_case_to_snake_case, escape_bbcode_and_format};

#[test]
fn snake_case_basic() {
    assert_eq!(camel_case_to_snake_case("FastFlag"), "fast_flag");
    assert_eq!(
        camel_case_to_snake_case("ModelStreamingBehavior"),
        "model_streaming_behavior"
    );
}

#[test]
fn snake_case_first_char_lowered_only() {
    assert_eq!(camel_case_to_snake_case("Abc"), "abc");
    assert_eq!(camel_case_to_snake_case("already_snake"), "already_snake");
}

#[test]
fn snake_case_acronym_splits_every_upper() {
    assert_eq!(camel_case_to_snake_case("VSync"), "v_sync");
    assert_eq!(camel_case_to_snake_case("FPS"), "f_p_s");
}

#[test]
fn snake_case_empty() {
    assert_eq!(camel_case_to_snake_case(""), "");
}

#[test]
fn escape_plain_output_untouched() {
    let out = escape_bbcode_and_format(String::from("hello"), MessageType::MessageOutput);
    assert_eq!(out, "hello");
}

#[test]
fn escape_brackets_and_wrap_error() {
    let out = escape_bbcode_and_format(String::from("[oops]"), MessageType::MessageError);
    assert_eq!(out, "[color=red][lb]oops][/color]");
}

#[test]
fn escape_info_and_warning_colors() {
    let info = escape_bbcode_and_format(String::from("i"), MessageType::MessageInfo);
    assert_eq!(info, "[color=blue]i[/color]");
    let warn = escape_bbcode_and_format(String::from("w"), MessageType::MessageWarning);
    assert_eq!(warn, "[color=orange]w[/color]");
}

#[test]
fn api_name_check() {
    assert!(api_name_compatible("Godot Engine contributors"));
    assert!(api_name_compatible("Godot"));
    assert!(!api_name_compatible("Godo"));
    assert!(!api_name_compatible("Unreal Engine"));
    assert!(!api_name_compatible(""));
}
