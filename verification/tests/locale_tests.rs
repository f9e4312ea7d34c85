use im_select::error::SwitchError;
use im_select::locale::{
    conversion_mode_token, format_u64, layout_locale, layout_locale_text, parse_locale,
};
use im_select::platform::{get_input_method, switch_input_method};

#[test]
fn format_decimal() {
    assert_eq!(format_u64(0), "0");
    assert_eq!(format_u64(7), "7");
    assert_eq!(format_u64(1033), "1033");
    assert_eq!(format_u64(2052), "2052");
    assert_eq!(format_u64(u64::MAX), "18446744073709551615");
}

#[test]
fn parse_locale_accepts_decimal() {
    assert_eq!(parse_locale("1033"), Ok(1033));
    assert_eq!(parse_locale("0"), Ok(0));
    assert_eq!(parse_locale("+2052"), Ok(2052));
    assert_eq!(parse_locale("4294967295"), Ok(u32::MAX));
}

#[test]
fn parse_locale_rejects_everything_else() {
    assert_eq!(
        parse_locale(""),
        Err(SwitchError::InvalidLocale { text: "".to_string() })
    );
    assert_eq!(
        parse_locale("+"),
        Err(SwitchError::InvalidLocale { text: "+".to_string() })
    );
    assert_eq!(
        parse_locale("10a3"),
        Err(SwitchError::InvalidLocale { text: "10a3".to_string() })
    );
    assert_eq!(
        parse_locale("-1"),
        Err(SwitchError::InvalidLocale { text: "-1".to_string() })
    );
    assert_eq!(
        parse_locale("4294967296"),
        Err(SwitchError::InvalidLocale { text: "4294967296".to_string() })
    );
}

#[test]
fn invalid_locale_message() {
    let e = parse_locale("oops").unwrap_err();
    assert_eq!(e.describe(), "Invalid locale ID: oops");
}

#[test]
fn layout_low_word_is_the_locale() {
    // A layout handle carries the locale in its low sixteen bits.
    assert_eq!(layout_locale(0x0804_0804), 0x0804);
    assert_eq!(layout_locale(0xFFFF_FFFF_0409_0409), 0x0409);
    assert_eq!(layout_locale_text(0x0804_0804), "2052");
    assert_eq!(layout_locale_text(0x0409_0409), "1033");
}

#[test]
fn conversion_mode_marker() {
    // The native bit set means the native (Chinese) mode; clear means latin.
    assert_eq!(conversion_mode_token(1), "中");
    assert_eq!(conversion_mode_token(0), "英");
    assert_eq!(conversion_mode_token(0x401), "中");
    assert_eq!(conversion_mode_token(0x400), "英");
}

#[test]
fn direct_control_is_unsupported_here() {
    assert_eq!(get_input_method(), Err(SwitchError::Unsupported));
    assert_eq!(switch_input_method("1033"), Err(SwitchError::Unsupported));
    let e = get_input_method().unwrap_err();
    assert!(e.describe().contains("not supported"));
}
