use zero2prod::{FormData, Info};

#[test]
fn form_decodes_percent_and_plus() {
    let form = FormData::parse("email=a%40b.c&user_name=le+guin").unwrap();
    assert_eq!(form.email, "a@b.c");
    assert_eq!(form.user_name, "le guin");
}

#[test]
fn form_accepts_fields_in_any_order() {
    let form = FormData::parse("user_name=n&email=e").unwrap();
    assert_eq!(form.email, "e");
    assert_eq!(form.user_name, "n");
}

#[test]
fn form_ignores_unknown_keys() {
    let form = FormData::parse("email=a&user_name=b&extra=1").unwrap();
    assert_eq!(form.email, "a");
    assert_eq!(form.user_name, "b");
}

#[test]
fn form_allows_empty_values() {
    // Presence is what the create operation checks; emptiness is a known
    // gap, so an empty value still parses.
    let form = FormData::parse("email=&user_name=").unwrap();
    assert_eq!(form.email, "");
    assert_eq!(form.user_name, "");
}

#[test]
fn form_rejects_incomplete_escape() {
    assert!(FormData::parse("email=a%4&user_name=b").is_none());
    assert!(FormData::parse("email=a%&user_name=b").is_none());
}

#[test]
fn form_rejects_non_hex_escape() {
    assert!(FormData::parse("email=a%zz&user_name=b").is_none());
}

#[test]
fn form_decodes_utf8_escapes() {
    let form = FormData::parse("email=%C3%A9@x.com&user_name=le%20gu%C3%ADn").unwrap();
    assert_eq!(form.email, "é@x.com");
    assert_eq!(form.user_name, "le guín");
}

#[test]
fn form_passes_raw_non_ascii_through() {
    let form = FormData::parse("email=é@x.com&user_name=ürsula").unwrap();
    assert_eq!(form.email, "é@x.com");
    assert_eq!(form.user_name, "ürsula");
}

#[test]
fn form_decodes_four_byte_escapes() {
    let form = FormData::parse("email=a&user_name=%F0%9F%91%8D").unwrap();
    assert_eq!(form.user_name, "\u{1F44D}");
}

#[test]
fn form_rejects_invalid_utf8_bytes() {
    // 0xC3 must be followed by a continuation byte.
    assert!(FormData::parse("email=%C3%28&user_name=b").is_none());
    // A lone continuation byte.
    assert!(FormData::parse("email=%A9&user_name=b").is_none());
    // An overlong encoding.
    assert!(FormData::parse("email=%C0%80&user_name=b").is_none());
}

#[test]
fn form_rejects_duplicate_required_key() {
    assert!(FormData::parse("email=a&email=b&user_name=c").is_none());
    assert!(FormData::parse("email=a&user_name=b&user_name=c").is_none());
}

#[test]
fn form_treats_component_without_equals_as_empty_value() {
    let form = FormData::parse("email&user_name=b").unwrap();
    assert_eq!(form.email, "");
    assert_eq!(form.user_name, "b");
}

#[test]
fn form_skips_empty_components() {
    let form = FormData::parse("email=a&&user_name=b&").unwrap();
    assert_eq!(form.email, "a");
    assert_eq!(form.user_name, "b");
    assert!(FormData::parse("&").is_none());
}

#[test]
fn form_keeps_second_equals_in_value() {
    let form = FormData::parse("email=a=b&user_name=c").unwrap();
    assert_eq!(form.email, "a=b");
}

#[test]
fn query_decodes_email() {
    let info = Info::parse("email=x%2By@example.com").unwrap();
    assert_eq!(info.email, "x+y@example.com");
}

#[test]
fn query_rejects_missing_email() {
    assert!(Info::parse("").is_none());
    assert!(Info::parse("other=1").is_none());
}

#[test]
fn query_rejects_duplicate_email() {
    assert!(Info::parse("email=a&email=b").is_none());
}
