use markzap::assets::{AppIconName, Assets};
use markzap::page::generate_presentation_html;
use markzap::paths::{
    file_url_path, percent_decode, percent_decode_bytes, read_error_markdown, window_title,
};
use markzap::state::{AppMode, ViewState};

#[test]
fn mode_defaults_to_preview() {
    assert_eq!(AppMode::default(), AppMode::Preview);
}

#[test]
fn view_state_tracks_presentation() {
    let mut v = ViewState::new("# Plain".to_string());
    assert_eq!(v.mode(), AppMode::Preview);
    assert_eq!(v.content(), "# Plain");
    assert!(!v.has_presentation());
    assert!(v.presentation_html().is_none());

    v.set_mode(AppMode::Edit);
    assert_eq!(v.mode(), AppMode::Edit);
    let deck = "a\n---\nb\n---\nc\n---\n";
    v.update_content(deck.to_string());
    assert_eq!(v.mode(), AppMode::Edit);
    assert!(v.has_presentation());
    assert_eq!(v.presentation_html(), Some(generate_presentation_html(deck)));

    v.open_document("---\nauthor: me\n---\n".to_string());
    assert_eq!(v.mode(), AppMode::Preview);
    assert!(!v.has_presentation());
}

#[test]
fn icon_paths() {
    assert_eq!(AppIconName::Pencil.path(), "icons/pencil.svg");
    assert_eq!(AppIconName::Presentation.path(), "icons/presentation.svg");
}

#[test]
fn asset_listing_filters_by_prefix() {
    let all = vec![
        "icons/pencil.svg".to_string(),
        "fonts/a.ttf".to_string(),
        "icons/presentation.svg".to_string(),
    ];
    assert_eq!(
        Assets::matching_paths(&all, "icons/"),
        vec!["icons/pencil.svg".to_string(), "icons/presentation.svg".to_string()]
    );
    assert_eq!(Assets::matching_paths(&all, ""), all);
    assert!(Assets::matching_paths(&all, "x").is_empty());
}

#[test]
fn percent_decoding() {
    assert_eq!(percent_decode("/my%20file.md"), "/my file.md");
    assert_eq!(percent_decode("%41%62"), "Ab");
    assert_eq!(percent_decode("%zz%"), "%zz%");
    assert_eq!(percent_decode("a%2"), "a%2");
    assert_eq!(percent_decode("%2B"), "+");
    assert_eq!(percent_decode("%+41"), "\u{4}1");
    assert_eq!(percent_decode("%C3%A9"), "é");
    assert_eq!(percent_decode("%FF"), "\u{FFFD}");
    assert_eq!(percent_decode_bytes(b"%25%2"), b"%%2".to_vec());
}

#[test]
fn file_urls() {
    assert_eq!(file_url_path("file:///tmp/a%20b.md"), Some("/tmp/a b.md".to_string()));
    assert_eq!(file_url_path("http://x/y.md"), None);
    assert_eq!(file_url_path("file:/"), None);
}

#[test]
fn titles_and_messages() {
    assert_eq!(window_title(None), "MarkZap");
    assert_eq!(window_title(Some("a.md")), "MarkZap \u{2014} a.md");
    assert_eq!(
        read_error_markdown("/x.md", "not found"),
        "# Error\n\nCould not read `/x.md`:\n\n```\nnot found\n```"
    );
}
