use trinity::translator::{
    default_languages, swap_languages, translator_frame, Lang, LangPair,
    popup_text, selection_to_translate, selection_to_translate_after_drag, translation_text,
    SELECT_TEXT_HINT, TRANSLATION_FAILED,
};
use trinity::tray::{low_word, tray_event_for_command, TrayEvent};

#[test]
fn popup_shows_hint_for_blank_text() {
    assert_eq!(popup_text(" \n".to_string()), SELECT_TEXT_HINT);
    assert_eq!(popup_text(" hi ".to_string()), " hi ");
    assert_eq!(translation_text(None), TRANSLATION_FAILED);
    assert_eq!(translation_text(Some("ok".to_string())), "ok");
}

#[test]
fn selection_is_trimmed_and_blank_is_skipped() {
    assert_eq!(selection_to_translate("  word "), Some("word".to_string()));
    assert_eq!(selection_to_translate("\t"), None);
}

#[test]
fn dragged_selection_is_translated_once() {
    let mut last = String::new();
    assert_eq!(
        selection_to_translate_after_drag(true, false, Some("a".to_string()), &mut last),
        Some("a".to_string())
    );
    assert_eq!(last, "a");
    assert_eq!(
        selection_to_translate_after_drag(true, false, Some("a".to_string()), &mut last),
        None
    );
    assert_eq!(
        selection_to_translate_after_drag(true, true, Some("b".to_string()), &mut last),
        None
    );
    assert_eq!(
        selection_to_translate_after_drag(false, false, Some("b".to_string()), &mut last),
        None
    );
    assert_eq!(last, "a");
}

#[test]
fn low_word_keeps_the_low_16_bits() {
    assert_eq!(low_word(0x0012_1001), 0x1001);
    assert_eq!(low_word(0xFFFF_FFFF), 0xFFFF);
}

#[test]
fn tray_commands_map_to_events() {
    assert_eq!(tray_event_for_command(1001), Some(TrayEvent::ShowPanel));
    assert_eq!(tray_event_for_command(0x0005_03EA), Some(TrayEvent::Exit));
    assert_eq!(tray_event_for_command(1003), None);
}

#[test]
fn swap_turns_detected_source_into_english_target() {
    let start = default_languages();
    assert_eq!(start, LangPair { source: Lang::Auto, target: Lang::ZH });
    let swapped = swap_languages(start);
    assert_eq!(swapped, LangPair { source: Lang::ZH, target: Lang::EN });
    assert_eq!(
        swap_languages(swapped),
        LangPair { source: Lang::EN, target: Lang::ZH }
    );
    let other = LangPair { source: Lang::Other(7), target: Lang::EN };
    assert_eq!(swap_languages(swap_languages(other)), other);
}

#[test]
fn frame_translates_on_language_change_and_closes_on_escape() {
    let start = default_languages();
    let swapped = swap_languages(start);
    let f = translator_frame(start, swapped, false, false, false);
    assert!(f.translate && !f.close_window);
    let f = translator_frame(start, start, true, false, false);
    assert!(!f.translate && f.close_window);
    assert!(translator_frame(start, start, false, true, false).translate);
    assert!(translator_frame(start, start, false, false, true).translate);
}
