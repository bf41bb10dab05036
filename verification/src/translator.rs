//! Decisions of word-selection translation: which copied text is sent for
//! translation, and what the popup shows.
use vstd::prelude::*;

use crate::text::{trim, trimmed};

verus! {

/// The popup text while nothing has been selected yet.
pub const SELECT_TEXT_HINT: &'static str = "请选中需要翻译的文字触发划词翻译";

/// The popup text when the translation service fails.
pub const TRANSLATION_FAILED: &'static str = "翻译接口失效，请更换";

/// What the translator popup shows: the text, or the selection hint when
/// the text is blank.
pub fn popup_text(text: String) -> (r: String)
    ensures
        trim(text@).len() == 0 ==> r@ == SELECT_TEXT_HINT@,
        trim(text@).len() > 0 ==> r@ == text@,
{
    let t = trimmed(text.as_str());
    if t.unicode_len() == 0 {
        String::from_str(SELECT_TEXT_HINT)
    } else {
        text
    }
}

/// The text that the translate-selection shortcut translates: the trimmed
/// selection, or nothing when it is blank.
pub fn selection_to_translate(copied: &str) -> (r: Option<String>)
    ensures
        match r {
            Some(t) => trim(copied@).len() > 0 && t@ == trim(copied@),
            None => trim(copied@).len() == 0,
        },
{
    let t = trimmed(copied);
    if t.unicode_len() == 0 {
        None
    } else {
        Some(t)
    }
}

/// The text shown for a translation: the translation, or the failure
/// notice when the service failed.
pub fn translation_text(result: Option<String>) -> (r: String)
    ensures
        r@ == match result {
            Some(t) => t@,
            None => TRANSLATION_FAILED@,
        },
{
    match result {
        Some(t) => t,
        None => String::from_str(TRANSLATION_FAILED),
    }
}

/// Decides whether a mouse selection is translated: a selection was
/// completed outside the application's windows and the copied text differs
/// from the last one translated, which it then becomes.
pub fn selection_to_translate_after_drag(
    selected: bool,
    pointer_in_window: bool,
    copied: Option<String>,
    last: &mut String,
) -> (r: Option<String>)
    ensures
        match r {
            Some(t) => selected && !pointer_in_window && (copied matches Some(c) && c@ == t@) && t@
                != old(last)@ && final(last)@ == t@,
            None => final(last)@ == old(last)@ && (!selected || pointer_in_window || copied is None
                || (copied matches Some(c) && c@ == old(last)@)),
        },
{
    if !selected || pointer_in_window {
        return None;
    }
    match copied {
        None => None,
        Some(text) => {
            if text == *last {
                None
            } else {
                *last = text.clone();
                Some(text)
            }
        },
    }
}

/// A language of the translation service: automatic detection (as a
/// source only), English, Chinese, or another of the service's languages
/// by its code number.
#[derive(Debug, Clone, Copy, PartialEq, Eq, Structural)]
pub enum Lang {
    Auto,
    EN,
    ZH,
    Other(u32),
}

/// The source and target languages of a translation request.
#[derive(Debug, Clone, Copy, PartialEq, Eq, Structural)]
pub struct LangPair {
    pub source: Lang,
    pub target: Lang,
}

/// The languages of a selection's translation: detected source, Chinese
/// target.
pub fn default_languages() -> (r: LangPair)
    ensures
        r == (LangPair { source: Lang::Auto, target: Lang::ZH }),
{
    LangPair { source: Lang::Auto, target: Lang::ZH }
}

/// The languages after the swap button: the target becomes the source, and
/// the source becomes the target, English when the source was detected.
pub fn swap_languages(p: LangPair) -> (r: LangPair)
    ensures
        r == swapped(p),
        r.source == p.target,
        r.target == (if p.source == Lang::Auto {
            Lang::EN
        } else {
            p.source
        }),
{
    LangPair {
        source: p.target,
        target: if p.source == Lang::Auto {
            Lang::EN
        } else {
            p.source
        },
    }
}

/// Whether a change of languages during a frame asks for a new
/// translation.
pub fn needs_retranslation(before: LangPair, after: LangPair) -> (r: bool)
    ensures
        r == (before != after),
{
    before != after
}

/// What the translator window does after a frame.
#[derive(Debug, Clone, Copy, PartialEq, Eq)]
pub struct TranslatorFrame {
    /// Close the window, unregistering its shortcut.
    pub close_window: bool,
    /// Send a translation task.
    pub translate: bool,
}

/// The translator window's decisions for a frame: Escape closes it; the
/// translate button, the window's shortcut or a change of languages (from
/// `before` to `after`) asks for a translation.
pub fn translator_frame(
    before: LangPair,
    after: LangPair,
    escape: bool,
    translate_clicked: bool,
    shortcut_pressed: bool,
) -> (r: TranslatorFrame)
    ensures
        r.close_window == escape,
        r.translate == (shortcut_pressed || translate_clicked || before != after),
{
    let changed = needs_retranslation(before, after);
    TranslatorFrame {
        close_window: escape,
        translate: shortcut_pressed || translate_clicked || changed,
    }
}

/// The languages after the swap button, as a value.
pub open spec fn swapped(p: LangPair) -> LangPair {
    LangPair {
        source: p.target,
        target: if p.source == Lang::Auto {
            Lang::EN
        } else {
            p.source
        },
    }
}

/// Swapping twice gives back the languages one started from, unless the
/// source was detected automatically (then the target becomes English).
pub proof fn lemma_swap_twice(p: LangPair)
    requires
        p.target != Lang::Auto,
    ensures
        p.source != Lang::Auto ==> swapped(swapped(p)) == p,
        p.source == Lang::Auto ==> swapped(swapped(p)) == (LangPair {
            source: Lang::EN,
            target: p.target,
        }),
{
}

} // verus!
