//! The table of transcription language codes.
//!
//! Maps a user-supplied language code or name to the language the external
//! transcription engine should use; `None` stands for automatic detection.

use vstd::prelude::*;

use crate::queue::opt_view;

verus! {

/// A transcription language the tool knows how to name.
#[derive(Clone, Copy, PartialEq, Eq, Structural, Debug)]
pub enum Language {
    Nepali,
    Hindi,
    English,
    Spanish,
    French,
    Chinese,
    Arabic,
    Portuguese,
    Russian,
    Japanese,
    German,
    Italian,
    Korean,
    Vietnamese,
    Turkish,
    Indonesian,
    Dutch,
    Thai,
    Polish,
    Swedish,
    Finnish,
    Hebrew,
    Ukrainian,
    Greek,
    Malay,
    Czech,
    Romanian,
    Danish,
    Hungarian,
    Norwegian,
    Urdu,
    Croatian,
    Bulgarian,
    Lithuanian,
    Latvian,
    Slovak,
    Catalan,
    Serbian,
    Macedonian,
    Slovenian,
    Galician,
    Azerbaijani,
    Estonian,
    Nynorsk,
    Welsh,
    Punjabi,
    Afrikaans,
    Persian,
    Basque,
    Bengali,
    Marathi,
    Belarusian,
    Kazakh,
    Armenian,
    Swahili,
    Tamil,
    Albanian,
    Tagalog,
    Bosnian,
    Icelandic,
    Kannada,
    Telugu,
    Maori,
    Gujarati,
}

/// The language a code or full name denotes; `None` for `auto`, a missing
/// code, or anything unrecognized.
pub open spec fn language_of(code: Option<Seq<char>>) -> Option<Language> {
    match code {
        None => None,
        Some(c) => {
            if c == "ne"@ || c == "nepali"@ {
                Some(Language::Nepali)
            } else if c == "hi"@ || c == "hindi"@ {
                Some(Language::Hindi)
            } else if c == "en"@ || c == "english"@ {
                Some(Language::English)
            } else if c == "es"@ || c == "spanish"@ {
                Some(Language::Spanish)
            } else if c == "fr"@ || c == "french"@ {
                Some(Language::French)
            } else if c == "zh"@ || c == "chinese"@ {
                Some(Language::Chinese)
            } else if c == "ar"@ || c == "arabic"@ {
                Some(Language::Arabic)
            } else if c == "pt"@ || c == "portuguese"@ {
                Some(Language::Portuguese)
            } else if c == "ru"@ || c == "russian"@ {
                Some(Language::Russian)
            } else if c == "ja"@ || c == "japanese"@ {
                Some(Language::Japanese)
            } else if c == "de"@ || c == "german"@ {
                Some(Language::German)
            } else if c == "it"@ || c == "italian"@ {
                Some(Language::Italian)
            } else if c == "ko"@ || c == "korean"@ {
                Some(Language::Korean)
            } else if c == "vi"@ || c == "vietnamese"@ {
                Some(Language::Vietnamese)
            } else if c == "tr"@ || c == "turkish"@ {
                Some(Language::Turkish)
            } else if c == "id"@ || c == "indonesian"@ {
                Some(Language::Indonesian)
            } else if c == "nl"@ || c == "dutch"@ {
                Some(Language::Dutch)
            } else if c == "th"@ || c == "thai"@ {
                Some(Language::Thai)
            } else if c == "pl"@ || c == "polish"@ {
                Some(Language::Polish)
            } else if c == "sv"@ || c == "swedish"@ {
                Some(Language::Swedish)
            } else if c == "fi"@ || c == "finnish"@ {
                Some(Language::Finnish)
            } else if c == "he"@ || c == "hebrew"@ {
                Some(Language::Hebrew)
            } else if c == "uk"@ || c == "ukrainian"@ {
                Some(Language::Ukrainian)
            } else if c == "el"@ || c == "greek"@ {
                Some(Language::Greek)
            } else if c == "ms"@ || c == "malay"@ {
                Some(Language::Malay)
            } else if c == "cs"@ || c == "czech"@ {
                Some(Language::Czech)
            } else if c == "ro"@ || c == "romanian"@ {
                Some(Language::Romanian)
            } else if c == "da"@ || c == "danish"@ {
                Some(Language::Danish)
            } else if c == "hu"@ || c == "hungarian"@ {
                Some(Language::Hungarian)
            } else if c == "no"@ || c == "norwegian"@ {
                Some(Language::Norwegian)
            } else if c == "ur"@ || c == "urdu"@ {
                Some(Language::Urdu)
            } else if c == "hr"@ || c == "croatian"@ {
                Some(Language::Croatian)
            } else if c == "bg"@ || c == "bulgarian"@ {
                Some(Language::Bulgarian)
            } else if c == "lt"@ || c == "lithuanian"@ {
                Some(Language::Lithuanian)
            } else if c == "lv"@ || c == "latvian"@ {
                Some(Language::Latvian)
            } else if c == "sk"@ || c == "slovak"@ {
                Some(Language::Slovak)
            } else if c == "ca"@ || c == "catalan"@ {
                Some(Language::Catalan)
            } else if c == "sr"@ || c == "serbian"@ {
                Some(Language::Serbian)
            } else if c == "mk"@ || c == "macedonian"@ {
                Some(Language::Macedonian)
            } else if c == "sl"@ || c == "slovenian"@ {
                Some(Language::Slovenian)
            } else if c == "gl"@ || c == "galician"@ {
                Some(Language::Galician)
            } else if c == "az"@ || c == "azerbaijani"@ {
                Some(Language::Azerbaijani)
            } else if c == "et"@ || c == "estonian"@ {
                Some(Language::Estonian)
            } else if c == "nn"@ || c == "nynorsk"@ {
                Some(Language::Nynorsk)
            } else if c == "cy"@ || c == "welsh"@ {
                Some(Language::Welsh)
            } else if c == "pa"@ || c == "punjabi"@ {
                Some(Language::Punjabi)
            } else if c == "af"@ || c == "afrikaans"@ {
                Some(Language::Afrikaans)
            } else if c == "fa"@ || c == "persian"@ {
                Some(Language::Persian)
            } else if c == "eu"@ || c == "basque"@ {
                Some(Language::Basque)
            } else if c == "bn"@ || c == "bengali"@ {
                Some(Language::Bengali)
            } else if c == "mr"@ || c == "marathi"@ {
                Some(Language::Marathi)
            } else if c == "be"@ || c == "belarusian"@ {
                Some(Language::Belarusian)
            } else if c == "kk"@ || c == "kazakh"@ {
                Some(Language::Kazakh)
            } else if c == "hy"@ || c == "armenian"@ {
                Some(Language::Armenian)
            } else if c == "sw"@ || c == "swahili"@ {
                Some(Language::Swahili)
            } else if c == "ta"@ || c == "tamil"@ {
                Some(Language::Tamil)
            } else if c == "sq"@ || c == "albanian"@ {
                Some(Language::Albanian)
            } else if c == "tl"@ || c == "tagalog"@ {
                Some(Language::Tagalog)
            } else if c == "bs"@ || c == "bosnian"@ {
                Some(Language::Bosnian)
            } else if c == "is"@ || c == "icelandic"@ {
                Some(Language::Icelandic)
            } else if c == "kn"@ || c == "kannada"@ {
                Some(Language::Kannada)
            } else if c == "te"@ || c == "telugu"@ {
                Some(Language::Telugu)
            } else if c == "mi"@ || c == "maori"@ {
                Some(Language::Maori)
            } else if c == "gu"@ || c == "gujarati"@ {
                Some(Language::Gujarati)
            } else {
                None
            }
        },
    }
}

fn is_code(c: &String, lit: &str) -> (r: bool)
    ensures
        r == (c@ == lit@),
{
    let other = String::from_str(lit);
    c.eq(&other)
}

/// Parses an optional language code or full name into a `Language`.
///
/// Returns `None` when the language should be auto-detected.
#[verifier::rlimit(40)]
pub fn parse_language(code: Option<String>) -> (r: Option<Language>)
    ensures
        r == language_of(opt_view(code)),
{
    match code {
        None => None,
        Some(c) => {
            if is_code(&c, "ne") || is_code(&c, "nepali") {
                Some(Language::Nepali)
            } else if is_code(&c, "hi") || is_code(&c, "hindi") {
                Some(Language::Hindi)
            } else if is_code(&c, "en") || is_code(&c, "english") {
                Some(Language::English)
            } else if is_code(&c, "es") || is_code(&c, "spanish") {
                Some(Language::Spanish)
            } else if is_code(&c, "fr") || is_code(&c, "french") {
                Some(Language::French)
            } else if is_code(&c, "zh") || is_code(&c, "chinese") {
                Some(Language::Chinese)
            } else if is_code(&c, "ar") || is_code(&c, "arabic") {
                Some(Language::Arabic)
            } else if is_code(&c, "pt") || is_code(&c, "portuguese") {
                Some(Language::Portuguese)
            } else if is_code(&c, "ru") || is_code(&c, "russian") {
                Some(Language::Russian)
            } else if is_code(&c, "ja") || is_code(&c, "japanese") {
                Some(Language::Japanese)
            } else if is_code(&c, "de") || is_code(&c, "german") {
                Some(Language::German)
            } else if is_code(&c, "it") || is_code(&c, "italian") {
                Some(Language::Italian)
            } else if is_code(&c, "ko") || is_code(&c, "korean") {
                Some(Language::Korean)
            } else if is_code(&c, "vi") || is_code(&c, "vietnamese") {
                Some(Language::Vietnamese)
            } else if is_code(&c, "tr") || is_code(&c, "turkish") {
                Some(Language::Turkish)
            } else if is_code(&c, "id") || is_code(&c, "indonesian") {
                Some(Language::Indonesian)
            } else if is_code(&c, "nl") || is_code(&c, "dutch") {
                Some(Language::Dutch)
            } else if is_code(&c, "th") || is_code(&c, "thai") {
                Some(Language::Thai)
            } else if is_code(&c, "pl") || is_code(&c, "polish") {
                Some(Language::Polish)
            } else if is_code(&c, "sv") || is_code(&c, "swedish") {
                Some(Language::Swedish)
            } else if is_code(&c, "fi") || is_code(&c, "finnish") {
                Some(Language::Finnish)
            } else if is_code(&c, "he") || is_code(&c, "hebrew") {
                Some(Language::Hebrew)
            } else if is_code(&c, "uk") || is_code(&c, "ukrainian") {
                Some(Language::Ukrainian)
            } else if is_code(&c, "el") || is_code(&c, "greek") {
                Some(Language::Greek)
            } else if is_code(&c, "ms") || is_code(&c, "malay") {
                Some(Language::Malay)
            } else if is_code(&c, "cs") || is_code(&c, "czech") {
                Some(Language::Czech)
            } else if is_code(&c, "ro") || is_code(&c, "romanian") {
                Some(Language::Romanian)
            } else if is_code(&c, "da") || is_code(&c, "danish") {
                Some(Language::Danish)
            } else if is_code(&c, "hu") || is_code(&c, "hungarian") {
                Some(Language::Hungarian)
            } else if is_code(&c, "no") || is_code(&c, "norwegian") {
                Some(Language::Norwegian)
            } else if is_code(&c, "ur") || is_code(&c, "urdu") {
                Some(Language::Urdu)
            } else if is_code(&c, "hr") || is_code(&c, "croatian") {
                Some(Language::Croatian)
            } else if is_code(&c, "bg") || is_code(&c, "bulgarian") {
                Some(Language::Bulgarian)
            } else if is_code(&c, "lt") || is_code(&c, "lithuanian") {
                Some(Language::Lithuanian)
            } else if is_code(&c, "lv") || is_code(&c, "latvian") {
                Some(Language::Latvian)
            } else if is_code(&c, "sk") || is_code(&c, "slovak") {
                Some(Language::Slovak)
            } else if is_code(&c, "ca") || is_code(&c, "catalan") {
                Some(Language::Catalan)
            } else if is_code(&c, "sr") || is_code(&c, "serbian") {
                Some(Language::Serbian)
            } else if is_code(&c, "mk") || is_code(&c, "macedonian") {
                Some(Language::Macedonian)
            } else if is_code(&c, "sl") || is_code(&c, "slovenian") {
                Some(Language::Slovenian)
            } else if is_code(&c, "gl") || is_code(&c, "galician") {
                Some(Language::Galician)
            } else if is_code(&c, "az") || is_code(&c, "azerbaijani") {
                Some(Language::Azerbaijani)
            } else if is_code(&c, "et") || is_code(&c, "estonian") {
                Some(Language::Estonian)
            } else if is_code(&c, "nn") || is_code(&c, "nynorsk") {
                Some(Language::Nynorsk)
            } else if is_code(&c, "cy") || is_code(&c, "welsh") {
                Some(Language::Welsh)
            } else if is_code(&c, "pa") || is_code(&c, "punjabi") {
                Some(Language::Punjabi)
            } else if is_code(&c, "af") || is_code(&c, "afrikaans") {
                Some(Language::Afrikaans)
            } else if is_code(&c, "fa") || is_code(&c, "persian") {
                Some(Language::Persian)
            } else if is_code(&c, "eu") || is_code(&c, "basque") {
                Some(Language::Basque)
            } else if is_code(&c, "bn") || is_code(&c, "bengali") {
                Some(Language::Bengali)
            } else if is_code(&c, "mr") || is_code(&c, "marathi") {
                Some(Language::Marathi)
            } else if is_code(&c, "be") || is_code(&c, "belarusian") {
                Some(Language::Belarusian)
            } else if is_code(&c, "kk") || is_code(&c, "kazakh") {
                Some(Language::Kazakh)
            } else if is_code(&c, "hy") || is_code(&c, "armenian") {
                Some(Language::Armenian)
            } else if is_code(&c, "sw") || is_code(&c, "swahili") {
                Some(Language::Swahili)
            } else if is_code(&c, "ta") || is_code(&c, "tamil") {
                Some(Language::Tamil)
            } else if is_code(&c, "sq") || is_code(&c, "albanian") {
                Some(Language::Albanian)
            } else if is_code(&c, "tl") || is_code(&c, "tagalog") {
                Some(Language::Tagalog)
            } else if is_code(&c, "bs") || is_code(&c, "bosnian") {
                Some(Language::Bosnian)
            } else if is_code(&c, "is") || is_code(&c, "icelandic") {
                Some(Language::Icelandic)
            } else if is_code(&c, "kn") || is_code(&c, "kannada") {
                Some(Language::Kannada)
            } else if is_code(&c, "te") || is_code(&c, "telugu") {
                Some(Language::Telugu)
            } else if is_code(&c, "mi") || is_code(&c, "maori") {
                Some(Language::Maori)
            } else if is_code(&c, "gu") || is_code(&c, "gujarati") {
                Some(Language::Gujarati)
            } else {
                None
            }
        },
    }
}

} // verus!
