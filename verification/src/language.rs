//! The language editions of Wikipedia that the library can address.
//!
//! Every language of the table has a Wikipedia edition: a language without
//! one is left out here, so no request ever meets it.

use crate::text::{chars_of, find_text, first_occurrence, same_text, slice_string};
use vstd::prelude::*;

verus! {

/// A language with a Wikipedia edition of its own.
#[derive(Clone, Copy, Debug, PartialEq, Eq, Hash, Structural)]
pub enum WikiLanguage {
    Arabic,
    Catalan,
    Czech,
    Danish,
    German,
    Greek,
    English,
    Esperanto,
    Spanish,
    Persian,
    Finnish,
    French,
    Hebrew,
    Hindi,
    Hungarian,
    Indonesian,
    Icelandic,
    Italian,
    Japanese,
    Korean,
    Latin,
    Dutch,
    Navajo,
    Polish,
    Portuguese,
    Romanian,
    Russian,
    Swedish,
    Tongan,
    Turkish,
    Ukrainian,
    Vietnamese,
    Chinese,
}

/// The language whose code is `code`, if the table has one.
pub open spec fn language_with_code(code: Seq<char>) -> Option<WikiLanguage> {
    if code == "ar"@ {
        Some(WikiLanguage::Arabic)
    } else if code == "ca"@ {
        Some(WikiLanguage::Catalan)
    } else if code == "cs"@ {
        Some(WikiLanguage::Czech)
    } else if code == "da"@ {
        Some(WikiLanguage::Danish)
    } else if code == "de"@ {
        Some(WikiLanguage::German)
    } else if code == "el"@ {
        Some(WikiLanguage::Greek)
    } else if code == "en"@ {
        Some(WikiLanguage::English)
    } else if code == "eo"@ {
        Some(WikiLanguage::Esperanto)
    } else if code == "es"@ {
        Some(WikiLanguage::Spanish)
    } else if code == "fa"@ {
        Some(WikiLanguage::Persian)
    } else if code == "fi"@ {
        Some(WikiLanguage::Finnish)
    } else if code == "fr"@ {
        Some(WikiLanguage::French)
    } else if code == "he"@ {
        Some(WikiLanguage::Hebrew)
    } else if code == "hi"@ {
        Some(WikiLanguage::Hindi)
    } else if code == "hu"@ {
        Some(WikiLanguage::Hungarian)
    } else if code == "id"@ {
        Some(WikiLanguage::Indonesian)
    } else if code == "is"@ {
        Some(WikiLanguage::Icelandic)
    } else if code == "it"@ {
        Some(WikiLanguage::Italian)
    } else if code == "ja"@ {
        Some(WikiLanguage::Japanese)
    } else if code == "ko"@ {
        Some(WikiLanguage::Korean)
    } else if code == "la"@ {
        Some(WikiLanguage::Latin)
    } else if code == "nl"@ {
        Some(WikiLanguage::Dutch)
    } else if code == "nv"@ {
        Some(WikiLanguage::Navajo)
    } else if code == "pl"@ {
        Some(WikiLanguage::Polish)
    } else if code == "pt"@ {
        Some(WikiLanguage::Portuguese)
    } else if code == "ro"@ {
        Some(WikiLanguage::Romanian)
    } else if code == "ru"@ {
        Some(WikiLanguage::Russian)
    } else if code == "sv"@ {
        Some(WikiLanguage::Swedish)
    } else if code == "to"@ {
        Some(WikiLanguage::Tongan)
    } else if code == "tr"@ {
        Some(WikiLanguage::Turkish)
    } else if code == "uk"@ {
        Some(WikiLanguage::Ukrainian)
    } else if code == "vi"@ {
        Some(WikiLanguage::Vietnamese)
    } else if code == "zh"@ {
        Some(WikiLanguage::Chinese)
    } else {
        None
    }
}

impl WikiLanguage {
    /// The short code of the language, which is also the first label of its
    /// edition's host name.
    pub open spec fn code(self) -> Seq<char> {
        match self {
            WikiLanguage::Arabic => "ar"@,
            WikiLanguage::Catalan => "ca"@,
            WikiLanguage::Czech => "cs"@,
            WikiLanguage::Danish => "da"@,
            WikiLanguage::German => "de"@,
            WikiLanguage::Greek => "el"@,
            WikiLanguage::English => "en"@,
            WikiLanguage::Esperanto => "eo"@,
            WikiLanguage::Spanish => "es"@,
            WikiLanguage::Persian => "fa"@,
            WikiLanguage::Finnish => "fi"@,
            WikiLanguage::French => "fr"@,
            WikiLanguage::Hebrew => "he"@,
            WikiLanguage::Hindi => "hi"@,
            WikiLanguage::Hungarian => "hu"@,
            WikiLanguage::Indonesian => "id"@,
            WikiLanguage::Icelandic => "is"@,
            WikiLanguage::Italian => "it"@,
            WikiLanguage::Japanese => "ja"@,
            WikiLanguage::Korean => "ko"@,
            WikiLanguage::Latin => "la"@,
            WikiLanguage::Dutch => "nl"@,
            WikiLanguage::Navajo => "nv"@,
            WikiLanguage::Polish => "pl"@,
            WikiLanguage::Portuguese => "pt"@,
            WikiLanguage::Romanian => "ro"@,
            WikiLanguage::Russian => "ru"@,
            WikiLanguage::Swedish => "sv"@,
            WikiLanguage::Tongan => "to"@,
            WikiLanguage::Turkish => "tr"@,
            WikiLanguage::Ukrainian => "uk"@,
            WikiLanguage::Vietnamese => "vi"@,
            WikiLanguage::Chinese => "zh"@,
        }
    }

    /// The name of the language in the language itself.
    pub open spec fn name(self) -> Seq<char> {
        match self {
            WikiLanguage::Arabic => "العربية"@,
            WikiLanguage::Catalan => "català"@,
            WikiLanguage::Czech => "čeština"@,
            WikiLanguage::Danish => "dansk"@,
            WikiLanguage::German => "Deutsch"@,
            WikiLanguage::Greek => "Ελληνικά"@,
            WikiLanguage::English => "English"@,
            WikiLanguage::Esperanto => "Esperanto"@,
            WikiLanguage::Spanish => "español"@,
            WikiLanguage::Persian => "فارسی"@,
            WikiLanguage::Finnish => "suomi"@,
            WikiLanguage::French => "français"@,
            WikiLanguage::Hebrew => "עברית"@,
            WikiLanguage::Hindi => "हिन्दी"@,
            WikiLanguage::Hungarian => "magyar"@,
            WikiLanguage::Indonesian => "Bahasa Indonesia"@,
            WikiLanguage::Icelandic => "íslenska"@,
            WikiLanguage::Italian => "italiano"@,
            WikiLanguage::Japanese => "日本語"@,
            WikiLanguage::Korean => "한국어"@,
            WikiLanguage::Latin => "Latina"@,
            WikiLanguage::Dutch => "Nederlands"@,
            WikiLanguage::Navajo => "Diné bizaad"@,
            WikiLanguage::Polish => "polski"@,
            WikiLanguage::Portuguese => "português"@,
            WikiLanguage::Romanian => "română"@,
            WikiLanguage::Russian => "русский"@,
            WikiLanguage::Swedish => "svenska"@,
            WikiLanguage::Tongan => "lea faka-Tonga"@,
            WikiLanguage::Turkish => "Türkçe"@,
            WikiLanguage::Ukrainian => "українська"@,
            WikiLanguage::Vietnamese => "Tiếng Việt"@,
            WikiLanguage::Chinese => "中文"@,
        }
    }

    /// Looks a language up by its code.
    pub fn from_code(code: &str) -> (r: Option<WikiLanguage>)
        ensures
            r == language_with_code(code@),
    {
        if same_text(code, "ar") {
            Some(WikiLanguage::Arabic)
        } else if same_text(code, "ca") {
            Some(WikiLanguage::Catalan)
        } else if same_text(code, "cs") {
            Some(WikiLanguage::Czech)
        } else if same_text(code, "da") {
            Some(WikiLanguage::Danish)
        } else if same_text(code, "de") {
            Some(WikiLanguage::German)
        } else if same_text(code, "el") {
            Some(WikiLanguage::Greek)
        } else if same_text(code, "en") {
            Some(WikiLanguage::English)
        } else if same_text(code, "eo") {
            Some(WikiLanguage::Esperanto)
        } else if same_text(code, "es") {
            Some(WikiLanguage::Spanish)
        } else if same_text(code, "fa") {
            Some(WikiLanguage::Persian)
        } else if same_text(code, "fi") {
            Some(WikiLanguage::Finnish)
        } else if same_text(code, "fr") {
            Some(WikiLanguage::French)
        } else if same_text(code, "he") {
            Some(WikiLanguage::Hebrew)
        } else if same_text(code, "hi") {
            Some(WikiLanguage::Hindi)
        } else if same_text(code, "hu") {
            Some(WikiLanguage::Hungarian)
        } else if same_text(code, "id") {
            Some(WikiLanguage::Indonesian)
        } else if same_text(code, "is") {
            Some(WikiLanguage::Icelandic)
        } else if same_text(code, "it") {
            Some(WikiLanguage::Italian)
        } else if same_text(code, "ja") {
            Some(WikiLanguage::Japanese)
        } else if same_text(code, "ko") {
            Some(WikiLanguage::Korean)
        } else if same_text(code, "la") {
            Some(WikiLanguage::Latin)
        } else if same_text(code, "nl") {
            Some(WikiLanguage::Dutch)
        } else if same_text(code, "nv") {
            Some(WikiLanguage::Navajo)
        } else if same_text(code, "pl") {
            Some(WikiLanguage::Polish)
        } else if same_text(code, "pt") {
            Some(WikiLanguage::Portuguese)
        } else if same_text(code, "ro") {
            Some(WikiLanguage::Romanian)
        } else if same_text(code, "ru") {
            Some(WikiLanguage::Russian)
        } else if same_text(code, "sv") {
            Some(WikiLanguage::Swedish)
        } else if same_text(code, "to") {
            Some(WikiLanguage::Tongan)
        } else if same_text(code, "tr") {
            Some(WikiLanguage::Turkish)
        } else if same_text(code, "uk") {
            Some(WikiLanguage::Ukrainian)
        } else if same_text(code, "vi") {
            Some(WikiLanguage::Vietnamese)
        } else if same_text(code, "zh") {
            Some(WikiLanguage::Chinese)
        } else {
            None
        }
    }

    /// The code under which the language's Wikipedia is reached. It is there
    /// for every language of the table.
    pub fn as_code_wiki(&self) -> (r: Option<&'static str>)
        ensures
            r is Some,
            r.unwrap()@ == self.code(),
    {
        Some(
            match self {
                WikiLanguage::Arabic => "ar",
                WikiLanguage::Catalan => "ca",
                WikiLanguage::Czech => "cs",
                WikiLanguage::Danish => "da",
                WikiLanguage::German => "de",
                WikiLanguage::Greek => "el",
                WikiLanguage::English => "en",
                WikiLanguage::Esperanto => "eo",
                WikiLanguage::Spanish => "es",
                WikiLanguage::Persian => "fa",
                WikiLanguage::Finnish => "fi",
                WikiLanguage::French => "fr",
                WikiLanguage::Hebrew => "he",
                WikiLanguage::Hindi => "hi",
                WikiLanguage::Hungarian => "hu",
                WikiLanguage::Indonesian => "id",
                WikiLanguage::Icelandic => "is",
                WikiLanguage::Italian => "it",
                WikiLanguage::Japanese => "ja",
                WikiLanguage::Korean => "ko",
                WikiLanguage::Latin => "la",
                WikiLanguage::Dutch => "nl",
                WikiLanguage::Navajo => "nv",
                WikiLanguage::Polish => "pl",
                WikiLanguage::Portuguese => "pt",
                WikiLanguage::Romanian => "ro",
                WikiLanguage::Russian => "ru",
                WikiLanguage::Swedish => "sv",
                WikiLanguage::Tongan => "to",
                WikiLanguage::Turkish => "tr",
                WikiLanguage::Ukrainian => "uk",
                WikiLanguage::Vietnamese => "vi",
                WikiLanguage::Chinese => "zh",
            },
        )
    }

    /// The name of the language in the language itself.
    pub fn as_name(&self) -> (r: &'static str)
        ensures
            r@ == self.name(),
    {
        match self {
            WikiLanguage::Arabic => "العربية",
            WikiLanguage::Catalan => "català",
            WikiLanguage::Czech => "čeština",
            WikiLanguage::Danish => "dansk",
            WikiLanguage::German => "Deutsch",
            WikiLanguage::Greek => "Ελληνικά",
            WikiLanguage::English => "English",
            WikiLanguage::Esperanto => "Esperanto",
            WikiLanguage::Spanish => "español",
            WikiLanguage::Persian => "فارسی",
            WikiLanguage::Finnish => "suomi",
            WikiLanguage::French => "français",
            WikiLanguage::Hebrew => "עברית",
            WikiLanguage::Hindi => "हिन्दी",
            WikiLanguage::Hungarian => "magyar",
            WikiLanguage::Indonesian => "Bahasa Indonesia",
            WikiLanguage::Icelandic => "íslenska",
            WikiLanguage::Italian => "italiano",
            WikiLanguage::Japanese => "日本語",
            WikiLanguage::Korean => "한국어",
            WikiLanguage::Latin => "Latina",
            WikiLanguage::Dutch => "Nederlands",
            WikiLanguage::Navajo => "Diné bizaad",
            WikiLanguage::Polish => "polski",
            WikiLanguage::Portuguese => "português",
            WikiLanguage::Romanian => "română",
            WikiLanguage::Russian => "русский",
            WikiLanguage::Swedish => "svenska",
            WikiLanguage::Tongan => "lea faka-Tonga",
            WikiLanguage::Turkish => "Türkçe",
            WikiLanguage::Ukrainian => "українська",
            WikiLanguage::Vietnamese => "Tiếng Việt",
            WikiLanguage::Chinese => "中文",
        }
    }
}

/// The language that a query names: the one whose code follows the first
/// `lang=` and reaches to the end of the query.
pub open spec fn language_of_query(query: Seq<char>) -> Option<WikiLanguage> {
    match first_occurrence(query, "lang="@, 0) {
        Some(at) => language_with_code(query.subrange(at + "lang="@.len(), query.len() as int)),
        None => None,
    }
}

/// The language that the query of an address asks for.
pub fn language_from_query(query: &str) -> (r: Option<WikiLanguage>)
    ensures
        r == language_of_query(query@),
{
    let chars = chars_of(query);
    let key = chars_of("lang=");
    match find_text(&chars, &key) {
        Some(at) => {
            let end = chars.len();
            let code = slice_string(&chars, at + key.len(), end);
            WikiLanguage::from_code(code.as_str())
        },
        None => None,
    }
}

/// A language that was found by its code has that code.
pub proof fn lemma_found_language_has_code(code: Seq<char>)
    ensures
        language_with_code(code) matches Some(language) ==> language.code() == code,
{
}

/// The code of every language is made of two small letters.
pub proof fn lemma_code_is_two_letters(language: WikiLanguage)
    ensures
        language.code().len() == 2,
        forall|i: int|
            0 <= i < language.code().len() ==> 'a' <= #[trigger] language.code()[i]
                && language.code()[i] <= 'z',
{
    match language {
        WikiLanguage::Arabic => {
            reveal_strlit("ar");
        },
        WikiLanguage::Catalan => {
            reveal_strlit("ca");
        },
        WikiLanguage::Czech => {
            reveal_strlit("cs");
        },
        WikiLanguage::Danish => {
            reveal_strlit("da");
        },
        WikiLanguage::German => {
            reveal_strlit("de");
        },
        WikiLanguage::Greek => {
            reveal_strlit("el");
        },
        WikiLanguage::English => {
            reveal_strlit("en");
        },
        WikiLanguage::Esperanto => {
            reveal_strlit("eo");
        },
        WikiLanguage::Spanish => {
            reveal_strlit("es");
        },
        WikiLanguage::Persian => {
            reveal_strlit("fa");
        },
        WikiLanguage::Finnish => {
            reveal_strlit("fi");
        },
        WikiLanguage::French => {
            reveal_strlit("fr");
        },
        WikiLanguage::Hebrew => {
            reveal_strlit("he");
        },
        WikiLanguage::Hindi => {
            reveal_strlit("hi");
        },
        WikiLanguage::Hungarian => {
            reveal_strlit("hu");
        },
        WikiLanguage::Indonesian => {
            reveal_strlit("id");
        },
        WikiLanguage::Icelandic => {
            reveal_strlit("is");
        },
        WikiLanguage::Italian => {
            reveal_strlit("it");
        },
        WikiLanguage::Japanese => {
            reveal_strlit("ja");
        },
        WikiLanguage::Korean => {
            reveal_strlit("ko");
        },
        WikiLanguage::Latin => {
            reveal_strlit("la");
        },
        WikiLanguage::Dutch => {
            reveal_strlit("nl");
        },
        WikiLanguage::Navajo => {
            reveal_strlit("nv");
        },
        WikiLanguage::Polish => {
            reveal_strlit("pl");
        },
        WikiLanguage::Portuguese => {
            reveal_strlit("pt");
        },
        WikiLanguage::Romanian => {
            reveal_strlit("ro");
        },
        WikiLanguage::Russian => {
            reveal_strlit("ru");
        },
        WikiLanguage::Swedish => {
            reveal_strlit("sv");
        },
        WikiLanguage::Tongan => {
            reveal_strlit("to");
        },
        WikiLanguage::Turkish => {
            reveal_strlit("tr");
        },
        WikiLanguage::Ukrainian => {
            reveal_strlit("uk");
        },
        WikiLanguage::Vietnamese => {
            reveal_strlit("vi");
        },
        WikiLanguage::Chinese => {
            reveal_strlit("zh");
        },
    }
}

} // verus!
