use vstd::prelude::*;
use vstd::string::*;

pub use crate::text::underscores_to_dashes;
use crate::text::{ascii_upper, ascii_uppercase, concat_str, eq_ignore_ascii_case, is_ascii_text, replace_underscores, str_eq};

verus! {

/// One language that DeepL translates text into and from.
#[derive(Clone, Copy)]
pub struct LangInfo {
    /// Canonical upper-case code, e.g. `EN-US`.
    pub code: &'static str,
    /// English display name, as DeepL names the language.
    pub name: &'static str,
    /// The code DeepL's translation endpoint expects, e.g. `en-US`.
    pub internal: &'static str,
    /// Whether DeepL supports the formality parameter for this target.
    pub formality: bool,
}

/// The languages supported by DeepL text translation, in the order in which
/// they are listed. `formality` is set for DE, FR, IT, ES, ES-419, NL, PL,
/// PT-BR, PT-PT, RU and JA.
pub open spec fn language_table() -> Seq<LangInfo> {
    seq![
        LangInfo { code: "AR", name: "Arabic", internal: "ar", formality: false },
        LangInfo { code: "BG", name: "Bulgarian", internal: "bg", formality: false },
        LangInfo { code: "CS", name: "Czech", internal: "cs", formality: false },
        LangInfo { code: "DA", name: "Danish", internal: "da", formality: false },
        LangInfo { code: "DE", name: "German", internal: "de", formality: true },
        LangInfo { code: "EL", name: "Greek", internal: "el", formality: false },
        LangInfo { code: "EN-GB", name: "English (British)", internal: "en-GB", formality: false },
        LangInfo { code: "EN-US", name: "English (American)", internal: "en-US", formality: false },
        LangInfo { code: "ES", name: "Spanish", internal: "es", formality: true },
        LangInfo { code: "ES-419", name: "Spanish (Latin American)", internal: "es-419", formality: true },
        LangInfo { code: "ET", name: "Estonian", internal: "et", formality: false },
        LangInfo { code: "FI", name: "Finnish", internal: "fi", formality: false },
        LangInfo { code: "FR", name: "French", internal: "fr", formality: true },
        LangInfo { code: "HE", name: "Hebrew", internal: "he", formality: false },
        LangInfo { code: "HU", name: "Hungarian", internal: "hu", formality: false },
        LangInfo { code: "ID", name: "Indonesian", internal: "id", formality: false },
        LangInfo { code: "IT", name: "Italian", internal: "it", formality: true },
        LangInfo { code: "JA", name: "Japanese", internal: "ja", formality: true },
        LangInfo { code: "KO", name: "Korean", internal: "ko", formality: false },
        LangInfo { code: "LT", name: "Lithuanian", internal: "lt", formality: false },
        LangInfo { code: "LV", name: "Latvian", internal: "lv", formality: false },
        LangInfo { code: "NB", name: "Norwegian (Bokmål)", internal: "nb", formality: false },
        LangInfo { code: "NL", name: "Dutch", internal: "nl", formality: true },
        LangInfo { code: "PL", name: "Polish", internal: "pl", formality: true },
        LangInfo { code: "PT-BR", name: "Portuguese (Brazilian)", internal: "pt-BR", formality: true },
        LangInfo { code: "PT-PT", name: "Portuguese (European)", internal: "pt-PT", formality: true },
        LangInfo { code: "RO", name: "Romanian", internal: "ro", formality: false },
        LangInfo { code: "RU", name: "Russian", internal: "ru", formality: true },
        LangInfo { code: "SK", name: "Slovak", internal: "sk", formality: false },
        LangInfo { code: "SL", name: "Slovenian", internal: "sl", formality: false },
        LangInfo { code: "SV", name: "Swedish", internal: "sv", formality: false },
        LangInfo { code: "TR", name: "Turkish", internal: "tr", formality: false },
        LangInfo { code: "UK", name: "Ukrainian", internal: "uk", formality: false },
        LangInfo { code: "VI", name: "Vietnamese", internal: "vi", formality: false },
        LangInfo { code: "ZH-HANS", name: "Chinese (Simplified)", internal: "zh-Hans", formality: false },
        LangInfo { code: "ZH-HANT", name: "Chinese (Traditional)", internal: "zh-Hant", formality: false },
    ]
}

/// The language table.
pub fn languages() -> (v: Vec<LangInfo>)
    ensures
        v@ == language_table(),
{
    vec![
        LangInfo { code: "AR", name: "Arabic", internal: "ar", formality: false },
        LangInfo { code: "BG", name: "Bulgarian", internal: "bg", formality: false },
        LangInfo { code: "CS", name: "Czech", internal: "cs", formality: false },
        LangInfo { code: "DA", name: "Danish", internal: "da", formality: false },
        LangInfo { code: "DE", name: "German", internal: "de", formality: true },
        LangInfo { code: "EL", name: "Greek", internal: "el", formality: false },
        LangInfo { code: "EN-GB", name: "English (British)", internal: "en-GB", formality: false },
        LangInfo { code: "EN-US", name: "English (American)", internal: "en-US", formality: false },
        LangInfo { code: "ES", name: "Spanish", internal: "es", formality: true },
        LangInfo { code: "ES-419", name: "Spanish (Latin American)", internal: "es-419", formality: true },
        LangInfo { code: "ET", name: "Estonian", internal: "et", formality: false },
        LangInfo { code: "FI", name: "Finnish", internal: "fi", formality: false },
        LangInfo { code: "FR", name: "French", internal: "fr", formality: true },
        LangInfo { code: "HE", name: "Hebrew", internal: "he", formality: false },
        LangInfo { code: "HU", name: "Hungarian", internal: "hu", formality: false },
        LangInfo { code: "ID", name: "Indonesian", internal: "id", formality: false },
        LangInfo { code: "IT", name: "Italian", internal: "it", formality: true },
        LangInfo { code: "JA", name: "Japanese", internal: "ja", formality: true },
        LangInfo { code: "KO", name: "Korean", internal: "ko", formality: false },
        LangInfo { code: "LT", name: "Lithuanian", internal: "lt", formality: false },
        LangInfo { code: "LV", name: "Latvian", internal: "lv", formality: false },
        LangInfo { code: "NB", name: "Norwegian (Bokmål)", internal: "nb", formality: false },
        LangInfo { code: "NL", name: "Dutch", internal: "nl", formality: true },
        LangInfo { code: "PL", name: "Polish", internal: "pl", formality: true },
        LangInfo { code: "PT-BR", name: "Portuguese (Brazilian)", internal: "pt-BR", formality: true },
        LangInfo { code: "PT-PT", name: "Portuguese (European)", internal: "pt-PT", formality: true },
        LangInfo { code: "RO", name: "Romanian", internal: "ro", formality: false },
        LangInfo { code: "RU", name: "Russian", internal: "ru", formality: true },
        LangInfo { code: "SK", name: "Slovak", internal: "sk", formality: false },
        LangInfo { code: "SL", name: "Slovenian", internal: "sl", formality: false },
        LangInfo { code: "SV", name: "Swedish", internal: "sv", formality: false },
        LangInfo { code: "TR", name: "Turkish", internal: "tr", formality: false },
        LangInfo { code: "UK", name: "Ukrainian", internal: "uk", formality: false },
        LangInfo { code: "VI", name: "Vietnamese", internal: "vi", formality: false },
        LangInfo { code: "ZH-HANS", name: "Chinese (Simplified)", internal: "zh-Hans", formality: false },
        LangInfo { code: "ZH-HANT", name: "Chinese (Traditional)", internal: "zh-Hant", formality: false },
    ]
}

/// The canonical code that a bare code stands for: `EN` is `EN-US`, `PT` is
/// `PT-BR`, `ZH` is `ZH-HANS`; every other key stands for itself.
pub open spec fn alias_of(key: Seq<char>) -> Seq<char> {
    if key == "EN"@ {
        "EN-US"@
    } else if key == "PT"@ {
        "PT-BR"@
    } else if key == "ZH"@ {
        "ZH-HANS"@
    } else {
        key
    }
}

/// The first position at or after `i` of the table whose code is `key`, or
/// `-1` when there is none.
pub open spec fn code_position_from(key: Seq<char>, i: int) -> int
    decreases language_table().len() - i,
{
    if i < 0 || i >= language_table().len() {
        -1
    } else if language_table()[i].code@ == key {
        i
    } else {
        code_position_from(key, i + 1)
    }
}

/// The entry of the table whose code is `key`.
pub open spec fn lookup_code(key: Seq<char>) -> Option<LangInfo> {
    let p = code_position_from(key, 0);
    if p >= 0 {
        Some(language_table()[p])
    } else {
        None
    }
}

/// The entry that an already upper-cased code selects: `_` counts as `-`,
/// and the bare `EN`, `PT` and `ZH` stand for their regional entries.
pub open spec fn lookup_uppercased(upper: Seq<char>) -> Option<LangInfo> {
    lookup_code(alias_of(underscores_to_dashes(upper)))
}

/// Spelling a code with `_` or with `-` selects the same language.
pub proof fn law_underscore_reads_as_dash(upper: Seq<char>)
    ensures
        lookup_uppercased(upper) == lookup_uppercased(underscores_to_dashes(upper)),
{
    assert(underscores_to_dashes(underscores_to_dashes(upper)) =~= underscores_to_dashes(upper));
}

/// Every language is selected by its own code: no two languages share a
/// code, so the table lookup never shadows an entry.
pub proof fn law_each_language_selected_by_its_code()
    ensures
        forall|k: int|
            0 <= k < language_table().len() ==> #[trigger] lookup_code(language_table()[k].code@)
                == Some(language_table()[k]),
{
    reveal_strlit("AR");
    reveal_strlit("BG");
    reveal_strlit("CS");
    reveal_strlit("DA");
    reveal_strlit("DE");
    reveal_strlit("EL");
    reveal_strlit("EN-GB");
    reveal_strlit("EN-US");
    reveal_strlit("ES");
    reveal_strlit("ES-419");
    reveal_strlit("ET");
    reveal_strlit("FI");
    reveal_strlit("FR");
    reveal_strlit("HE");
    reveal_strlit("HU");
    reveal_strlit("ID");
    reveal_strlit("IT");
    reveal_strlit("JA");
    reveal_strlit("KO");
    reveal_strlit("LT");
    reveal_strlit("LV");
    reveal_strlit("NB");
    reveal_strlit("NL");
    reveal_strlit("PL");
    reveal_strlit("PT-BR");
    reveal_strlit("PT-PT");
    reveal_strlit("RO");
    reveal_strlit("RU");
    reveal_strlit("SK");
    reveal_strlit("SL");
    reveal_strlit("SV");
    reveal_strlit("TR");
    reveal_strlit("UK");
    reveal_strlit("VI");
    reveal_strlit("ZH-HANS");
    reveal_strlit("ZH-HANT");
    assert("AR"@.len() == 2 && "AR"@[0] == 'A' && "AR"@[1] == 'R');
    assert("BG"@.len() == 2 && "BG"@[0] == 'B' && "BG"@[1] == 'G');
    assert("CS"@.len() == 2 && "CS"@[0] == 'C' && "CS"@[1] == 'S');
    assert("DA"@.len() == 2 && "DA"@[0] == 'D' && "DA"@[1] == 'A');
    assert("DE"@.len() == 2 && "DE"@[0] == 'D' && "DE"@[1] == 'E');
    assert("EL"@.len() == 2 && "EL"@[0] == 'E' && "EL"@[1] == 'L');
    assert("EN-GB"@.len() == 5 && "EN-GB"@[0] == 'E' && "EN-GB"@[1] == 'N' && "EN-GB"@[3] == 'G');
    assert("EN-US"@.len() == 5 && "EN-US"@[0] == 'E' && "EN-US"@[1] == 'N' && "EN-US"@[3] == 'U');
    assert("ES"@.len() == 2 && "ES"@[0] == 'E' && "ES"@[1] == 'S');
    assert("ES-419"@.len() == 6 && "ES-419"@[0] == 'E' && "ES-419"@[1] == 'S' && "ES-419"@[3] == '4');
    assert("ET"@.len() == 2 && "ET"@[0] == 'E' && "ET"@[1] == 'T');
    assert("FI"@.len() == 2 && "FI"@[0] == 'F' && "FI"@[1] == 'I');
    assert("FR"@.len() == 2 && "FR"@[0] == 'F' && "FR"@[1] == 'R');
    assert("HE"@.len() == 2 && "HE"@[0] == 'H' && "HE"@[1] == 'E');
    assert("HU"@.len() == 2 && "HU"@[0] == 'H' && "HU"@[1] == 'U');
    assert("ID"@.len() == 2 && "ID"@[0] == 'I' && "ID"@[1] == 'D');
    assert("IT"@.len() == 2 && "IT"@[0] == 'I' && "IT"@[1] == 'T');
    assert("JA"@.len() == 2 && "JA"@[0] == 'J' && "JA"@[1] == 'A');
    assert("KO"@.len() == 2 && "KO"@[0] == 'K' && "KO"@[1] == 'O');
    assert("LT"@.len() == 2 && "LT"@[0] == 'L' && "LT"@[1] == 'T');
    assert("LV"@.len() == 2 && "LV"@[0] == 'L' && "LV"@[1] == 'V');
    assert("NB"@.len() == 2 && "NB"@[0] == 'N' && "NB"@[1] == 'B');
    assert("NL"@.len() == 2 && "NL"@[0] == 'N' && "NL"@[1] == 'L');
    assert("PL"@.len() == 2 && "PL"@[0] == 'P' && "PL"@[1] == 'L');
    assert("PT-BR"@.len() == 5 && "PT-BR"@[0] == 'P' && "PT-BR"@[1] == 'T' && "PT-BR"@[3] == 'B');
    assert("PT-PT"@.len() == 5 && "PT-PT"@[0] == 'P' && "PT-PT"@[1] == 'T' && "PT-PT"@[3] == 'P');
    assert("RO"@.len() == 2 && "RO"@[0] == 'R' && "RO"@[1] == 'O');
    assert("RU"@.len() == 2 && "RU"@[0] == 'R' && "RU"@[1] == 'U');
    assert("SK"@.len() == 2 && "SK"@[0] == 'S' && "SK"@[1] == 'K');
    assert("SL"@.len() == 2 && "SL"@[0] == 'S' && "SL"@[1] == 'L');
    assert("SV"@.len() == 2 && "SV"@[0] == 'S' && "SV"@[1] == 'V');
    assert("TR"@.len() == 2 && "TR"@[0] == 'T' && "TR"@[1] == 'R');
    assert("UK"@.len() == 2 && "UK"@[0] == 'U' && "UK"@[1] == 'K');
    assert("VI"@.len() == 2 && "VI"@[0] == 'V' && "VI"@[1] == 'I');
    assert("ZH-HANS"@.len() == 7 && "ZH-HANS"@[0] == 'Z' && "ZH-HANS"@[1] == 'H' && "ZH-HANS"@[3] == 'H' && "ZH-HANS"@[6] == 'S');
    assert("ZH-HANT"@.len() == 7 && "ZH-HANT"@[0] == 'Z' && "ZH-HANT"@[1] == 'H' && "ZH-HANT"@[3] == 'H' && "ZH-HANT"@[6] == 'T');
    assert forall|k: int| 0 <= k < language_table().len() implies #[trigger] lookup_code(
        language_table()[k].code@,
    ) == Some(language_table()[k]) by {
        reveal_with_fuel(code_position_from, 37);
    }
}

/// What a table entry's codes look like: the code is upper-case ASCII with
/// no `_` and is none of the bare aliases, and the internal code is ASCII
/// and upper-cases to the code.
pub open spec fn entry_codes_agree(l: LangInfo) -> bool {
    &&& is_ascii_text(l.code@)
    &&& ascii_uppercase(l.code@) == l.code@
    &&& underscores_to_dashes(l.code@) == l.code@
    &&& alias_of(l.code@) == l.code@
    &&& is_ascii_text(l.internal@)
    &&& ascii_uppercase(l.internal@) == l.code@
}

proof fn lemma_entry_codes_agree(k: int)
    requires
        0 <= k < language_table().len(),
    ensures
        entry_codes_agree(language_table()[k]),
{
    reveal_strlit("EN");
    reveal_strlit("PT");
    reveal_strlit("ZH");
    if k == 0 {
        reveal_strlit("AR");
        reveal_strlit("ar");
        assert(ascii_uppercase("AR"@) =~= "AR"@);
        assert(underscores_to_dashes("AR"@) =~= "AR"@);
        assert(ascii_uppercase("ar"@) =~= "AR"@);
        assert("AR"@[0] != "EN"@[0]);
        assert("AR"@[0] != "PT"@[0]);
        assert("AR"@[0] != "ZH"@[0]);
    } else if k == 1 {
        reveal_strlit("BG");
        reveal_strlit("bg");
        assert(ascii_uppercase("BG"@) =~= "BG"@);
        assert(underscores_to_dashes("BG"@) =~= "BG"@);
        assert(ascii_uppercase("bg"@) =~= "BG"@);
        assert("BG"@[0] != "EN"@[0]);
        assert("BG"@[0] != "PT"@[0]);
        assert("BG"@[0] != "ZH"@[0]);
    } else if k == 2 {
        reveal_strlit("CS");
        reveal_strlit("cs");
        assert(ascii_uppercase("CS"@) =~= "CS"@);
        assert(underscores_to_dashes("CS"@) =~= "CS"@);
        assert(ascii_uppercase("cs"@) =~= "CS"@);
        assert("CS"@[0] != "EN"@[0]);
        assert("CS"@[0] != "PT"@[0]);
        assert("CS"@[0] != "ZH"@[0]);
    } else if k == 3 {
        reveal_strlit("DA");
        reveal_strlit("da");
        assert(ascii_uppercase("DA"@) =~= "DA"@);
        assert(underscores_to_dashes("DA"@) =~= "DA"@);
        assert(ascii_uppercase("da"@) =~= "DA"@);
        assert("DA"@[0] != "EN"@[0]);
        assert("DA"@[0] != "PT"@[0]);
        assert("DA"@[0] != "ZH"@[0]);
    } else if k == 4 {
        reveal_strlit("DE");
        reveal_strlit("de");
        assert(ascii_uppercase("DE"@) =~= "DE"@);
        assert(underscores_to_dashes("DE"@) =~= "DE"@);
        assert(ascii_uppercase("de"@) =~= "DE"@);
        assert("DE"@[0] != "EN"@[0]);
        assert("DE"@[0] != "PT"@[0]);
        assert("DE"@[0] != "ZH"@[0]);
    } else if k == 5 {
        reveal_strlit("EL");
        reveal_strlit("el");
        assert(ascii_uppercase("EL"@) =~= "EL"@);
        assert(underscores_to_dashes("EL"@) =~= "EL"@);
        assert(ascii_uppercase("el"@) =~= "EL"@);
        assert("EL"@[1] != "EN"@[1]);
        assert("EL"@[0] != "PT"@[0]);
        assert("EL"@[0] != "ZH"@[0]);
    } else if k == 6 {
        reveal_strlit("EN-GB");
        reveal_strlit("en-GB");
        assert(ascii_uppercase("EN-GB"@) =~= "EN-GB"@);
        assert(underscores_to_dashes("EN-GB"@) =~= "EN-GB"@);
        assert(ascii_uppercase("en-GB"@) =~= "EN-GB"@);
    } else if k == 7 {
        reveal_strlit("EN-US");
        reveal_strlit("en-US");
        assert(ascii_uppercase("EN-US"@) =~= "EN-US"@);
        assert(underscores_to_dashes("EN-US"@) =~= "EN-US"@);
        assert(ascii_uppercase("en-US"@) =~= "EN-US"@);
    } else if k == 8 {
        reveal_strlit("ES");
        reveal_strlit("es");
        assert(ascii_uppercase("ES"@) =~= "ES"@);
        assert(underscores_to_dashes("ES"@) =~= "ES"@);
        assert(ascii_uppercase("es"@) =~= "ES"@);
        assert("ES"@[1] != "EN"@[1]);
        assert("ES"@[0] != "PT"@[0]);
        assert("ES"@[0] != "ZH"@[0]);
    } else if k == 9 {
        reveal_strlit("ES-419");
        reveal_strlit("es-419");
        assert(ascii_uppercase("ES-419"@) =~= "ES-419"@);
        assert(underscores_to_dashes("ES-419"@) =~= "ES-419"@);
        assert(ascii_uppercase("es-419"@) =~= "ES-419"@);
    } else if k == 10 {
        reveal_strlit("ET");
        reveal_strlit("et");
        assert(ascii_uppercase("ET"@) =~= "ET"@);
        assert(underscores_to_dashes("ET"@) =~= "ET"@);
        assert(ascii_uppercase("et"@) =~= "ET"@);
        assert("ET"@[1] != "EN"@[1]);
        assert("ET"@[0] != "PT"@[0]);
        assert("ET"@[0] != "ZH"@[0]);
    } else if k == 11 {
        reveal_strlit("FI");
        reveal_strlit("fi");
        assert(ascii_uppercase("FI"@) =~= "FI"@);
        assert(underscores_to_dashes("FI"@) =~= "FI"@);
        assert(ascii_uppercase("fi"@) =~= "FI"@);
        assert("FI"@[0] != "EN"@[0]);
        assert("FI"@[0] != "PT"@[0]);
        assert("FI"@[0] != "ZH"@[0]);
    } else if k == 12 {
        reveal_strlit("FR");
        reveal_strlit("fr");
        assert(ascii_uppercase("FR"@) =~= "FR"@);
        assert(underscores_to_dashes("FR"@) =~= "FR"@);
        assert(ascii_uppercase("fr"@) =~= "FR"@);
        assert("FR"@[0] != "EN"@[0]);
        assert("FR"@[0] != "PT"@[0]);
        assert("FR"@[0] != "ZH"@[0]);
    } else if k == 13 {
        reveal_strlit("HE");
        reveal_strlit("he");
        assert(ascii_uppercase("HE"@) =~= "HE"@);
        assert(underscores_to_dashes("HE"@) =~= "HE"@);
        assert(ascii_uppercase("he"@) =~= "HE"@);
        assert("HE"@[0] != "EN"@[0]);
        assert("HE"@[0] != "PT"@[0]);
        assert("HE"@[0] != "ZH"@[0]);
    } else if k == 14 {
        reveal_strlit("HU");
        reveal_strlit("hu");
        assert(ascii_uppercase("HU"@) =~= "HU"@);
        assert(underscores_to_dashes("HU"@) =~= "HU"@);
        assert(ascii_uppercase("hu"@) =~= "HU"@);
        assert("HU"@[0] != "EN"@[0]);
        assert("HU"@[0] != "PT"@[0]);
        assert("HU"@[0] != "ZH"@[0]);
    } else if k == 15 {
        reveal_strlit("ID");
        reveal_strlit("id");
        assert(ascii_uppercase("ID"@) =~= "ID"@);
        assert(underscores_to_dashes("ID"@) =~= "ID"@);
        assert(ascii_uppercase("id"@) =~= "ID"@);
        assert("ID"@[0] != "EN"@[0]);
        assert("ID"@[0] != "PT"@[0]);
        assert("ID"@[0] != "ZH"@[0]);
    } else if k == 16 {
        reveal_strlit("IT");
        reveal_strlit("it");
        assert(ascii_uppercase("IT"@) =~= "IT"@);
        assert(underscores_to_dashes("IT"@) =~= "IT"@);
        assert(ascii_uppercase("it"@) =~= "IT"@);
        assert("IT"@[0] != "EN"@[0]);
        assert("IT"@[0] != "PT"@[0]);
        assert("IT"@[0] != "ZH"@[0]);
    } else if k == 17 {
        reveal_strlit("JA");
        reveal_strlit("ja");
        assert(ascii_uppercase("JA"@) =~= "JA"@);
        assert(underscores_to_dashes("JA"@) =~= "JA"@);
        assert(ascii_uppercase("ja"@) =~= "JA"@);
        assert("JA"@[0] != "EN"@[0]);
        assert("JA"@[0] != "PT"@[0]);
        assert("JA"@[0] != "ZH"@[0]);
    } else if k == 18 {
        reveal_strlit("KO");
        reveal_strlit("ko");
        assert(ascii_uppercase("KO"@) =~= "KO"@);
        assert(underscores_to_dashes("KO"@) =~= "KO"@);
        assert(ascii_uppercase("ko"@) =~= "KO"@);
        assert("KO"@[0] != "EN"@[0]);
        assert("KO"@[0] != "PT"@[0]);
        assert("KO"@[0] != "ZH"@[0]);
    } else if k == 19 {
        reveal_strlit("LT");
        reveal_strlit("lt");
        assert(ascii_uppercase("LT"@) =~= "LT"@);
        assert(underscores_to_dashes("LT"@) =~= "LT"@);
        assert(ascii_uppercase("lt"@) =~= "LT"@);
        assert("LT"@[0] != "EN"@[0]);
        assert("LT"@[0] != "PT"@[0]);
        assert("LT"@[0] != "ZH"@[0]);
    } else if k == 20 {
        reveal_strlit("LV");
        reveal_strlit("lv");
        assert(ascii_uppercase("LV"@) =~= "LV"@);
        assert(underscores_to_dashes("LV"@) =~= "LV"@);
        assert(ascii_uppercase("lv"@) =~= "LV"@);
        assert("LV"@[0] != "EN"@[0]);
        assert("LV"@[0] != "PT"@[0]);
        assert("LV"@[0] != "ZH"@[0]);
    } else if k == 21 {
        reveal_strlit("NB");
        reveal_strlit("nb");
        assert(ascii_uppercase("NB"@) =~= "NB"@);
        assert(underscores_to_dashes("NB"@) =~= "NB"@);
        assert(ascii_uppercase("nb"@) =~= "NB"@);
        assert("NB"@[0] != "EN"@[0]);
        assert("NB"@[0] != "PT"@[0]);
        assert("NB"@[0] != "ZH"@[0]);
    } else if k == 22 {
        reveal_strlit("NL");
        reveal_strlit("nl");
        assert(ascii_uppercase("NL"@) =~= "NL"@);
        assert(underscores_to_dashes("NL"@) =~= "NL"@);
        assert(ascii_uppercase("nl"@) =~= "NL"@);
        assert("NL"@[0] != "EN"@[0]);
        assert("NL"@[0] != "PT"@[0]);
        assert("NL"@[0] != "ZH"@[0]);
    } else if k == 23 {
        reveal_strlit("PL");
        reveal_strlit("pl");
        assert(ascii_uppercase("PL"@) =~= "PL"@);
        assert(underscores_to_dashes("PL"@) =~= "PL"@);
        assert(ascii_uppercase("pl"@) =~= "PL"@);
        assert("PL"@[0] != "EN"@[0]);
        assert("PL"@[1] != "PT"@[1]);
        assert("PL"@[0] != "ZH"@[0]);
    } else if k == 24 {
        reveal_strlit("PT-BR");
        reveal_strlit("pt-BR");
        assert(ascii_uppercase("PT-BR"@) =~= "PT-BR"@);
        assert(underscores_to_dashes("PT-BR"@) =~= "PT-BR"@);
        assert(ascii_uppercase("pt-BR"@) =~= "PT-BR"@);
    } else if k == 25 {
        reveal_strlit("PT-PT");
        reveal_strlit("pt-PT");
        assert(ascii_uppercase("PT-PT"@) =~= "PT-PT"@);
        assert(underscores_to_dashes("PT-PT"@) =~= "PT-PT"@);
        assert(ascii_uppercase("pt-PT"@) =~= "PT-PT"@);
    } else if k == 26 {
        reveal_strlit("RO");
        reveal_strlit("ro");
        assert(ascii_uppercase("RO"@) =~= "RO"@);
        assert(underscores_to_dashes("RO"@) =~= "RO"@);
        assert(ascii_uppercase("ro"@) =~= "RO"@);
        assert("RO"@[0] != "EN"@[0]);
        assert("RO"@[0] != "PT"@[0]);
        assert("RO"@[0] != "ZH"@[0]);
    } else if k == 27 {
        reveal_strlit("RU");
        reveal_strlit("ru");
        assert(ascii_uppercase("RU"@) =~= "RU"@);
        assert(underscores_to_dashes("RU"@) =~= "RU"@);
        assert(ascii_uppercase("ru"@) =~= "RU"@);
        assert("RU"@[0] != "EN"@[0]);
        assert("RU"@[0] != "PT"@[0]);
        assert("RU"@[0] != "ZH"@[0]);
    } else if k == 28 {
        reveal_strlit("SK");
        reveal_strlit("sk");
        assert(ascii_uppercase("SK"@) =~= "SK"@);
        assert(underscores_to_dashes("SK"@) =~= "SK"@);
        assert(ascii_uppercase("sk"@) =~= "SK"@);
        assert("SK"@[0] != "EN"@[0]);
        assert("SK"@[0] != "PT"@[0]);
        assert("SK"@[0] != "ZH"@[0]);
    } else if k == 29 {
        reveal_strlit("SL");
        reveal_strlit("sl");
        assert(ascii_uppercase("SL"@) =~= "SL"@);
        assert(underscores_to_dashes("SL"@) =~= "SL"@);
        assert(ascii_uppercase("sl"@) =~= "SL"@);
        assert("SL"@[0] != "EN"@[0]);
        assert("SL"@[0] != "PT"@[0]);
        assert("SL"@[0] != "ZH"@[0]);
    } else if k == 30 {
        reveal_strlit("SV");
        reveal_strlit("sv");
        assert(ascii_uppercase("SV"@) =~= "SV"@);
        assert(underscores_to_dashes("SV"@) =~= "SV"@);
        assert(ascii_uppercase("sv"@) =~= "SV"@);
        assert("SV"@[0] != "EN"@[0]);
        assert("SV"@[0] != "PT"@[0]);
        assert("SV"@[0] != "ZH"@[0]);
    } else if k == 31 {
        reveal_strlit("TR");
        reveal_strlit("tr");
        assert(ascii_uppercase("TR"@) =~= "TR"@);
        assert(underscores_to_dashes("TR"@) =~= "TR"@);
        assert(ascii_uppercase("tr"@) =~= "TR"@);
        assert("TR"@[0] != "EN"@[0]);
        assert("TR"@[0] != "PT"@[0]);
        assert("TR"@[0] != "ZH"@[0]);
    } else if k == 32 {
        reveal_strlit("UK");
        reveal_strlit("uk");
        assert(ascii_uppercase("UK"@) =~= "UK"@);
        assert(underscores_to_dashes("UK"@) =~= "UK"@);
        assert(ascii_uppercase("uk"@) =~= "UK"@);
        assert("UK"@[0] != "EN"@[0]);
        assert("UK"@[0] != "PT"@[0]);
        assert("UK"@[0] != "ZH"@[0]);
    } else if k == 33 {
        reveal_strlit("VI");
        reveal_strlit("vi");
        assert(ascii_uppercase("VI"@) =~= "VI"@);
        assert(underscores_to_dashes("VI"@) =~= "VI"@);
        assert(ascii_uppercase("vi"@) =~= "VI"@);
        assert("VI"@[0] != "EN"@[0]);
        assert("VI"@[0] != "PT"@[0]);
        assert("VI"@[0] != "ZH"@[0]);
    } else if k == 34 {
        reveal_strlit("ZH-HANS");
        reveal_strlit("zh-Hans");
        assert(ascii_uppercase("ZH-HANS"@) =~= "ZH-HANS"@);
        assert(underscores_to_dashes("ZH-HANS"@) =~= "ZH-HANS"@);
        assert(ascii_uppercase("zh-Hans"@) =~= "ZH-HANS"@);
    } else if k == 35 {
        reveal_strlit("ZH-HANT");
        reveal_strlit("zh-Hant");
        assert(ascii_uppercase("ZH-HANT"@) =~= "ZH-HANT"@);
        assert(underscores_to_dashes("ZH-HANT"@) =~= "ZH-HANT"@);
        assert(ascii_uppercase("zh-Hant"@) =~= "ZH-HANT"@);
    }
}

/// The code `code` selects the entry named `name`, with internal code
/// `internal` and the given formality support.
pub open spec fn listed_as(code: Seq<char>, name: Seq<char>, internal: Seq<char>, formality: bool) -> bool {
    match lookup_code(code) {
        Some(l) => l.code@ == code && l.name@ == name && l.internal@ == internal && l.formality
            == formality,
        None => false,
    }
}

/// The languages DeepL translates, each under its code: its English name,
/// the code DeepL's endpoint expects, and whether it takes a formality
/// setting. The table holds these and no others.
pub proof fn law_language_entries_by_code()
    ensures
        language_table().len() == 36,
        listed_as("AR"@, "Arabic"@, "ar"@, false),
        listed_as("BG"@, "Bulgarian"@, "bg"@, false),
        listed_as("CS"@, "Czech"@, "cs"@, false),
        listed_as("DA"@, "Danish"@, "da"@, false),
        listed_as("DE"@, "German"@, "de"@, true),
        listed_as("EL"@, "Greek"@, "el"@, false),
        listed_as("EN-GB"@, "English (British)"@, "en-GB"@, false),
        listed_as("EN-US"@, "English (American)"@, "en-US"@, false),
        listed_as("ES"@, "Spanish"@, "es"@, true),
        listed_as("ES-419"@, "Spanish (Latin American)"@, "es-419"@, true),
        listed_as("ET"@, "Estonian"@, "et"@, false),
        listed_as("FI"@, "Finnish"@, "fi"@, false),
        listed_as("FR"@, "French"@, "fr"@, true),
        listed_as("HE"@, "Hebrew"@, "he"@, false),
        listed_as("HU"@, "Hungarian"@, "hu"@, false),
        listed_as("ID"@, "Indonesian"@, "id"@, false),
        listed_as("IT"@, "Italian"@, "it"@, true),
        listed_as("JA"@, "Japanese"@, "ja"@, true),
        listed_as("KO"@, "Korean"@, "ko"@, false),
        listed_as("LT"@, "Lithuanian"@, "lt"@, false),
        listed_as("LV"@, "Latvian"@, "lv"@, false),
        listed_as("NB"@, "Norwegian (Bokmål)"@, "nb"@, false),
        listed_as("NL"@, "Dutch"@, "nl"@, true),
        listed_as("PL"@, "Polish"@, "pl"@, true),
        listed_as("PT-BR"@, "Portuguese (Brazilian)"@, "pt-BR"@, true),
        listed_as("PT-PT"@, "Portuguese (European)"@, "pt-PT"@, true),
        listed_as("RO"@, "Romanian"@, "ro"@, false),
        listed_as("RU"@, "Russian"@, "ru"@, true),
        listed_as("SK"@, "Slovak"@, "sk"@, false),
        listed_as("SL"@, "Slovenian"@, "sl"@, false),
        listed_as("SV"@, "Swedish"@, "sv"@, false),
        listed_as("TR"@, "Turkish"@, "tr"@, false),
        listed_as("UK"@, "Ukrainian"@, "uk"@, false),
        listed_as("VI"@, "Vietnamese"@, "vi"@, false),
        listed_as("ZH-HANS"@, "Chinese (Simplified)"@, "zh-Hans"@, false),
        listed_as("ZH-HANT"@, "Chinese (Traditional)"@, "zh-Hant"@, false),
{
    law_each_language_selected_by_its_code();
    assert(lookup_code(language_table()[0].code@) == Some(language_table()[0]));
    assert(lookup_code(language_table()[1].code@) == Some(language_table()[1]));
    assert(lookup_code(language_table()[2].code@) == Some(language_table()[2]));
    assert(lookup_code(language_table()[3].code@) == Some(language_table()[3]));
    assert(lookup_code(language_table()[4].code@) == Some(language_table()[4]));
    assert(lookup_code(language_table()[5].code@) == Some(language_table()[5]));
    assert(lookup_code(language_table()[6].code@) == Some(language_table()[6]));
    assert(lookup_code(language_table()[7].code@) == Some(language_table()[7]));
    assert(lookup_code(language_table()[8].code@) == Some(language_table()[8]));
    assert(lookup_code(language_table()[9].code@) == Some(language_table()[9]));
    assert(lookup_code(language_table()[10].code@) == Some(language_table()[10]));
    assert(lookup_code(language_table()[11].code@) == Some(language_table()[11]));
    assert(lookup_code(language_table()[12].code@) == Some(language_table()[12]));
    assert(lookup_code(language_table()[13].code@) == Some(language_table()[13]));
    assert(lookup_code(language_table()[14].code@) == Some(language_table()[14]));
    assert(lookup_code(language_table()[15].code@) == Some(language_table()[15]));
    assert(lookup_code(language_table()[16].code@) == Some(language_table()[16]));
    assert(lookup_code(language_table()[17].code@) == Some(language_table()[17]));
    assert(lookup_code(language_table()[18].code@) == Some(language_table()[18]));
    assert(lookup_code(language_table()[19].code@) == Some(language_table()[19]));
    assert(lookup_code(language_table()[20].code@) == Some(language_table()[20]));
    assert(lookup_code(language_table()[21].code@) == Some(language_table()[21]));
    assert(lookup_code(language_table()[22].code@) == Some(language_table()[22]));
    assert(lookup_code(language_table()[23].code@) == Some(language_table()[23]));
    assert(lookup_code(language_table()[24].code@) == Some(language_table()[24]));
    assert(lookup_code(language_table()[25].code@) == Some(language_table()[25]));
    assert(lookup_code(language_table()[26].code@) == Some(language_table()[26]));
    assert(lookup_code(language_table()[27].code@) == Some(language_table()[27]));
    assert(lookup_code(language_table()[28].code@) == Some(language_table()[28]));
    assert(lookup_code(language_table()[29].code@) == Some(language_table()[29]));
    assert(lookup_code(language_table()[30].code@) == Some(language_table()[30]));
    assert(lookup_code(language_table()[31].code@) == Some(language_table()[31]));
    assert(lookup_code(language_table()[32].code@) == Some(language_table()[32]));
    assert(lookup_code(language_table()[33].code@) == Some(language_table()[33]));
    assert(lookup_code(language_table()[34].code@) == Some(language_table()[34]));
    assert(lookup_code(language_table()[35].code@) == Some(language_table()[35]));
}

/// The bare codes `EN`, `PT` and `ZH` select American English, Brazilian
/// Portuguese and Simplified Chinese.
pub proof fn law_bare_codes_select_regional_entries()
    ensures
        lookup_uppercased("EN"@) == lookup_code("EN-US"@),
        lookup_uppercased("PT"@) == lookup_code("PT-BR"@),
        lookup_uppercased("ZH"@) == lookup_code("ZH-HANS"@),
{
    reveal_strlit("EN");
    reveal_strlit("PT");
    reveal_strlit("ZH");
    assert(underscores_to_dashes("EN"@) =~= "EN"@);
    assert(underscores_to_dashes("PT"@) =~= "PT"@);
    assert(underscores_to_dashes("ZH"@) =~= "ZH"@);
    assert("PT"@[0] != "EN"@[0]);
    assert("ZH"@[0] != "EN"@[0] && "ZH"@[0] != "PT"@[0]);
}

/// Every listed code, and every internal code DeepL uses, resolves back to
/// its own entry: looking a code up after upper-casing it, as `find_lang`
/// does, gives the entry that lists it.
pub proof fn law_listed_codes_resolve()
    ensures
        forall|k: int|
            0 <= k < language_table().len() ==> {
                &&& lookup_uppercased(upper(#[trigger] language_table()[k].code@)) == Some(
                    language_table()[k],
                )
                &&& lookup_uppercased(upper(language_table()[k].internal@)) == Some(
                    language_table()[k],
                )
            },
{
    law_each_language_selected_by_its_code();
    assert forall|k: int| 0 <= k < language_table().len() implies {
        &&& lookup_uppercased(upper(#[trigger] language_table()[k].code@)) == Some(
            language_table()[k],
        )
        &&& lookup_uppercased(upper(language_table()[k].internal@)) == Some(language_table()[k])
    } by {
        lemma_entry_codes_agree(k);
    }
}

/// Codes are case-insensitive: two ASCII codes that differ only in the case
/// of their letters are upper-cased alike, so they select the same language
/// (or none alike).
pub proof fn law_lookup_ignores_ascii_case(a: Seq<char>, b: Seq<char>)
    requires
        is_ascii_text(a),
        eq_ignore_ascii_case(a, b),
    ensures
        is_ascii_text(b),
        upper(a) == upper(b),
        lookup_uppercased(upper(a)) == lookup_uppercased(upper(b)),
{
    assert forall|i: int| 0 <= i < b.len() implies (#[trigger] b[i] as u32) < 128 by {
        assert(ascii_upper(a[i]) == ascii_upper(b[i]));
        assert((a[i] as u32) < 128);
    }
    assert(ascii_uppercase(a) =~= ascii_uppercase(b)) by {
        assert forall|i: int| 0 <= i < a.len() implies ascii_upper(#[trigger] a[i]) == ascii_upper(b[i]) by {}
    }
}

fn resolve_alias(key: &str) -> (r: String)
    ensures
        r@ == alias_of(key@),
{
    if str_eq(key, "EN") {
        "EN-US".to_owned()
    } else if str_eq(key, "PT") {
        "PT-BR".to_owned()
    } else if str_eq(key, "ZH") {
        "ZH-HANS".to_owned()
    } else {
        key.to_owned()
    }
}

/// The table entry whose code is `key`, if any.
pub fn find_code(key: &str) -> (r: Option<LangInfo>)
    ensures
        r == lookup_code(key@),
{
    let table = languages();
    let n = table.len();
    let mut i: usize = 0;
    while i < n
        invariant
            table@ == language_table(),
            n == table@.len(),
            i <= n,
            code_position_from(key@, 0) == code_position_from(key@, i as int),
        decreases n - i,
    {
        if str_eq(table[i].code, key) {
            return Some(table[i]);
        }
        i += 1;
    }
    None
}

/// Looks up a code that has already been upper-cased: `_` is read as `-`, and
/// the aliases `EN`, `PT`, `ZH` are expanded.
pub fn find_lang_uppercased(upper: &str) -> (r: Option<LangInfo>)
    ensures
        r == lookup_uppercased(upper@),
{
    let normalized = replace_underscores(upper);
    let key = resolve_alias(normalized.as_str());
    find_code(key.as_str())
}

/// Names what `str::to_uppercase` returns for a string: its upper-case
/// equivalent under Unicode's case mapping, which may change its length.
pub uninterp spec fn uppercase_of(s: Seq<char>) -> Seq<char>;

/// Calls `str::to_uppercase`. Its contract claims that the result is a
/// function of the characters of `s` (named `uppercase_of`), and that an
/// all-ASCII string comes back with `a`..`z` turned into `A`..`Z` and every
/// other character unchanged; what the Unicode upper-case mapping does to
/// other characters is left unsaid.
#[verifier::external_body]
fn to_uppercase(s: &str) -> (r: String)
    ensures
        r@ == uppercase_of(s@),
        is_ascii_text(s@) ==> r@ == ascii_uppercase(s@),
{
    s.to_uppercase()
}

/// The upper-case form of a code: the ASCII mapping for an all-ASCII code,
/// else what `str::to_uppercase` gives (`uppercase_of`).
pub open spec fn upper(s: Seq<char>) -> Seq<char> {
    if is_ascii_text(s) {
        ascii_uppercase(s)
    } else {
        uppercase_of(s)
    }
}

fn upper_case(s: &str) -> (r: String)
    ensures
        r@ == upper(s@),
        r@ == uppercase_of(s@),
{
    to_uppercase(s)
}

/// Finds a language by the code a client gave: case-insensitive, `_` read as
/// `-`, and `EN`, `PT`, `ZH` standing for `EN-US`, `PT-BR`, `ZH-HANS`.
pub fn find_lang(code: &str) -> (r: Option<LangInfo>)
    ensures
        r == lookup_uppercased(upper(code@)),
{
    let up = upper_case(code);
    find_lang_uppercased(up.as_str())
}

/// What `resolve_target_lang` gives once the code `code` has been upper-cased
/// to `upper`.
pub open spec fn target_lang_result(code: Seq<char>, upper: Seq<char>) -> Result<Seq<char>, Seq<char>> {
    match lookup_uppercased(upper) {
        Some(l) => Ok(l.internal@),
        None => Err("unsupported target language: "@ + code),
    }
}

/// The views of a result that carries strings.
pub open spec fn str_result_view(r: Result<&'static str, String>) -> Result<Seq<char>, Seq<char>> {
    match r {
        Ok(s) => Ok(s@),
        Err(e) => Err(e@),
    }
}

/// The target language for the code `code`, given its upper-cased form
/// `upper`: the internal code of the entry it selects, or the error message
/// `unsupported target language: <code>`.
pub fn target_lang_from_uppercased(code: &str, upper: &str) -> (r: Result<&'static str, String>)
    ensures
        str_result_view(r) == target_lang_result(code@, upper@),
{
    match find_lang_uppercased(upper) {
        Some(l) => Ok(l.internal),
        None => Err(concat_str("unsupported target language: ", code)),
    }
}

/// Resolves a target-language code to DeepL's internal code.
pub fn resolve_target_lang(code: &str) -> (r: Result<&'static str, String>)
    ensures
        str_result_view(r) == target_lang_result(code@, upper(code@)),
{
    let upper = upper_case(code);
    target_lang_from_uppercased(code, upper.as_str())
}

/// What `resolve_source_lang` gives once the code has been upper-cased to
/// `upper`, and the result of replacing `_` by `-` in it upper-cased again to
/// `upper_again`: no language for an empty code or `AUTO`, else the internal
/// code of the entry that `upper_again` selects, or the error message
/// `unsupported source language: <normalized code>`.
pub open spec fn source_lang_result(upper: Seq<char>, upper_again: Seq<char>) -> Result<
    Option<Seq<char>>,
    Seq<char>,
> {
    let c = underscores_to_dashes(upper);
    if c.len() == 0 || c == "AUTO"@ {
        Ok(None)
    } else {
        match lookup_uppercased(upper_again) {
            Some(l) => Ok(Some(l.internal@)),
            None => Err("unsupported source language: "@ + c),
        }
    }
}

/// The views of a result that carries an optional string.
pub open spec fn opt_str_result_view(r: Result<Option<&'static str>, String>) -> Result<
    Option<Seq<char>>,
    Seq<char>,
> {
    match r {
        Ok(Some(s)) => Ok(Some(s@)),
        Ok(None) => Ok(None),
        Err(e) => Err(e@),
    }
}

/// The source language for a code whose upper-cased form is `upper`, given
/// `upper_again`, the upper-cased form of `upper` with `_` replaced by `-`.
pub fn source_lang_from_uppercased(upper: &str, upper_again: &str) -> (r: Result<
    Option<&'static str>,
    String,
>)
    ensures
        opt_str_result_view(r) == source_lang_result(upper@, upper_again@),
{
    let c = replace_underscores(upper);
    if c.as_str().is_empty() || str_eq(c.as_str(), "AUTO") {
        return Ok(None);
    }
    match find_lang_uppercased(upper_again) {
        Some(l) => Ok(Some(l.internal)),
        None => Err(concat_str("unsupported source language: ", c.as_str())),
    }
}

/// Resolves a source-language code: `None` means automatic detection (an
/// empty code or `auto` in any case).
pub fn resolve_source_lang(code: &str) -> (r: Result<Option<&'static str>, String>)
    ensures
        opt_str_result_view(r) == source_lang_result(
            upper(code@),
            upper(underscores_to_dashes(upper(code@))),
        ),
{
    let upper = upper_case(code);
    let normalized = replace_underscores(upper.as_str());
    let upper_again = upper_case(normalized.as_str());
    source_lang_from_uppercased(upper.as_str(), upper_again.as_str())
}

} // verus!
