//! Model discovery: the language code a locale maps to and the searches
//! run for speech recognition, speech synthesis and text generation models.

use vstd::prelude::*;
use crate::text::{owned, push_str, str_eq};

verus! {

/// The locales with a language code of their own, and that code.
pub open spec fn lang_map() -> Seq<(&'static str, &'static str)> {
    seq![
        ("en-US", "en"), ("en-GB", "en"), ("es-ES", "es"), ("es-MX", "es"),
        ("zh-CN", "zh"), ("zh-TW", "zh"), ("fr-FR", "fr"), ("de-DE", "de"),
        ("ja-JP", "ja"), ("ko-KR", "ko"), ("pt-BR", "pt"), ("ru-RU", "ru"),
        ("ar-SA", "ar"), ("it-IT", "it"), ("nl-NL", "nl"), ("pl-PL", "pl"),
        ("sv-SE", "sv"), ("tr-TR", "tr"), ("vi-VN", "vi"), ("th-TH", "th"),
        ("id-ID", "id"), ("ms-MY", "ms"), ("ro-RO", "ro"), ("uk-UA", "uk"),
        ("ca-ES", "ca"), ("fi-FI", "fi"), ("cs-CZ", "cs"), ("el-GR", "el"),
        ("he-IL", "he"), ("hi-IN", "hi"), ("hu-HU", "hu"), ("no-NO", "no"),
        ("sk-SK", "sk"), ("da-DK", "da"), ("bg-BG", "bg"), ("hr-HR", "hr"),
        ("lt-LT", "lt"), ("sl-SI", "sl"), ("et-EE", "et"), ("lv-LV", "lv"),
        ("sr-RS", "sr"), ("mk-MK", "mk"), ("sq-AL", "sq"),
    ]
}

/// The code of the first entry of `table` whose locale is `language`, or
/// `en` when none is.
pub open spec fn code_in(table: Seq<(&'static str, &'static str)>, language: Seq<char>) -> Seq<char>
    decreases table.len(),
{
    if table.len() == 0 {
        "en"@
    } else if table[0].0@ == language {
        table[0].1@
    } else {
        code_in(table.drop_first(), language)
    }
}

fn lang_table() -> (r: Vec<(&'static str, &'static str)>)
    ensures
        r@ == lang_map(),
{
    vec![
        ("en-US", "en"), ("en-GB", "en"), ("es-ES", "es"), ("es-MX", "es"),
        ("zh-CN", "zh"), ("zh-TW", "zh"), ("fr-FR", "fr"), ("de-DE", "de"),
        ("ja-JP", "ja"), ("ko-KR", "ko"), ("pt-BR", "pt"), ("ru-RU", "ru"),
        ("ar-SA", "ar"), ("it-IT", "it"), ("nl-NL", "nl"), ("pl-PL", "pl"),
        ("sv-SE", "sv"), ("tr-TR", "tr"), ("vi-VN", "vi"), ("th-TH", "th"),
        ("id-ID", "id"), ("ms-MY", "ms"), ("ro-RO", "ro"), ("uk-UA", "uk"),
        ("ca-ES", "ca"), ("fi-FI", "fi"), ("cs-CZ", "cs"), ("el-GR", "el"),
        ("he-IL", "he"), ("hi-IN", "hi"), ("hu-HU", "hu"), ("no-NO", "no"),
        ("sk-SK", "sk"), ("da-DK", "da"), ("bg-BG", "bg"), ("hr-HR", "hr"),
        ("lt-LT", "lt"), ("sl-SI", "sl"), ("et-EE", "et"), ("lv-LV", "lv"),
        ("sr-RS", "sr"), ("mk-MK", "mk"), ("sq-AL", "sq"),
    ]
}

/// The language code of a locale such as `es-MX`, or `en` for a locale
/// that is not listed.
pub fn lang_to_code(language: &str) -> (r: &'static str)
    ensures
        r@ == code_in(lang_map(), language@),
{
    let table = lang_table();
    let mut i: usize = 0;
    assert(table@.skip(0) =~= table@);
    while i < table.len()
        invariant
            i <= table.len(),
            table@ == lang_map(),
            code_in(lang_map(), language@) == code_in(table@.skip(i as int), language@),
        decreases table.len() - i,
    {
        assert(table@.skip(i as int).drop_first() =~= table@.skip(i + 1));
        let (lang, code) = table[i];
        if str_eq(lang, language) {
            return code;
        }
        i = i + 1;
    }
    "en"
}

/// The language part of a locale `ll-CC`: the two characters before the
/// `-`.
pub open spec fn entry_shaped(e: (&'static str, &'static str)) -> bool {
    &&& e.0@.len() == 5
    &&& e.0@[2] == '-'
    &&& e.1@ == e.0@.take(2)
}

/// The listed locales, as their language parts and their characters.
pub open spec fn listed(table: Seq<(&'static str, &'static str)>, language: Seq<char>) -> bool {
    exists|i: int| 0 <= i < table.len() && (#[trigger] table[i]).0@ == language
}

proof fn lemma_code_in_parts(table: Seq<(&'static str, &'static str)>, language: Seq<char>)
    requires
        forall|i: int| 0 <= i < table.len() ==> entry_shaped(#[trigger] table[i]),
    ensures
        listed(table, language) ==> language.len() == 5 && language[2] == '-' && code_in(table, language)
            == language.take(2),
        !listed(table, language) ==> code_in(table, language) == "en"@,
    decreases table.len(),
{
    if table.len() > 0 {
        let rest = table.drop_first();
        assert forall|i: int| 0 <= i < rest.len() implies entry_shaped(#[trigger] rest[i]) by {
            assert(rest[i] == table[i + 1]);
        }
        lemma_code_in_parts(rest, language);
        assert(entry_shaped(table[0]));
        if table[0].0@ != language {
            if listed(table, language) {
                let i = choose|i: int| 0 <= i < table.len() && (#[trigger] table[i]).0@ == language;
                assert(rest[i - 1] == table[i]);
            }
            if listed(rest, language) {
                let i = choose|i: int| 0 <= i < rest.len() && (#[trigger] rest[i]).0@ == language;
                assert(table[i + 1] == rest[i]);
            }
        }
    }
}

proof fn lemma_lang_map_shaped()
    ensures
        forall|i: int| 0 <= i < lang_map().len() ==> entry_shaped(#[trigger] lang_map()[i]),
{
    let t = lang_map();
    assert(entry_shaped(t[0])) by {
        reveal_strlit("en-US");
        reveal_strlit("en");
        assert(t[0].1@ =~= t[0].0@.take(2));
    }
    assert(entry_shaped(t[1])) by {
        reveal_strlit("en-GB");
        reveal_strlit("en");
        assert(t[1].1@ =~= t[1].0@.take(2));
    }
    assert(entry_shaped(t[2])) by {
        reveal_strlit("es-ES");
        reveal_strlit("es");
        assert(t[2].1@ =~= t[2].0@.take(2));
    }
    assert(entry_shaped(t[3])) by {
        reveal_strlit("es-MX");
        reveal_strlit("es");
        assert(t[3].1@ =~= t[3].0@.take(2));
    }
    assert(entry_shaped(t[4])) by {
        reveal_strlit("zh-CN");
        reveal_strlit("zh");
        assert(t[4].1@ =~= t[4].0@.take(2));
    }
    assert(entry_shaped(t[5])) by {
        reveal_strlit("zh-TW");
        reveal_strlit("zh");
        assert(t[5].1@ =~= t[5].0@.take(2));
    }
    assert(entry_shaped(t[6])) by {
        reveal_strlit("fr-FR");
        reveal_strlit("fr");
        assert(t[6].1@ =~= t[6].0@.take(2));
    }
    assert(entry_shaped(t[7])) by {
        reveal_strlit("de-DE");
        reveal_strlit("de");
        assert(t[7].1@ =~= t[7].0@.take(2));
    }
    assert(entry_shaped(t[8])) by {
        reveal_strlit("ja-JP");
        reveal_strlit("ja");
        assert(t[8].1@ =~= t[8].0@.take(2));
    }
    assert(entry_shaped(t[9])) by {
        reveal_strlit("ko-KR");
        reveal_strlit("ko");
        assert(t[9].1@ =~= t[9].0@.take(2));
    }
    assert(entry_shaped(t[10])) by {
        reveal_strlit("pt-BR");
        reveal_strlit("pt");
        assert(t[10].1@ =~= t[10].0@.take(2));
    }
    assert(entry_shaped(t[11])) by {
        reveal_strlit("ru-RU");
        reveal_strlit("ru");
        assert(t[11].1@ =~= t[11].0@.take(2));
    }
    assert(entry_shaped(t[12])) by {
        reveal_strlit("ar-SA");
        reveal_strlit("ar");
        assert(t[12].1@ =~= t[12].0@.take(2));
    }
    assert(entry_shaped(t[13])) by {
        reveal_strlit("it-IT");
        reveal_strlit("it");
        assert(t[13].1@ =~= t[13].0@.take(2));
    }
    assert(entry_shaped(t[14])) by {
        reveal_strlit("nl-NL");
        reveal_strlit("nl");
        assert(t[14].1@ =~= t[14].0@.take(2));
    }
    assert(entry_shaped(t[15])) by {
        reveal_strlit("pl-PL");
        reveal_strlit("pl");
        assert(t[15].1@ =~= t[15].0@.take(2));
    }
    assert(entry_shaped(t[16])) by {
        reveal_strlit("sv-SE");
        reveal_strlit("sv");
        assert(t[16].1@ =~= t[16].0@.take(2));
    }
    assert(entry_shaped(t[17])) by {
        reveal_strlit("tr-TR");
        reveal_strlit("tr");
        assert(t[17].1@ =~= t[17].0@.take(2));
    }
    assert(entry_shaped(t[18])) by {
        reveal_strlit("vi-VN");
        reveal_strlit("vi");
        assert(t[18].1@ =~= t[18].0@.take(2));
    }
    assert(entry_shaped(t[19])) by {
        reveal_strlit("th-TH");
        reveal_strlit("th");
        assert(t[19].1@ =~= t[19].0@.take(2));
    }
    assert(entry_shaped(t[20])) by {
        reveal_strlit("id-ID");
        reveal_strlit("id");
        assert(t[20].1@ =~= t[20].0@.take(2));
    }
    assert(entry_shaped(t[21])) by {
        reveal_strlit("ms-MY");
        reveal_strlit("ms");
        assert(t[21].1@ =~= t[21].0@.take(2));
    }
    assert(entry_shaped(t[22])) by {
        reveal_strlit("ro-RO");
        reveal_strlit("ro");
        assert(t[22].1@ =~= t[22].0@.take(2));
    }
    assert(entry_shaped(t[23])) by {
        reveal_strlit("uk-UA");
        reveal_strlit("uk");
        assert(t[23].1@ =~= t[23].0@.take(2));
    }
    assert(entry_shaped(t[24])) by {
        reveal_strlit("ca-ES");
        reveal_strlit("ca");
        assert(t[24].1@ =~= t[24].0@.take(2));
    }
    assert(entry_shaped(t[25])) by {
        reveal_strlit("fi-FI");
        reveal_strlit("fi");
        assert(t[25].1@ =~= t[25].0@.take(2));
    }
    assert(entry_shaped(t[26])) by {
        reveal_strlit("cs-CZ");
        reveal_strlit("cs");
        assert(t[26].1@ =~= t[26].0@.take(2));
    }
    assert(entry_shaped(t[27])) by {
        reveal_strlit("el-GR");
        reveal_strlit("el");
        assert(t[27].1@ =~= t[27].0@.take(2));
    }
    assert(entry_shaped(t[28])) by {
        reveal_strlit("he-IL");
        reveal_strlit("he");
        assert(t[28].1@ =~= t[28].0@.take(2));
    }
    assert(entry_shaped(t[29])) by {
        reveal_strlit("hi-IN");
        reveal_strlit("hi");
        assert(t[29].1@ =~= t[29].0@.take(2));
    }
    assert(entry_shaped(t[30])) by {
        reveal_strlit("hu-HU");
        reveal_strlit("hu");
        assert(t[30].1@ =~= t[30].0@.take(2));
    }
    assert(entry_shaped(t[31])) by {
        reveal_strlit("no-NO");
        reveal_strlit("no");
        assert(t[31].1@ =~= t[31].0@.take(2));
    }
    assert(entry_shaped(t[32])) by {
        reveal_strlit("sk-SK");
        reveal_strlit("sk");
        assert(t[32].1@ =~= t[32].0@.take(2));
    }
    assert(entry_shaped(t[33])) by {
        reveal_strlit("da-DK");
        reveal_strlit("da");
        assert(t[33].1@ =~= t[33].0@.take(2));
    }
    assert(entry_shaped(t[34])) by {
        reveal_strlit("bg-BG");
        reveal_strlit("bg");
        assert(t[34].1@ =~= t[34].0@.take(2));
    }
    assert(entry_shaped(t[35])) by {
        reveal_strlit("hr-HR");
        reveal_strlit("hr");
        assert(t[35].1@ =~= t[35].0@.take(2));
    }
    assert(entry_shaped(t[36])) by {
        reveal_strlit("lt-LT");
        reveal_strlit("lt");
        assert(t[36].1@ =~= t[36].0@.take(2));
    }
    assert(entry_shaped(t[37])) by {
        reveal_strlit("sl-SI");
        reveal_strlit("sl");
        assert(t[37].1@ =~= t[37].0@.take(2));
    }
    assert(entry_shaped(t[38])) by {
        reveal_strlit("et-EE");
        reveal_strlit("et");
        assert(t[38].1@ =~= t[38].0@.take(2));
    }
    assert(entry_shaped(t[39])) by {
        reveal_strlit("lv-LV");
        reveal_strlit("lv");
        assert(t[39].1@ =~= t[39].0@.take(2));
    }
    assert(entry_shaped(t[40])) by {
        reveal_strlit("sr-RS");
        reveal_strlit("sr");
        assert(t[40].1@ =~= t[40].0@.take(2));
    }
    assert(entry_shaped(t[41])) by {
        reveal_strlit("mk-MK");
        reveal_strlit("mk");
        assert(t[41].1@ =~= t[41].0@.take(2));
    }
    assert(entry_shaped(t[42])) by {
        reveal_strlit("sq-AL");
        reveal_strlit("sq");
        assert(t[42].1@ =~= t[42].0@.take(2));
    }
}

/// A listed locale maps to its language part, the two characters before
/// its `-` (so `fr-FR` gives `fr`); only a locale that is not listed gives
/// `en`.
pub proof fn lemma_code_is_language_part(language: Seq<char>)
    ensures
        listed(lang_map(), language) ==> language.len() == 5 && language[2] == '-'
            && code_in(lang_map(), language) == language.take(2),
        !listed(lang_map(), language) ==> code_in(lang_map(), language) == "en"@,
{
    lemma_lang_map_shaped();
    lemma_code_in_parts(lang_map(), language);
}

/// The searches discovery runs for a language.
pub struct DiscoveryPlan {
    pub language: String,
    pub code: String,
    pub stt_query: String,
    pub tts_query: String,
    pub llm_query: String,
}

/// The query for a model family: the family alone for English, else the
/// family, a hyphen and the language code.
pub open spec fn family_query(family: Seq<char>, code: Seq<char>) -> Seq<char> {
    if code == "en"@ { family } else { family + "-"@ + code }
}

/// The language of a discovery request, `en-US` when none is given.
pub open spec fn discovery_language(language: Option<String>) -> Seq<char> {
    match language {
        Some(l) => l@,
        None => "en-US"@,
    }
}

fn query_for(family: &str, code: &str) -> (r: String)
    ensures
        r@ == family_query(family@, code@),
{
    let mut r = owned(family);
    if !str_eq(code, "en") {
        push_str(&mut r, "-");
        push_str(&mut r, code);
    }
    r
}

/// The searches for `language` (`en-US` when absent): `whisper-small` and
/// `piper-tts` models for its code, and `<code>-small` text models.
pub fn plan_discovery(language: Option<String>) -> (r: DiscoveryPlan)
    ensures
        r.language@ == discovery_language(language),
        r.code@ == code_in(lang_map(), r.language@),
        r.stt_query@ == family_query("whisper-small"@, r.code@),
        r.tts_query@ == family_query("piper-tts"@, r.code@),
        r.llm_query@ == r.code@ + "-small"@,
{
    let language = match language {
        Some(l) => l,
        None => owned("en-US"),
    };
    let code = lang_to_code(language.as_str());
    let stt_query = query_for("whisper-small", code);
    let tts_query = query_for("piper-tts", code);
    let mut llm_query = owned(code);
    push_str(&mut llm_query, "-small");
    DiscoveryPlan { language, code: owned(code), stt_query, tts_query, llm_query }
}

/// The speech recognition models to offer: those found, or the default
/// Whisper model when none was.
pub fn stt_models_or_default(found: Vec<String>) -> (r: Vec<String>)
    ensures
        found@.len() > 0 ==> r@ == found@,
        found@.len() == 0 ==> r@.len() == 1 && r@[0]@ == "openai/whisper-small"@,
{
    if found.len() > 0 {
        found
    } else {
        vec![owned("openai/whisper-small")]
    }
}

/// The speech synthesis models to offer: those found, or the default Piper
/// voices when none was.
pub fn tts_models_or_default(found: Vec<String>) -> (r: Vec<String>)
    ensures
        found@.len() > 0 ==> r@ == found@,
        found@.len() == 0 ==> r@.len() == 1 && r@[0]@ == "rhasspy/piper-voices"@,
{
    if found.len() > 0 {
        found
    } else {
        vec![owned("rhasspy/piper-voices")]
    }
}

/// A request to discover models for a language.
pub struct DiscoverQuery {
    pub language: Option<String>,
}

/// A model search request.
pub struct SearchQuery {
    pub query: Option<String>,
    pub language: Option<String>,
    pub limit: Option<usize>,
}

/// The number of results a search returns when no limit is given.
pub const DEFAULT_SEARCH_LIMIT: usize = 10;

/// The limit of a search request, ten when none is given.
pub fn search_limit(query: &SearchQuery) -> (r: usize)
    ensures
        r == match query.limit {
            Some(l) => l,
            None => DEFAULT_SEARCH_LIMIT,
        },
{
    match query.limit {
        Some(l) => l,
        None => DEFAULT_SEARCH_LIMIT,
    }
}

} // verus!
