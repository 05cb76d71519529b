//! The closed set of languages a translation can be written in.
//!
//! A language is identified by its two-letter ISO 639-1 code. The code in
//! upper case is the canonical form; the English name is the display form.

use vstd::prelude::*;

verus! {

/// A supported language, named by its ISO 639-1 code.
#[derive(Clone, Copy, Debug, PartialEq, Eq, Hash, Structural)]
pub enum Language {
    /// Afar.
    AA,
    /// Abkhazian.
    AB,
    /// Avestan.
    AE,
    /// Afrikaans.
    AF,
    /// Akan.
    AK,
    /// Amharic.
    AM,
    /// Aragonese.
    AN,
    /// Arabic.
    AR,
    /// Assamese.
    AS,
    /// Avaric.
    AV,
    /// Aymara.
    AY,
    /// Azerbaijani.
    AZ,
    /// Bashkir.
    BA,
    /// Belarusian.
    BE,
    /// Bulgarian.
    BG,
    /// Bihari.
    BH,
    /// Bislama.
    BI,
    /// Bambara.
    BM,
    /// Bengali.
    BN,
    /// Tibetan.
    BO,
    /// Breton.
    BR,
    /// Bosnian.
    BS,
    /// Catalan.
    CA,
    /// Chechen.
    CE,
    /// Chamorro.
    CH,
    /// Corsican.
    CO,
    /// Cree.
    CR,
    /// Czech.
    CS,
    /// Church Slavic.
    CU,
    /// Chuvash.
    CV,
    /// Welsh.
    CY,
    /// Danish.
    DA,
    /// German.
    DE,
    /// Divehi.
    DV,
    /// Dzongkha.
    DZ,
    /// Ewe.
    EE,
    /// Greek.
    EL,
    /// English.
    EN,
    /// Esperanto.
    EO,
    /// Spanish.
    ES,
    /// Estonian.
    ET,
    /// Basque.
    EU,
    /// Persian.
    FA,
    /// Fulah.
    FF,
    /// Finnish.
    FI,
    /// Fijian.
    FJ,
    /// Faroese.
    FO,
    /// French.
    FR,
    /// Western Frisian.
    FY,
    /// Irish.
    GA,
    /// Scottish Gaelic.
    GD,
    /// Galician.
    GL,
    /// Guarani.
    GN,
    /// Gujarati.
    GU,
    /// Manx.
    GV,
    /// Hausa.
    HA,
    /// Hebrew.
    HE,
    /// Hindi.
    HI,
    /// Hiri Motu.
    HO,
    /// Croatian.
    HR,
    /// Haitian.
    HT,
    /// Hungarian.
    HU,
    /// Armenian.
    HY,
    /// Herero.
    HZ,
    /// Interlingua.
    IA,
    /// Indonesian.
    ID,
    /// Interlingue.
    IE,
    /// Igbo.
    IG,
    /// Sichuan Yi.
    II,
    /// Inupiaq.
    IK,
    /// Ido.
    IO,
    /// Icelandic.
    IS,
    /// Italian.
    IT,
    /// Inuktitut.
    IU,
    /// Japanese.
    JA,
    /// Javanese.
    JV,
    /// Georgian.
    KA,
    /// Kongo.
    KG,
    /// Kikuyu.
    KI,
    /// Kuanyama.
    KJ,
    /// Kazakh.
    KK,
    /// Kalaallisut.
    KL,
    /// Central Khmer.
    KM,
    /// Kannada.
    KN,
    /// Korean.
    KO,
    /// Kanuri.
    KR,
    /// Kashmiri.
    KS,
    /// Kurdish.
    KU,
    /// Komi.
    KV,
    /// Cornish.
    KW,
    /// Kirghiz.
    KY,
    /// Latin.
    LA,
    /// Luxembourgish.
    LB,
    /// Ganda.
    LG,
    /// Limburgan.
    LI,
    /// Lingala.
    LN,
    /// Lao.
    LO,
    /// Lithuanian.
    LT,
    /// Luba-Katanga.
    LU,
    /// Latvian.
    LV,
    /// Malagasy.
    MG,
    /// Marshallese.
    MH,
    /// Maori.
    MI,
    /// Macedonian.
    MK,
    /// Malayalam.
    ML,
    /// Mongolian.
    MN,
    /// Marathi.
    MR,
    /// Malay.
    MS,
    /// Maltese.
    MT,
    /// Burmese.
    MY,
    /// Nauru.
    NA,
    /// Norwegian Bokmal.
    NB,
    /// North Ndebele.
    ND,
    /// Nepali.
    NE,
    /// Ndonga.
    NG,
    /// Dutch.
    NL,
    /// Norwegian Nynorsk.
    NN,
    /// Norwegian.
    NO,
    /// South Ndebele.
    NR,
    /// Navajo.
    NV,
    /// Chichewa.
    NY,
    /// Occitan.
    OC,
    /// Ojibwa.
    OJ,
    /// Oromo.
    OM,
    /// Oriya.
    OR,
    /// Ossetian.
    OS,
    /// Punjabi.
    PA,
    /// Pali.
    PI,
    /// Polish.
    PL,
    /// Pashto.
    PS,
    /// Portuguese.
    PT,
    /// Quechua.
    QU,
    /// Romansh.
    RM,
    /// Rundi.
    RN,
    /// Romanian.
    RO,
    /// Russian.
    RU,
    /// Kinyarwanda.
    RW,
    /// Sanskrit.
    SA,
    /// Sardinian.
    SC,
    /// Sindhi.
    SD,
    /// Northern Sami.
    SE,
    /// Sango.
    SG,
    /// Sinhala.
    SI,
    /// Slovak.
    SK,
    /// Slovenian.
    SL,
    /// Samoan.
    SM,
    /// Shona.
    SN,
    /// Somali.
    SO,
    /// Albanian.
    SQ,
    /// Serbian.
    SR,
    /// Swati.
    SS,
    /// Southern Sotho.
    ST,
    /// Sundanese.
    SU,
    /// Swedish.
    SV,
    /// Swahili.
    SW,
    /// Tamil.
    TA,
    /// Telugu.
    TE,
    /// Tajik.
    TG,
    /// Thai.
    TH,
    /// Tigrinya.
    TI,
    /// Turkmen.
    TK,
    /// Tagalog.
    TL,
    /// Tswana.
    TN,
    /// Tonga.
    TO,
    /// Turkish.
    TR,
    /// Tsonga.
    TS,
    /// Tatar.
    TT,
    /// Twi.
    TW,
    /// Tahitian.
    TY,
    /// Uighur.
    UG,
    /// Ukrainian.
    UK,
    /// Urdu.
    UR,
    /// Uzbek.
    UZ,
    /// Venda.
    VE,
    /// Vietnamese.
    VI,
    /// Volapuk.
    VO,
    /// Walloon.
    WA,
    /// Wolof.
    WO,
    /// Xhosa.
    XH,
    /// Yiddish.
    YI,
    /// Yoruba.
    YO,
    /// Zhuang.
    ZA,
    /// Chinese.
    ZH,
    /// Zulu.
    ZU,
}

/// The upper-case form of an ASCII letter; any other character unchanged.
pub open spec fn ascii_upper(c: char) -> char {
    if 'a' <= c && c <= 'z' {
        ((c as u8) - 32) as char
    } else {
        c
    }
}

/// A text with each of its ASCII letters in upper case.
pub open spec fn upper_text(s: Seq<char>) -> Seq<char> {
    Seq::new(s.len(), |i: int| ascii_upper(s[i]))
}

fn to_ascii_upper(c: char) -> (r: char)
    ensures
        r == ascii_upper(c),
{
    if 'a' <= c && c <= 'z' {
        ((c as u8) - 32) as char
    } else {
        c
    }
}

impl Language {
    /// The two letters of the canonical code.
    pub open spec fn letters(self) -> (char, char) {
        match self {
            Language::AA => ('A', 'A'),
            Language::AB => ('A', 'B'),
            Language::AE => ('A', 'E'),
            Language::AF => ('A', 'F'),
            Language::AK => ('A', 'K'),
            Language::AM => ('A', 'M'),
            Language::AN => ('A', 'N'),
            Language::AR => ('A', 'R'),
            Language::AS => ('A', 'S'),
            Language::AV => ('A', 'V'),
            Language::AY => ('A', 'Y'),
            Language::AZ => ('A', 'Z'),
            Language::BA => ('B', 'A'),
            Language::BE => ('B', 'E'),
            Language::BG => ('B', 'G'),
            Language::BH => ('B', 'H'),
            Language::BI => ('B', 'I'),
            Language::BM => ('B', 'M'),
            Language::BN => ('B', 'N'),
            Language::BO => ('B', 'O'),
            Language::BR => ('B', 'R'),
            Language::BS => ('B', 'S'),
            Language::CA => ('C', 'A'),
            Language::CE => ('C', 'E'),
            Language::CH => ('C', 'H'),
            Language::CO => ('C', 'O'),
            Language::CR => ('C', 'R'),
            Language::CS => ('C', 'S'),
            Language::CU => ('C', 'U'),
            Language::CV => ('C', 'V'),
            Language::CY => ('C', 'Y'),
            Language::DA => ('D', 'A'),
            Language::DE => ('D', 'E'),
            Language::DV => ('D', 'V'),
            Language::DZ => ('D', 'Z'),
            Language::EE => ('E', 'E'),
            Language::EL => ('E', 'L'),
            Language::EN => ('E', 'N'),
            Language::EO => ('E', 'O'),
            Language::ES => ('E', 'S'),
            Language::ET => ('E', 'T'),
            Language::EU => ('E', 'U'),
            Language::FA => ('F', 'A'),
            Language::FF => ('F', 'F'),
            Language::FI => ('F', 'I'),
            Language::FJ => ('F', 'J'),
            Language::FO => ('F', 'O'),
            Language::FR => ('F', 'R'),
            Language::FY => ('F', 'Y'),
            Language::GA => ('G', 'A'),
            Language::GD => ('G', 'D'),
            Language::GL => ('G', 'L'),
            Language::GN => ('G', 'N'),
            Language::GU => ('G', 'U'),
            Language::GV => ('G', 'V'),
            Language::HA => ('H', 'A'),
            Language::HE => ('H', 'E'),
            Language::HI => ('H', 'I'),
            Language::HO => ('H', 'O'),
            Language::HR => ('H', 'R'),
            Language::HT => ('H', 'T'),
            Language::HU => ('H', 'U'),
            Language::HY => ('H', 'Y'),
            Language::HZ => ('H', 'Z'),
            Language::IA => ('I', 'A'),
            Language::ID => ('I', 'D'),
            Language::IE => ('I', 'E'),
            Language::IG => ('I', 'G'),
            Language::II => ('I', 'I'),
            Language::IK => ('I', 'K'),
            Language::IO => ('I', 'O'),
            Language::IS => ('I', 'S'),
            Language::IT => ('I', 'T'),
            Language::IU => ('I', 'U'),
            Language::JA => ('J', 'A'),
            Language::JV => ('J', 'V'),
            Language::KA => ('K', 'A'),
            Language::KG => ('K', 'G'),
            Language::KI => ('K', 'I'),
            Language::KJ => ('K', 'J'),
            Language::KK => ('K', 'K'),
            Language::KL => ('K', 'L'),
            Language::KM => ('K', 'M'),
            Language::KN => ('K', 'N'),
            Language::KO => ('K', 'O'),
            Language::KR => ('K', 'R'),
            Language::KS => ('K', 'S'),
            Language::KU => ('K', 'U'),
            Language::KV => ('K', 'V'),
            Language::KW => ('K', 'W'),
            Language::KY => ('K', 'Y'),
            Language::LA => ('L', 'A'),
            Language::LB => ('L', 'B'),
            Language::LG => ('L', 'G'),
            Language::LI => ('L', 'I'),
            Language::LN => ('L', 'N'),
            Language::LO => ('L', 'O'),
            Language::LT => ('L', 'T'),
            Language::LU => ('L', 'U'),
            Language::LV => ('L', 'V'),
            Language::MG => ('M', 'G'),
            Language::MH => ('M', 'H'),
            Language::MI => ('M', 'I'),
            Language::MK => ('M', 'K'),
            Language::ML => ('M', 'L'),
            Language::MN => ('M', 'N'),
            Language::MR => ('M', 'R'),
            Language::MS => ('M', 'S'),
            Language::MT => ('M', 'T'),
            Language::MY => ('M', 'Y'),
            Language::NA => ('N', 'A'),
            Language::NB => ('N', 'B'),
            Language::ND => ('N', 'D'),
            Language::NE => ('N', 'E'),
            Language::NG => ('N', 'G'),
            Language::NL => ('N', 'L'),
            Language::NN => ('N', 'N'),
            Language::NO => ('N', 'O'),
            Language::NR => ('N', 'R'),
            Language::NV => ('N', 'V'),
            Language::NY => ('N', 'Y'),
            Language::OC => ('O', 'C'),
            Language::OJ => ('O', 'J'),
            Language::OM => ('O', 'M'),
            Language::OR => ('O', 'R'),
            Language::OS => ('O', 'S'),
            Language::PA => ('P', 'A'),
            Language::PI => ('P', 'I'),
            Language::PL => ('P', 'L'),
            Language::PS => ('P', 'S'),
            Language::PT => ('P', 'T'),
            Language::QU => ('Q', 'U'),
            Language::RM => ('R', 'M'),
            Language::RN => ('R', 'N'),
            Language::RO => ('R', 'O'),
            Language::RU => ('R', 'U'),
            Language::RW => ('R', 'W'),
            Language::SA => ('S', 'A'),
            Language::SC => ('S', 'C'),
            Language::SD => ('S', 'D'),
            Language::SE => ('S', 'E'),
            Language::SG => ('S', 'G'),
            Language::SI => ('S', 'I'),
            Language::SK => ('S', 'K'),
            Language::SL => ('S', 'L'),
            Language::SM => ('S', 'M'),
            Language::SN => ('S', 'N'),
            Language::SO => ('S', 'O'),
            Language::SQ => ('S', 'Q'),
            Language::SR => ('S', 'R'),
            Language::SS => ('S', 'S'),
            Language::ST => ('S', 'T'),
            Language::SU => ('S', 'U'),
            Language::SV => ('S', 'V'),
            Language::SW => ('S', 'W'),
            Language::TA => ('T', 'A'),
            Language::TE => ('T', 'E'),
            Language::TG => ('T', 'G'),
            Language::TH => ('T', 'H'),
            Language::TI => ('T', 'I'),
            Language::TK => ('T', 'K'),
            Language::TL => ('T', 'L'),
            Language::TN => ('T', 'N'),
            Language::TO => ('T', 'O'),
            Language::TR => ('T', 'R'),
            Language::TS => ('T', 'S'),
            Language::TT => ('T', 'T'),
            Language::TW => ('T', 'W'),
            Language::TY => ('T', 'Y'),
            Language::UG => ('U', 'G'),
            Language::UK => ('U', 'K'),
            Language::UR => ('U', 'R'),
            Language::UZ => ('U', 'Z'),
            Language::VE => ('V', 'E'),
            Language::VI => ('V', 'I'),
            Language::VO => ('V', 'O'),
            Language::WA => ('W', 'A'),
            Language::WO => ('W', 'O'),
            Language::XH => ('X', 'H'),
            Language::YI => ('Y', 'I'),
            Language::YO => ('Y', 'O'),
            Language::ZA => ('Z', 'A'),
            Language::ZH => ('Z', 'H'),
            Language::ZU => ('Z', 'U'),
        }
    }

    /// The canonical code as text: two upper-case letters.
    pub open spec fn code_text(self) -> Seq<char> {
        seq![self.letters().0, self.letters().1]
    }

    /// The display form as text: the language's English name.
    pub open spec fn name_text(self) -> Seq<char> {
        match self {
            Language::AA => "Afar"@,
            Language::AB => "Abkhazian"@,
            Language::AE => "Avestan"@,
            Language::AF => "Afrikaans"@,
            Language::AK => "Akan"@,
            Language::AM => "Amharic"@,
            Language::AN => "Aragonese"@,
            Language::AR => "Arabic"@,
            Language::AS => "Assamese"@,
            Language::AV => "Avaric"@,
            Language::AY => "Aymara"@,
            Language::AZ => "Azerbaijani"@,
            Language::BA => "Bashkir"@,
            Language::BE => "Belarusian"@,
            Language::BG => "Bulgarian"@,
            Language::BH => "Bihari"@,
            Language::BI => "Bislama"@,
            Language::BM => "Bambara"@,
            Language::BN => "Bengali"@,
            Language::BO => "Tibetan"@,
            Language::BR => "Breton"@,
            Language::BS => "Bosnian"@,
            Language::CA => "Catalan"@,
            Language::CE => "Chechen"@,
            Language::CH => "Chamorro"@,
            Language::CO => "Corsican"@,
            Language::CR => "Cree"@,
            Language::CS => "Czech"@,
            Language::CU => "Church Slavic"@,
            Language::CV => "Chuvash"@,
            Language::CY => "Welsh"@,
            Language::DA => "Danish"@,
            Language::DE => "German"@,
            Language::DV => "Divehi"@,
            Language::DZ => "Dzongkha"@,
            Language::EE => "Ewe"@,
            Language::EL => "Greek"@,
            Language::EN => "English"@,
            Language::EO => "Esperanto"@,
            Language::ES => "Spanish"@,
            Language::ET => "Estonian"@,
            Language::EU => "Basque"@,
            Language::FA => "Persian"@,
            Language::FF => "Fulah"@,
            Language::FI => "Finnish"@,
            Language::FJ => "Fijian"@,
            Language::FO => "Faroese"@,
            Language::FR => "French"@,
            Language::FY => "Western Frisian"@,
            Language::GA => "Irish"@,
            Language::GD => "Scottish Gaelic"@,
            Language::GL => "Galician"@,
            Language::GN => "Guarani"@,
            Language::GU => "Gujarati"@,
            Language::GV => "Manx"@,
            Language::HA => "Hausa"@,
            Language::HE => "Hebrew"@,
            Language::HI => "Hindi"@,
            Language::HO => "Hiri Motu"@,
            Language::HR => "Croatian"@,
            Language::HT => "Haitian"@,
            Language::HU => "Hungarian"@,
            Language::HY => "Armenian"@,
            Language::HZ => "Herero"@,
            Language::IA => "Interlingua"@,
            Language::ID => "Indonesian"@,
            Language::IE => "Interlingue"@,
            Language::IG => "Igbo"@,
            Language::II => "Sichuan Yi"@,
            Language::IK => "Inupiaq"@,
            Language::IO => "Ido"@,
            Language::IS => "Icelandic"@,
            Language::IT => "Italian"@,
            Language::IU => "Inuktitut"@,
            Language::JA => "Japanese"@,
            Language::JV => "Javanese"@,
            Language::KA => "Georgian"@,
            Language::KG => "Kongo"@,
            Language::KI => "Kikuyu"@,
            Language::KJ => "Kuanyama"@,
            Language::KK => "Kazakh"@,
            Language::KL => "Kalaallisut"@,
            Language::KM => "Central Khmer"@,
            Language::KN => "Kannada"@,
            Language::KO => "Korean"@,
            Language::KR => "Kanuri"@,
            Language::KS => "Kashmiri"@,
            Language::KU => "Kurdish"@,
            Language::KV => "Komi"@,
            Language::KW => "Cornish"@,
            Language::KY => "Kirghiz"@,
            Language::LA => "Latin"@,
            Language::LB => "Luxembourgish"@,
            Language::LG => "Ganda"@,
            Language::LI => "Limburgan"@,
            Language::LN => "Lingala"@,
            Language::LO => "Lao"@,
            Language::LT => "Lithuanian"@,
            Language::LU => "Luba-Katanga"@,
            Language::LV => "Latvian"@,
            Language::MG => "Malagasy"@,
            Language::MH => "Marshallese"@,
            Language::MI => "Maori"@,
            Language::MK => "Macedonian"@,
            Language::ML => "Malayalam"@,
            Language::MN => "Mongolian"@,
            Language::MR => "Marathi"@,
            Language::MS => "Malay"@,
            Language::MT => "Maltese"@,
            Language::MY => "Burmese"@,
            Language::NA => "Nauru"@,
            Language::NB => "Norwegian Bokmal"@,
            Language::ND => "North Ndebele"@,
            Language::NE => "Nepali"@,
            Language::NG => "Ndonga"@,
            Language::NL => "Dutch"@,
            Language::NN => "Norwegian Nynorsk"@,
            Language::NO => "Norwegian"@,
            Language::NR => "South Ndebele"@,
            Language::NV => "Navajo"@,
            Language::NY => "Chichewa"@,
            Language::OC => "Occitan"@,
            Language::OJ => "Ojibwa"@,
            Language::OM => "Oromo"@,
            Language::OR => "Oriya"@,
            Language::OS => "Ossetian"@,
            Language::PA => "Punjabi"@,
            Language::PI => "Pali"@,
            Language::PL => "Polish"@,
            Language::PS => "Pashto"@,
            Language::PT => "Portuguese"@,
            Language::QU => "Quechua"@,
            Language::RM => "Romansh"@,
            Language::RN => "Rundi"@,
            Language::RO => "Romanian"@,
            Language::RU => "Russian"@,
            Language::RW => "Kinyarwanda"@,
            Language::SA => "Sanskrit"@,
            Language::SC => "Sardinian"@,
            Language::SD => "Sindhi"@,
            Language::SE => "Northern Sami"@,
            Language::SG => "Sango"@,
            Language::SI => "Sinhala"@,
            Language::SK => "Slovak"@,
            Language::SL => "Slovenian"@,
            Language::SM => "Samoan"@,
            Language::SN => "Shona"@,
            Language::SO => "Somali"@,
            Language::SQ => "Albanian"@,
            Language::SR => "Serbian"@,
            Language::SS => "Swati"@,
            Language::ST => "Southern Sotho"@,
            Language::SU => "Sundanese"@,
            Language::SV => "Swedish"@,
            Language::SW => "Swahili"@,
            Language::TA => "Tamil"@,
            Language::TE => "Telugu"@,
            Language::TG => "Tajik"@,
            Language::TH => "Thai"@,
            Language::TI => "Tigrinya"@,
            Language::TK => "Turkmen"@,
            Language::TL => "Tagalog"@,
            Language::TN => "Tswana"@,
            Language::TO => "Tonga"@,
            Language::TR => "Turkish"@,
            Language::TS => "Tsonga"@,
            Language::TT => "Tatar"@,
            Language::TW => "Twi"@,
            Language::TY => "Tahitian"@,
            Language::UG => "Uighur"@,
            Language::UK => "Ukrainian"@,
            Language::UR => "Urdu"@,
            Language::UZ => "Uzbek"@,
            Language::VE => "Venda"@,
            Language::VI => "Vietnamese"@,
            Language::VO => "Volapuk"@,
            Language::WA => "Walloon"@,
            Language::WO => "Wolof"@,
            Language::XH => "Xhosa"@,
            Language::YI => "Yiddish"@,
            Language::YO => "Yoruba"@,
            Language::ZA => "Zhuang"@,
            Language::ZH => "Chinese"@,
            Language::ZU => "Zulu"@,
        }
    }

    /// The canonical code, such as `"ES"`.
    pub fn code(&self) -> (r: &'static str)
        ensures
            r@ == self.code_text(),
    {
        match self {
            Language::AA => {
                proof {
                    reveal_strlit("AA");
                    assert("AA"@ =~= seq!['A', 'A']);
                }
                "AA"
            },
            Language::AB => {
                proof {
                    reveal_strlit("AB");
                    assert("AB"@ =~= seq!['A', 'B']);
                }
                "AB"
            },
            Language::AE => {
                proof {
                    reveal_strlit("AE");
                    assert("AE"@ =~= seq!['A', 'E']);
                }
                "AE"
            },
            Language::AF => {
                proof {
                    reveal_strlit("AF");
                    assert("AF"@ =~= seq!['A', 'F']);
                }
                "AF"
            },
            Language::AK => {
                proof {
                    reveal_strlit("AK");
                    assert("AK"@ =~= seq!['A', 'K']);
                }
                "AK"
            },
            Language::AM => {
                proof {
                    reveal_strlit("AM");
                    assert("AM"@ =~= seq!['A', 'M']);
                }
                "AM"
            },
            Language::AN => {
                proof {
                    reveal_strlit("AN");
                    assert("AN"@ =~= seq!['A', 'N']);
                }
                "AN"
            },
            Language::AR => {
                proof {
                    reveal_strlit("AR");
                    assert("AR"@ =~= seq!['A', 'R']);
                }
                "AR"
            },
            Language::AS => {
                proof {
                    reveal_strlit("AS");
                    assert("AS"@ =~= seq!['A', 'S']);
                }
                "AS"
            },
            Language::AV => {
                proof {
                    reveal_strlit("AV");
                    assert("AV"@ =~= seq!['A', 'V']);
                }
                "AV"
            },
            Language::AY => {
                proof {
                    reveal_strlit("AY");
                    assert("AY"@ =~= seq!['A', 'Y']);
                }
                "AY"
            },
            Language::AZ => {
                proof {
                    reveal_strlit("AZ");
                    assert("AZ"@ =~= seq!['A', 'Z']);
                }
                "AZ"
            },
            Language::BA => {
                proof {
                    reveal_strlit("BA");
                    assert("BA"@ =~= seq!['B', 'A']);
                }
                "BA"
            },
            Language::BE => {
                proof {
                    reveal_strlit("BE");
                    assert("BE"@ =~= seq!['B', 'E']);
                }
                "BE"
            },
            Language::BG => {
                proof {
                    reveal_strlit("BG");
                    assert("BG"@ =~= seq!['B', 'G']);
                }
                "BG"
            },
            Language::BH => {
                proof {
                    reveal_strlit("BH");
                    assert("BH"@ =~= seq!['B', 'H']);
                }
                "BH"
            },
            Language::BI => {
                proof {
                    reveal_strlit("BI");
                    assert("BI"@ =~= seq!['B', 'I']);
                }
                "BI"
            },
            Language::BM => {
                proof {
                    reveal_strlit("BM");
                    assert("BM"@ =~= seq!['B', 'M']);
                }
                "BM"
            },
            Language::BN => {
                proof {
                    reveal_strlit("BN");
                    assert("BN"@ =~= seq!['B', 'N']);
                }
                "BN"
            },
            Language::BO => {
                proof {
                    reveal_strlit("BO");
                    assert("BO"@ =~= seq!['B', 'O']);
                }
                "BO"
            },
            Language::BR => {
                proof {
                    reveal_strlit("BR");
                    assert("BR"@ =~= seq!['B', 'R']);
                }
                "BR"
            },
            Language::BS => {
                proof {
                    reveal_strlit("BS");
                    assert("BS"@ =~= seq!['B', 'S']);
                }
                "BS"
            },
            Language::CA => {
                proof {
                    reveal_strlit("CA");
                    assert("CA"@ =~= seq!['C', 'A']);
                }
                "CA"
            },
            Language::CE => {
                proof {
                    reveal_strlit("CE");
                    assert("CE"@ =~= seq!['C', 'E']);
                }
                "CE"
            },
            Language::CH => {
                proof {
                    reveal_strlit("CH");
                    assert("CH"@ =~= seq!['C', 'H']);
                }
                "CH"
            },
            Language::CO => {
                proof {
                    reveal_strlit("CO");
                    assert("CO"@ =~= seq!['C', 'O']);
                }
                "CO"
            },
            Language::CR => {
                proof {
                    reveal_strlit("CR");
                    assert("CR"@ =~= seq!['C', 'R']);
                }
                "CR"
            },
            Language::CS => {
                proof {
                    reveal_strlit("CS");
                    assert("CS"@ =~= seq!['C', 'S']);
                }
                "CS"
            },
            Language::CU => {
                proof {
                    reveal_strlit("CU");
                    assert("CU"@ =~= seq!['C', 'U']);
                }
                "CU"
            },
            Language::CV => {
                proof {
                    reveal_strlit("CV");
                    assert("CV"@ =~= seq!['C', 'V']);
                }
                "CV"
            },
            Language::CY => {
                proof {
                    reveal_strlit("CY");
                    assert("CY"@ =~= seq!['C', 'Y']);
                }
                "CY"
            },
            Language::DA => {
                proof {
                    reveal_strlit("DA");
                    assert("DA"@ =~= seq!['D', 'A']);
                }
                "DA"
            },
            Language::DE => {
                proof {
                    reveal_strlit("DE");
                    assert("DE"@ =~= seq!['D', 'E']);
                }
                "DE"
            },
            Language::DV => {
                proof {
                    reveal_strlit("DV");
                    assert("DV"@ =~= seq!['D', 'V']);
                }
                "DV"
            },
            Language::DZ => {
                proof {
                    reveal_strlit("DZ");
                    assert("DZ"@ =~= seq!['D', 'Z']);
                }
                "DZ"
            },
            Language::EE => {
                proof {
                    reveal_strlit("EE");
                    assert("EE"@ =~= seq!['E', 'E']);
                }
                "EE"
            },
            Language::EL => {
                proof {
                    reveal_strlit("EL");
                    assert("EL"@ =~= seq!['E', 'L']);
                }
                "EL"
            },
            Language::EN => {
                proof {
                    reveal_strlit("EN");
                    assert("EN"@ =~= seq!['E', 'N']);
                }
                "EN"
            },
            Language::EO => {
                proof {
                    reveal_strlit("EO");
                    assert("EO"@ =~= seq!['E', 'O']);
                }
                "EO"
            },
            Language::ES => {
                proof {
                    reveal_strlit("ES");
                    assert("ES"@ =~= seq!['E', 'S']);
                }
                "ES"
            },
            Language::ET => {
                proof {
                    reveal_strlit("ET");
                    assert("ET"@ =~= seq!['E', 'T']);
                }
                "ET"
            },
            Language::EU => {
                proof {
                    reveal_strlit("EU");
                    assert("EU"@ =~= seq!['E', 'U']);
                }
                "EU"
            },
            Language::FA => {
                proof {
                    reveal_strlit("FA");
                    assert("FA"@ =~= seq!['F', 'A']);
                }
                "FA"
            },
            Language::FF => {
                proof {
                    reveal_strlit("FF");
                    assert("FF"@ =~= seq!['F', 'F']);
                }
                "FF"
            },
            Language::FI => {
                proof {
                    reveal_strlit("FI");
                    assert("FI"@ =~= seq!['F', 'I']);
                }
                "FI"
            },
            Language::FJ => {
                proof {
                    reveal_strlit("FJ");
                    assert("FJ"@ =~= seq!['F', 'J']);
                }
                "FJ"
            },
            Language::FO => {
                proof {
                    reveal_strlit("FO");
                    assert("FO"@ =~= seq!['F', 'O']);
                }
                "FO"
            },
            Language::FR => {
                proof {
                    reveal_strlit("FR");
                    assert("FR"@ =~= seq!['F', 'R']);
                }
                "FR"
            },
            Language::FY => {
                proof {
                    reveal_strlit("FY");
                    assert("FY"@ =~= seq!['F', 'Y']);
                }
                "FY"
            },
            Language::GA => {
                proof {
                    reveal_strlit("GA");
                    assert("GA"@ =~= seq!['G', 'A']);
                }
                "GA"
            },
            Language::GD => {
                proof {
                    reveal_strlit("GD");
                    assert("GD"@ =~= seq!['G', 'D']);
                }
                "GD"
            },
            Language::GL => {
                proof {
                    reveal_strlit("GL");
                    assert("GL"@ =~= seq!['G', 'L']);
                }
                "GL"
            },
            Language::GN => {
                proof {
                    reveal_strlit("GN");
                    assert("GN"@ =~= seq!['G', 'N']);
                }
                "GN"
            },
            Language::GU => {
                proof {
                    reveal_strlit("GU");
                    assert("GU"@ =~= seq!['G', 'U']);
                }
                "GU"
            },
            Language::GV => {
                proof {
                    reveal_strlit("GV");
                    assert("GV"@ =~= seq!['G', 'V']);
                }
                "GV"
            },
            Language::HA => {
                proof {
                    reveal_strlit("HA");
                    assert("HA"@ =~= seq!['H', 'A']);
                }
                "HA"
            },
            Language::HE => {
                proof {
                    reveal_strlit("HE");
                    assert("HE"@ =~= seq!['H', 'E']);
                }
                "HE"
            },
            Language::HI => {
                proof {
                    reveal_strlit("HI");
                    assert("HI"@ =~= seq!['H', 'I']);
                }
                "HI"
            },
            Language::HO => {
                proof {
                    reveal_strlit("HO");
                    assert("HO"@ =~= seq!['H', 'O']);
                }
                "HO"
            },
            Language::HR => {
                proof {
                    reveal_strlit("HR");
                    assert("HR"@ =~= seq!['H', 'R']);
                }
                "HR"
            },
            Language::HT => {
                proof {
                    reveal_strlit("HT");
                    assert("HT"@ =~= seq!['H', 'T']);
                }
                "HT"
            },
            Language::HU => {
                proof {
                    reveal_strlit("HU");
                    assert("HU"@ =~= seq!['H', 'U']);
                }
                "HU"
            },
            Language::HY => {
                proof {
                    reveal_strlit("HY");
                    assert("HY"@ =~= seq!['H', 'Y']);
                }
                "HY"
            },
            Language::HZ => {
                proof {
                    reveal_strlit("HZ");
                    assert("HZ"@ =~= seq!['H', 'Z']);
                }
                "HZ"
            },
            Language::IA => {
                proof {
                    reveal_strlit("IA");
                    assert("IA"@ =~= seq!['I', 'A']);
                }
                "IA"
            },
            Language::ID => {
                proof {
                    reveal_strlit("ID");
                    assert("ID"@ =~= seq!['I', 'D']);
                }
                "ID"
            },
            Language::IE => {
                proof {
                    reveal_strlit("IE");
                    assert("IE"@ =~= seq!['I', 'E']);
                }
                "IE"
            },
            Language::IG => {
                proof {
                    reveal_strlit("IG");
                    assert("IG"@ =~= seq!['I', 'G']);
                }
                "IG"
            },
            Language::II => {
                proof {
                    reveal_strlit("II");
                    assert("II"@ =~= seq!['I', 'I']);
                }
                "II"
            },
            Language::IK => {
                proof {
                    reveal_strlit("IK");
                    assert("IK"@ =~= seq!['I', 'K']);
                }
                "IK"
            },
            Language::IO => {
                proof {
                    reveal_strlit("IO");
                    assert("IO"@ =~= seq!['I', 'O']);
                }
                "IO"
            },
            Language::IS => {
                proof {
                    reveal_strlit("IS");
                    assert("IS"@ =~= seq!['I', 'S']);
                }
                "IS"
            },
            Language::IT => {
                proof {
                    reveal_strlit("IT");
                    assert("IT"@ =~= seq!['I', 'T']);
                }
                "IT"
            },
            Language::IU => {
                proof {
                    reveal_strlit("IU");
                    assert("IU"@ =~= seq!['I', 'U']);
                }
                "IU"
            },
            Language::JA => {
                proof {
                    reveal_strlit("JA");
                    assert("JA"@ =~= seq!['J', 'A']);
                }
                "JA"
            },
            Language::JV => {
                proof {
                    reveal_strlit("JV");
                    assert("JV"@ =~= seq!['J', 'V']);
                }
                "JV"
            },
            Language::KA => {
                proof {
                    reveal_strlit("KA");
                    assert("KA"@ =~= seq!['K', 'A']);
                }
                "KA"
            },
            Language::KG => {
                proof {
                    reveal_strlit("KG");
                    assert("KG"@ =~= seq!['K', 'G']);
                }
                "KG"
            },
            Language::KI => {
                proof {
                    reveal_strlit("KI");
                    assert("KI"@ =~= seq!['K', 'I']);
                }
                "KI"
            },
            Language::KJ => {
                proof {
                    reveal_strlit("KJ");
                    assert("KJ"@ =~= seq!['K', 'J']);
                }
                "KJ"
            },
            Language::KK => {
                proof {
                    reveal_strlit("KK");
                    assert("KK"@ =~= seq!['K', 'K']);
                }
                "KK"
            },
            Language::KL => {
                proof {
                    reveal_strlit("KL");
                    assert("KL"@ =~= seq!['K', 'L']);
                }
                "KL"
            },
            Language::KM => {
                proof {
                    reveal_strlit("KM");
                    assert("KM"@ =~= seq!['K', 'M']);
                }
                "KM"
            },
            Language::KN => {
                proof {
                    reveal_strlit("KN");
                    assert("KN"@ =~= seq!['K', 'N']);
                }
                "KN"
            },
            Language::KO => {
                proof {
                    reveal_strlit("KO");
                    assert("KO"@ =~= seq!['K', 'O']);
                }
                "KO"
            },
            Language::KR => {
                proof {
                    reveal_strlit("KR");
                    assert("KR"@ =~= seq!['K', 'R']);
                }
                "KR"
            },
            Language::KS => {
                proof {
                    reveal_strlit("KS");
                    assert("KS"@ =~= seq!['K', 'S']);
                }
                "KS"
            },
            Language::KU => {
                proof {
                    reveal_strlit("KU");
                    assert("KU"@ =~= seq!['K', 'U']);
                }
                "KU"
            },
            Language::KV => {
                proof {
                    reveal_strlit("KV");
                    assert("KV"@ =~= seq!['K', 'V']);
                }
                "KV"
            },
            Language::KW => {
                proof {
                    reveal_strlit("KW");
                    assert("KW"@ =~= seq!['K', 'W']);
                }
                "KW"
            },
            Language::KY => {
                proof {
                    reveal_strlit("KY");
                    assert("KY"@ =~= seq!['K', 'Y']);
                }
                "KY"
            },
            Language::LA => {
                proof {
                    reveal_strlit("LA");
                    assert("LA"@ =~= seq!['L', 'A']);
                }
                "LA"
            },
            Language::LB => {
                proof {
                    reveal_strlit("LB");
                    assert("LB"@ =~= seq!['L', 'B']);
                }
                "LB"
            },
            Language::LG => {
                proof {
                    reveal_strlit("LG");
                    assert("LG"@ =~= seq!['L', 'G']);
                }
                "LG"
            },
            Language::LI => {
                proof {
                    reveal_strlit("LI");
                    assert("LI"@ =~= seq!['L', 'I']);
                }
                "LI"
            },
            Language::LN => {
                proof {
                    reveal_strlit("LN");
                    assert("LN"@ =~= seq!['L', 'N']);
                }
                "LN"
            },
            Language::LO => {
                proof {
                    reveal_strlit("LO");
                    assert("LO"@ =~= seq!['L', 'O']);
                }
                "LO"
            },
            Language::LT => {
                proof {
                    reveal_strlit("LT");
                    assert("LT"@ =~= seq!['L', 'T']);
                }
                "LT"
            },
            Language::LU => {
                proof {
                    reveal_strlit("LU");
                    assert("LU"@ =~= seq!['L', 'U']);
                }
                "LU"
            },
            Language::LV => {
                proof {
                    reveal_strlit("LV");
                    assert("LV"@ =~= seq!['L', 'V']);
                }
                "LV"
            },
            Language::MG => {
                proof {
                    reveal_strlit("MG");
                    assert("MG"@ =~= seq!['M', 'G']);
                }
                "MG"
            },
            Language::MH => {
                proof {
                    reveal_strlit("MH");
                    assert("MH"@ =~= seq!['M', 'H']);
                }
                "MH"
            },
            Language::MI => {
                proof {
                    reveal_strlit("MI");
                    assert("MI"@ =~= seq!['M', 'I']);
                }
                "MI"
            },
            Language::MK => {
                proof {
                    reveal_strlit("MK");
                    assert("MK"@ =~= seq!['M', 'K']);
                }
                "MK"
            },
            Language::ML => {
                proof {
                    reveal_strlit("ML");
                    assert("ML"@ =~= seq!['M', 'L']);
                }
                "ML"
            },
            Language::MN => {
                proof {
                    reveal_strlit("MN");
                    assert("MN"@ =~= seq!['M', 'N']);
                }
                "MN"
            },
            Language::MR => {
                proof {
                    reveal_strlit("MR");
                    assert("MR"@ =~= seq!['M', 'R']);
                }
                "MR"
            },
            Language::MS => {
                proof {
                    reveal_strlit("MS");
                    assert("MS"@ =~= seq!['M', 'S']);
                }
                "MS"
            },
            Language::MT => {
                proof {
                    reveal_strlit("MT");
                    assert("MT"@ =~= seq!['M', 'T']);
                }
                "MT"
            },
            Language::MY => {
                proof {
                    reveal_strlit("MY");
                    assert("MY"@ =~= seq!['M', 'Y']);
                }
                "MY"
            },
            Language::NA => {
                proof {
                    reveal_strlit("NA");
                    assert("NA"@ =~= seq!['N', 'A']);
                }
                "NA"
            },
            Language::NB => {
                proof {
                    reveal_strlit("NB");
                    assert("NB"@ =~= seq!['N', 'B']);
                }
                "NB"
            },
            Language::ND => {
                proof {
                    reveal_strlit("ND");
                    assert("ND"@ =~= seq!['N', 'D']);
                }
                "ND"
            },
            Language::NE => {
                proof {
                    reveal_strlit("NE");
                    assert("NE"@ =~= seq!['N', 'E']);
                }
                "NE"
            },
            Language::NG => {
                proof {
                    reveal_strlit("NG");
                    assert("NG"@ =~= seq!['N', 'G']);
                }
                "NG"
            },
            Language::NL => {
                proof {
                    reveal_strlit("NL");
                    assert("NL"@ =~= seq!['N', 'L']);
                }
                "NL"
            },
            Language::NN => {
                proof {
                    reveal_strlit("NN");
                    assert("NN"@ =~= seq!['N', 'N']);
                }
                "NN"
            },
            Language::NO => {
                proof {
                    reveal_strlit("NO");
                    assert("NO"@ =~= seq!['N', 'O']);
                }
                "NO"
            },
            Language::NR => {
                proof {
                    reveal_strlit("NR");
                    assert("NR"@ =~= seq!['N', 'R']);
                }
                "NR"
            },
            Language::NV => {
                proof {
                    reveal_strlit("NV");
                    assert("NV"@ =~= seq!['N', 'V']);
                }
                "NV"
            },
            Language::NY => {
                proof {
                    reveal_strlit("NY");
                    assert("NY"@ =~= seq!['N', 'Y']);
                }
                "NY"
            },
            Language::OC => {
                proof {
                    reveal_strlit("OC");
                    assert("OC"@ =~= seq!['O', 'C']);
                }
                "OC"
            },
            Language::OJ => {
                proof {
                    reveal_strlit("OJ");
                    assert("OJ"@ =~= seq!['O', 'J']);
                }
                "OJ"
            },
            Language::OM => {
                proof {
                    reveal_strlit("OM");
                    assert("OM"@ =~= seq!['O', 'M']);
                }
                "OM"
            },
            Language::OR => {
                proof {
                    reveal_strlit("OR");
                    assert("OR"@ =~= seq!['O', 'R']);
                }
                "OR"
            },
            Language::OS => {
                proof {
                    reveal_strlit("OS");
                    assert("OS"@ =~= seq!['O', 'S']);
                }
                "OS"
            },
            Language::PA => {
                proof {
                    reveal_strlit("PA");
                    assert("PA"@ =~= seq!['P', 'A']);
                }
                "PA"
            },
            Language::PI => {
                proof {
                    reveal_strlit("PI");
                    assert("PI"@ =~= seq!['P', 'I']);
                }
                "PI"
            },
            Language::PL => {
                proof {
                    reveal_strlit("PL");
                    assert("PL"@ =~= seq!['P', 'L']);
                }
                "PL"
            },
            Language::PS => {
                proof {
                    reveal_strlit("PS");
                    assert("PS"@ =~= seq!['P', 'S']);
                }
                "PS"
            },
            Language::PT => {
                proof {
                    reveal_strlit("PT");
                    assert("PT"@ =~= seq!['P', 'T']);
                }
                "PT"
            },
            Language::QU => {
                proof {
                    reveal_strlit("QU");
                    assert("QU"@ =~= seq!['Q', 'U']);
                }
                "QU"
            },
            Language::RM => {
                proof {
                    reveal_strlit("RM");
                    assert("RM"@ =~= seq!['R', 'M']);
                }
                "RM"
            },
            Language::RN => {
                proof {
                    reveal_strlit("RN");
                    assert("RN"@ =~= seq!['R', 'N']);
                }
                "RN"
            },
            Language::RO => {
                proof {
                    reveal_strlit("RO");
                    assert("RO"@ =~= seq!['R', 'O']);
                }
                "RO"
            },
            Language::RU => {
                proof {
                    reveal_strlit("RU");
                    assert("RU"@ =~= seq!['R', 'U']);
                }
                "RU"
            },
            Language::RW => {
                proof {
                    reveal_strlit("RW");
                    assert("RW"@ =~= seq!['R', 'W']);
                }
                "RW"
            },
            Language::SA => {
                proof {
                    reveal_strlit("SA");
                    assert("SA"@ =~= seq!['S', 'A']);
                }
                "SA"
            },
            Language::SC => {
                proof {
                    reveal_strlit("SC");
                    assert("SC"@ =~= seq!['S', 'C']);
                }
                "SC"
            },
            Language::SD => {
                proof {
                    reveal_strlit("SD");
                    assert("SD"@ =~= seq!['S', 'D']);
                }
                "SD"
            },
            Language::SE => {
                proof {
                    reveal_strlit("SE");
                    assert("SE"@ =~= seq!['S', 'E']);
                }
                "SE"
            },
            Language::SG => {
                proof {
                    reveal_strlit("SG");
                    assert("SG"@ =~= seq!['S', 'G']);
                }
                "SG"
            },
            Language::SI => {
                proof {
                    reveal_strlit("SI");
                    assert("SI"@ =~= seq!['S', 'I']);
                }
                "SI"
            },
            Language::SK => {
                proof {
                    reveal_strlit("SK");
                    assert("SK"@ =~= seq!['S', 'K']);
                }
                "SK"
            },
            Language::SL => {
                proof {
                    reveal_strlit("SL");
                    assert("SL"@ =~= seq!['S', 'L']);
                }
                "SL"
            },
            Language::SM => {
                proof {
                    reveal_strlit("SM");
                    assert("SM"@ =~= seq!['S', 'M']);
                }
                "SM"
            },
            Language::SN => {
                proof {
                    reveal_strlit("SN");
                    assert("SN"@ =~= seq!['S', 'N']);
                }
                "SN"
            },
            Language::SO => {
                proof {
                    reveal_strlit("SO");
                    assert("SO"@ =~= seq!['S', 'O']);
                }
                "SO"
            },
            Language::SQ => {
                proof {
                    reveal_strlit("SQ");
                    assert("SQ"@ =~= seq!['S', 'Q']);
                }
                "SQ"
            },
            Language::SR => {
                proof {
                    reveal_strlit("SR");
                    assert("SR"@ =~= seq!['S', 'R']);
                }
                "SR"
            },
            Language::SS => {
                proof {
                    reveal_strlit("SS");
                    assert("SS"@ =~= seq!['S', 'S']);
                }
                "SS"
            },
            Language::ST => {
                proof {
                    reveal_strlit("ST");
                    assert("ST"@ =~= seq!['S', 'T']);
                }
                "ST"
            },
            Language::SU => {
                proof {
                    reveal_strlit("SU");
                    assert("SU"@ =~= seq!['S', 'U']);
                }
                "SU"
            },
            Language::SV => {
                proof {
                    reveal_strlit("SV");
                    assert("SV"@ =~= seq!['S', 'V']);
                }
                "SV"
            },
            Language::SW => {
                proof {
                    reveal_strlit("SW");
                    assert("SW"@ =~= seq!['S', 'W']);
                }
                "SW"
            },
            Language::TA => {
                proof {
                    reveal_strlit("TA");
                    assert("TA"@ =~= seq!['T', 'A']);
                }
                "TA"
            },
            Language::TE => {
                proof {
                    reveal_strlit("TE");
                    assert("TE"@ =~= seq!['T', 'E']);
                }
                "TE"
            },
            Language::TG => {
                proof {
                    reveal_strlit("TG");
                    assert("TG"@ =~= seq!['T', 'G']);
                }
                "TG"
            },
            Language::TH => {
                proof {
                    reveal_strlit("TH");
                    assert("TH"@ =~= seq!['T', 'H']);
                }
                "TH"
            },
            Language::TI => {
                proof {
                    reveal_strlit("TI");
                    assert("TI"@ =~= seq!['T', 'I']);
                }
                "TI"
            },
            Language::TK => {
                proof {
                    reveal_strlit("TK");
                    assert("TK"@ =~= seq!['T', 'K']);
                }
                "TK"
            },
            Language::TL => {
                proof {
                    reveal_strlit("TL");
                    assert("TL"@ =~= seq!['T', 'L']);
                }
                "TL"
            },
            Language::TN => {
                proof {
                    reveal_strlit("TN");
                    assert("TN"@ =~= seq!['T', 'N']);
                }
                "TN"
            },
            Language::TO => {
                proof {
                    reveal_strlit("TO");
                    assert("TO"@ =~= seq!['T', 'O']);
                }
                "TO"
            },
            Language::TR => {
                proof {
                    reveal_strlit("TR");
                    assert("TR"@ =~= seq!['T', 'R']);
                }
                "TR"
            },
            Language::TS => {
                proof {
                    reveal_strlit("TS");
                    assert("TS"@ =~= seq!['T', 'S']);
                }
                "TS"
            },
            Language::TT => {
                proof {
                    reveal_strlit("TT");
                    assert("TT"@ =~= seq!['T', 'T']);
                }
                "TT"
            },
            Language::TW => {
                proof {
                    reveal_strlit("TW");
                    assert("TW"@ =~= seq!['T', 'W']);
                }
                "TW"
            },
            Language::TY => {
                proof {
                    reveal_strlit("TY");
                    assert("TY"@ =~= seq!['T', 'Y']);
                }
                "TY"
            },
            Language::UG => {
                proof {
                    reveal_strlit("UG");
                    assert("UG"@ =~= seq!['U', 'G']);
                }
                "UG"
            },
            Language::UK => {
                proof {
                    reveal_strlit("UK");
                    assert("UK"@ =~= seq!['U', 'K']);
                }
                "UK"
            },
            Language::UR => {
                proof {
                    reveal_strlit("UR");
                    assert("UR"@ =~= seq!['U', 'R']);
                }
                "UR"
            },
            Language::UZ => {
                proof {
                    reveal_strlit("UZ");
                    assert("UZ"@ =~= seq!['U', 'Z']);
                }
                "UZ"
            },
            Language::VE => {
                proof {
                    reveal_strlit("VE");
                    assert("VE"@ =~= seq!['V', 'E']);
                }
                "VE"
            },
            Language::VI => {
                proof {
                    reveal_strlit("VI");
                    assert("VI"@ =~= seq!['V', 'I']);
                }
                "VI"
            },
            Language::VO => {
                proof {
                    reveal_strlit("VO");
                    assert("VO"@ =~= seq!['V', 'O']);
                }
                "VO"
            },
            Language::WA => {
                proof {
                    reveal_strlit("WA");
                    assert("WA"@ =~= seq!['W', 'A']);
                }
                "WA"
            },
            Language::WO => {
                proof {
                    reveal_strlit("WO");
                    assert("WO"@ =~= seq!['W', 'O']);
                }
                "WO"
            },
            Language::XH => {
                proof {
                    reveal_strlit("XH");
                    assert("XH"@ =~= seq!['X', 'H']);
                }
                "XH"
            },
            Language::YI => {
                proof {
                    reveal_strlit("YI");
                    assert("YI"@ =~= seq!['Y', 'I']);
                }
                "YI"
            },
            Language::YO => {
                proof {
                    reveal_strlit("YO");
                    assert("YO"@ =~= seq!['Y', 'O']);
                }
                "YO"
            },
            Language::ZA => {
                proof {
                    reveal_strlit("ZA");
                    assert("ZA"@ =~= seq!['Z', 'A']);
                }
                "ZA"
            },
            Language::ZH => {
                proof {
                    reveal_strlit("ZH");
                    assert("ZH"@ =~= seq!['Z', 'H']);
                }
                "ZH"
            },
            Language::ZU => {
                proof {
                    reveal_strlit("ZU");
                    assert("ZU"@ =~= seq!['Z', 'U']);
                }
                "ZU"
            },
        }
    }

    /// The display form, such as `"Spanish"`.
    pub fn name(&self) -> (r: &'static str)
        ensures
            r@ == self.name_text(),
    {
        match self {
            Language::AA => "Afar",
            Language::AB => "Abkhazian",
            Language::AE => "Avestan",
            Language::AF => "Afrikaans",
            Language::AK => "Akan",
            Language::AM => "Amharic",
            Language::AN => "Aragonese",
            Language::AR => "Arabic",
            Language::AS => "Assamese",
            Language::AV => "Avaric",
            Language::AY => "Aymara",
            Language::AZ => "Azerbaijani",
            Language::BA => "Bashkir",
            Language::BE => "Belarusian",
            Language::BG => "Bulgarian",
            Language::BH => "Bihari",
            Language::BI => "Bislama",
            Language::BM => "Bambara",
            Language::BN => "Bengali",
            Language::BO => "Tibetan",
            Language::BR => "Breton",
            Language::BS => "Bosnian",
            Language::CA => "Catalan",
            Language::CE => "Chechen",
            Language::CH => "Chamorro",
            Language::CO => "Corsican",
            Language::CR => "Cree",
            Language::CS => "Czech",
            Language::CU => "Church Slavic",
            Language::CV => "Chuvash",
            Language::CY => "Welsh",
            Language::DA => "Danish",
            Language::DE => "German",
            Language::DV => "Divehi",
            Language::DZ => "Dzongkha",
            Language::EE => "Ewe",
            Language::EL => "Greek",
            Language::EN => "English",
            Language::EO => "Esperanto",
            Language::ES => "Spanish",
            Language::ET => "Estonian",
            Language::EU => "Basque",
            Language::FA => "Persian",
            Language::FF => "Fulah",
            Language::FI => "Finnish",
            Language::FJ => "Fijian",
            Language::FO => "Faroese",
            Language::FR => "French",
            Language::FY => "Western Frisian",
            Language::GA => "Irish",
            Language::GD => "Scottish Gaelic",
            Language::GL => "Galician",
            Language::GN => "Guarani",
            Language::GU => "Gujarati",
            Language::GV => "Manx",
            Language::HA => "Hausa",
            Language::HE => "Hebrew",
            Language::HI => "Hindi",
            Language::HO => "Hiri Motu",
            Language::HR => "Croatian",
            Language::HT => "Haitian",
            Language::HU => "Hungarian",
            Language::HY => "Armenian",
            Language::HZ => "Herero",
            Language::IA => "Interlingua",
            Language::ID => "Indonesian",
            Language::IE => "Interlingue",
            Language::IG => "Igbo",
            Language::II => "Sichuan Yi",
            Language::IK => "Inupiaq",
            Language::IO => "Ido",
            Language::IS => "Icelandic",
            Language::IT => "Italian",
            Language::IU => "Inuktitut",
            Language::JA => "Japanese",
            Language::JV => "Javanese",
            Language::KA => "Georgian",
            Language::KG => "Kongo",
            Language::KI => "Kikuyu",
            Language::KJ => "Kuanyama",
            Language::KK => "Kazakh",
            Language::KL => "Kalaallisut",
            Language::KM => "Central Khmer",
            Language::KN => "Kannada",
            Language::KO => "Korean",
            Language::KR => "Kanuri",
            Language::KS => "Kashmiri",
            Language::KU => "Kurdish",
            Language::KV => "Komi",
            Language::KW => "Cornish",
            Language::KY => "Kirghiz",
            Language::LA => "Latin",
            Language::LB => "Luxembourgish",
            Language::LG => "Ganda",
            Language::LI => "Limburgan",
            Language::LN => "Lingala",
            Language::LO => "Lao",
            Language::LT => "Lithuanian",
            Language::LU => "Luba-Katanga",
            Language::LV => "Latvian",
            Language::MG => "Malagasy",
            Language::MH => "Marshallese",
            Language::MI => "Maori",
            Language::MK => "Macedonian",
            Language::ML => "Malayalam",
            Language::MN => "Mongolian",
            Language::MR => "Marathi",
            Language::MS => "Malay",
            Language::MT => "Maltese",
            Language::MY => "Burmese",
            Language::NA => "Nauru",
            Language::NB => "Norwegian Bokmal",
            Language::ND => "North Ndebele",
            Language::NE => "Nepali",
            Language::NG => "Ndonga",
            Language::NL => "Dutch",
            Language::NN => "Norwegian Nynorsk",
            Language::NO => "Norwegian",
            Language::NR => "South Ndebele",
            Language::NV => "Navajo",
            Language::NY => "Chichewa",
            Language::OC => "Occitan",
            Language::OJ => "Ojibwa",
            Language::OM => "Oromo",
            Language::OR => "Oriya",
            Language::OS => "Ossetian",
            Language::PA => "Punjabi",
            Language::PI => "Pali",
            Language::PL => "Polish",
            Language::PS => "Pashto",
            Language::PT => "Portuguese",
            Language::QU => "Quechua",
            Language::RM => "Romansh",
            Language::RN => "Rundi",
            Language::RO => "Romanian",
            Language::RU => "Russian",
            Language::RW => "Kinyarwanda",
            Language::SA => "Sanskrit",
            Language::SC => "Sardinian",
            Language::SD => "Sindhi",
            Language::SE => "Northern Sami",
            Language::SG => "Sango",
            Language::SI => "Sinhala",
            Language::SK => "Slovak",
            Language::SL => "Slovenian",
            Language::SM => "Samoan",
            Language::SN => "Shona",
            Language::SO => "Somali",
            Language::SQ => "Albanian",
            Language::SR => "Serbian",
            Language::SS => "Swati",
            Language::ST => "Southern Sotho",
            Language::SU => "Sundanese",
            Language::SV => "Swedish",
            Language::SW => "Swahili",
            Language::TA => "Tamil",
            Language::TE => "Telugu",
            Language::TG => "Tajik",
            Language::TH => "Thai",
            Language::TI => "Tigrinya",
            Language::TK => "Turkmen",
            Language::TL => "Tagalog",
            Language::TN => "Tswana",
            Language::TO => "Tonga",
            Language::TR => "Turkish",
            Language::TS => "Tsonga",
            Language::TT => "Tatar",
            Language::TW => "Twi",
            Language::TY => "Tahitian",
            Language::UG => "Uighur",
            Language::UK => "Ukrainian",
            Language::UR => "Urdu",
            Language::UZ => "Uzbek",
            Language::VE => "Venda",
            Language::VI => "Vietnamese",
            Language::VO => "Volapuk",
            Language::WA => "Walloon",
            Language::WO => "Wolof",
            Language::XH => "Xhosa",
            Language::YI => "Yiddish",
            Language::YO => "Yoruba",
            Language::ZA => "Zhuang",
            Language::ZH => "Chinese",
            Language::ZU => "Zulu",
        }
    }

    /// The language whose canonical code is the two given upper-case
    /// letters, if there is one.
    pub fn from_letters(first: char, second: char) -> (r: Option<Language>)
        ensures
            match r {
                Some(l) => l.letters() == (first, second),
                None => forall|l: Language| l.letters() != (first, second),
            },
    {
        match (first, second) {
            ('A', 'A') => Some(Language::AA),
            ('A', 'B') => Some(Language::AB),
            ('A', 'E') => Some(Language::AE),
            ('A', 'F') => Some(Language::AF),
            ('A', 'K') => Some(Language::AK),
            ('A', 'M') => Some(Language::AM),
            ('A', 'N') => Some(Language::AN),
            ('A', 'R') => Some(Language::AR),
            ('A', 'S') => Some(Language::AS),
            ('A', 'V') => Some(Language::AV),
            ('A', 'Y') => Some(Language::AY),
            ('A', 'Z') => Some(Language::AZ),
            ('B', 'A') => Some(Language::BA),
            ('B', 'E') => Some(Language::BE),
            ('B', 'G') => Some(Language::BG),
            ('B', 'H') => Some(Language::BH),
            ('B', 'I') => Some(Language::BI),
            ('B', 'M') => Some(Language::BM),
            ('B', 'N') => Some(Language::BN),
            ('B', 'O') => Some(Language::BO),
            ('B', 'R') => Some(Language::BR),
            ('B', 'S') => Some(Language::BS),
            ('C', 'A') => Some(Language::CA),
            ('C', 'E') => Some(Language::CE),
            ('C', 'H') => Some(Language::CH),
            ('C', 'O') => Some(Language::CO),
            ('C', 'R') => Some(Language::CR),
            ('C', 'S') => Some(Language::CS),
            ('C', 'U') => Some(Language::CU),
            ('C', 'V') => Some(Language::CV),
            ('C', 'Y') => Some(Language::CY),
            ('D', 'A') => Some(Language::DA),
            ('D', 'E') => Some(Language::DE),
            ('D', 'V') => Some(Language::DV),
            ('D', 'Z') => Some(Language::DZ),
            ('E', 'E') => Some(Language::EE),
            ('E', 'L') => Some(Language::EL),
            ('E', 'N') => Some(Language::EN),
            ('E', 'O') => Some(Language::EO),
            ('E', 'S') => Some(Language::ES),
            ('E', 'T') => Some(Language::ET),
            ('E', 'U') => Some(Language::EU),
            ('F', 'A') => Some(Language::FA),
            ('F', 'F') => Some(Language::FF),
            ('F', 'I') => Some(Language::FI),
            ('F', 'J') => Some(Language::FJ),
            ('F', 'O') => Some(Language::FO),
            ('F', 'R') => Some(Language::FR),
            ('F', 'Y') => Some(Language::FY),
            ('G', 'A') => Some(Language::GA),
            ('G', 'D') => Some(Language::GD),
            ('G', 'L') => Some(Language::GL),
            ('G', 'N') => Some(Language::GN),
            ('G', 'U') => Some(Language::GU),
            ('G', 'V') => Some(Language::GV),
            ('H', 'A') => Some(Language::HA),
            ('H', 'E') => Some(Language::HE),
            ('H', 'I') => Some(Language::HI),
            ('H', 'O') => Some(Language::HO),
            ('H', 'R') => Some(Language::HR),
            ('H', 'T') => Some(Language::HT),
            ('H', 'U') => Some(Language::HU),
            ('H', 'Y') => Some(Language::HY),
            ('H', 'Z') => Some(Language::HZ),
            ('I', 'A') => Some(Language::IA),
            ('I', 'D') => Some(Language::ID),
            ('I', 'E') => Some(Language::IE),
            ('I', 'G') => Some(Language::IG),
            ('I', 'I') => Some(Language::II),
            ('I', 'K') => Some(Language::IK),
            ('I', 'O') => Some(Language::IO),
            ('I', 'S') => Some(Language::IS),
            ('I', 'T') => Some(Language::IT),
            ('I', 'U') => Some(Language::IU),
            ('J', 'A') => Some(Language::JA),
            ('J', 'V') => Some(Language::JV),
            ('K', 'A') => Some(Language::KA),
            ('K', 'G') => Some(Language::KG),
            ('K', 'I') => Some(Language::KI),
            ('K', 'J') => Some(Language::KJ),
            ('K', 'K') => Some(Language::KK),
            ('K', 'L') => Some(Language::KL),
            ('K', 'M') => Some(Language::KM),
            ('K', 'N') => Some(Language::KN),
            ('K', 'O') => Some(Language::KO),
            ('K', 'R') => Some(Language::KR),
            ('K', 'S') => Some(Language::KS),
            ('K', 'U') => Some(Language::KU),
            ('K', 'V') => Some(Language::KV),
            ('K', 'W') => Some(Language::KW),
            ('K', 'Y') => Some(Language::KY),
            ('L', 'A') => Some(Language::LA),
            ('L', 'B') => Some(Language::LB),
            ('L', 'G') => Some(Language::LG),
            ('L', 'I') => Some(Language::LI),
            ('L', 'N') => Some(Language::LN),
            ('L', 'O') => Some(Language::LO),
            ('L', 'T') => Some(Language::LT),
            ('L', 'U') => Some(Language::LU),
            ('L', 'V') => Some(Language::LV),
            ('M', 'G') => Some(Language::MG),
            ('M', 'H') => Some(Language::MH),
            ('M', 'I') => Some(Language::MI),
            ('M', 'K') => Some(Language::MK),
            ('M', 'L') => Some(Language::ML),
            ('M', 'N') => Some(Language::MN),
            ('M', 'R') => Some(Language::MR),
            ('M', 'S') => Some(Language::MS),
            ('M', 'T') => Some(Language::MT),
            ('M', 'Y') => Some(Language::MY),
            ('N', 'A') => Some(Language::NA),
            ('N', 'B') => Some(Language::NB),
            ('N', 'D') => Some(Language::ND),
            ('N', 'E') => Some(Language::NE),
            ('N', 'G') => Some(Language::NG),
            ('N', 'L') => Some(Language::NL),
            ('N', 'N') => Some(Language::NN),
            ('N', 'O') => Some(Language::NO),
            ('N', 'R') => Some(Language::NR),
            ('N', 'V') => Some(Language::NV),
            ('N', 'Y') => Some(Language::NY),
            ('O', 'C') => Some(Language::OC),
            ('O', 'J') => Some(Language::OJ),
            ('O', 'M') => Some(Language::OM),
            ('O', 'R') => Some(Language::OR),
            ('O', 'S') => Some(Language::OS),
            ('P', 'A') => Some(Language::PA),
            ('P', 'I') => Some(Language::PI),
            ('P', 'L') => Some(Language::PL),
            ('P', 'S') => Some(Language::PS),
            ('P', 'T') => Some(Language::PT),
            ('Q', 'U') => Some(Language::QU),
            ('R', 'M') => Some(Language::RM),
            ('R', 'N') => Some(Language::RN),
            ('R', 'O') => Some(Language::RO),
            ('R', 'U') => Some(Language::RU),
            ('R', 'W') => Some(Language::RW),
            ('S', 'A') => Some(Language::SA),
            ('S', 'C') => Some(Language::SC),
            ('S', 'D') => Some(Language::SD),
            ('S', 'E') => Some(Language::SE),
            ('S', 'G') => Some(Language::SG),
            ('S', 'I') => Some(Language::SI),
            ('S', 'K') => Some(Language::SK),
            ('S', 'L') => Some(Language::SL),
            ('S', 'M') => Some(Language::SM),
            ('S', 'N') => Some(Language::SN),
            ('S', 'O') => Some(Language::SO),
            ('S', 'Q') => Some(Language::SQ),
            ('S', 'R') => Some(Language::SR),
            ('S', 'S') => Some(Language::SS),
            ('S', 'T') => Some(Language::ST),
            ('S', 'U') => Some(Language::SU),
            ('S', 'V') => Some(Language::SV),
            ('S', 'W') => Some(Language::SW),
            ('T', 'A') => Some(Language::TA),
            ('T', 'E') => Some(Language::TE),
            ('T', 'G') => Some(Language::TG),
            ('T', 'H') => Some(Language::TH),
            ('T', 'I') => Some(Language::TI),
            ('T', 'K') => Some(Language::TK),
            ('T', 'L') => Some(Language::TL),
            ('T', 'N') => Some(Language::TN),
            ('T', 'O') => Some(Language::TO),
            ('T', 'R') => Some(Language::TR),
            ('T', 'S') => Some(Language::TS),
            ('T', 'T') => Some(Language::TT),
            ('T', 'W') => Some(Language::TW),
            ('T', 'Y') => Some(Language::TY),
            ('U', 'G') => Some(Language::UG),
            ('U', 'K') => Some(Language::UK),
            ('U', 'R') => Some(Language::UR),
            ('U', 'Z') => Some(Language::UZ),
            ('V', 'E') => Some(Language::VE),
            ('V', 'I') => Some(Language::VI),
            ('V', 'O') => Some(Language::VO),
            ('W', 'A') => Some(Language::WA),
            ('W', 'O') => Some(Language::WO),
            ('X', 'H') => Some(Language::XH),
            ('Y', 'I') => Some(Language::YI),
            ('Y', 'O') => Some(Language::YO),
            ('Z', 'A') => Some(Language::ZA),
            ('Z', 'H') => Some(Language::ZH),
            ('Z', 'U') => Some(Language::ZU),
            _ => None,
        }
    }

    /// The language that `code` names, if any: the one whose canonical
    /// code is `code` with its letters in upper case.
    pub open spec fn with_code(code: Seq<char>) -> Option<Language> {
        if exists|l: Language| l.code_text() == upper_text(code) {
            Some(choose|l: Language| l.code_text() == upper_text(code))
        } else {
            None
        }
    }

    /// The language with the given code. Letter case is ignored, so `"es"`,
    /// `"Es"` and `"ES"` all name Spanish. Anything that is not the code of
    /// a supported language gives `None`.
    pub fn from_code(code: &str) -> (r: Option<Language>)
        ensures
            r == Language::with_code(code@),
            match r {
                Some(l) => l.code_text() == upper_text(code@),
                None => forall|l: Language| l.code_text() != upper_text(code@),
            },
    {
        let chars = crate::misc::text::chars_of(code);
        if chars.len() != 2 {
            assert forall|l: Language| l.code_text() != upper_text(code@) by {
                assert(l.code_text().len() == 2);
            }
            return None;
        }
        let first = to_ascii_upper(chars[0]);
        let second = to_ascii_upper(chars[1]);
        let found = Language::from_letters(first, second);
        proof {
            let upper = upper_text(code@);
            assert(upper[0] == first && upper[1] == second);
            match found {
                Some(l) => {
                    assert(l.code_text() =~= upper);
                    let other = choose|l: Language| l.code_text() == upper;
                    lemma_code_identifies_language(l, other);
                },
                None => {
                    assert forall|l: Language| l.code_text() != upper by {
                        if l.code_text() == upper {
                            assert(l.code_text()[0] == upper[0]);
                            assert(l.code_text()[1] == upper[1]);
                        }
                    }
                },
            }
        }
        found
    }
}

/// Two languages with the same canonical code are the same language.
pub proof fn lemma_code_identifies_language(a: Language, b: Language)
    requires
        a.code_text() == b.code_text(),
    ensures
        a == b,
{
    assert(a.code_text()[0] == b.code_text()[0]);
    assert(a.code_text()[1] == b.code_text()[1]);
    assert(a.letters() == b.letters());
}

} // verus!
