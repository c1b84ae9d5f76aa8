use phonemic::i18n::{decide_lang, Lang};

#[test]
fn decide_lang_primary_zh_maps_to_zh_cn() {
    assert_eq!(decide_lang("zh"), Lang::ZhCN);
    assert_eq!(decide_lang("zh-CN"), Lang::ZhCN);
    assert_eq!(decide_lang("zh-TW"), Lang::ZhCN);
    assert_eq!(decide_lang("zh_TW"), Lang::ZhCN);
    assert_eq!(decide_lang("ZH-cn"), Lang::ZhCN);
}

#[test]
fn decide_lang_other_primary_falls_back_to_en_us() {
    assert_eq!(decide_lang("en"), Lang::EnUS);
    assert_eq!(decide_lang("en-US"), Lang::EnUS);
    assert_eq!(decide_lang("fr"), Lang::EnUS);
    assert_eq!(decide_lang("ja-JP"), Lang::EnUS);
}

#[test]
fn decide_lang_empty_or_whitespace_falls_back_to_en_us() {
    assert_eq!(decide_lang(""), Lang::EnUS);
    assert_eq!(decide_lang("   "), Lang::EnUS);
    assert_eq!(decide_lang("\t\n"), Lang::EnUS);
}

#[test]
fn decide_lang_trims_and_needs_a_whole_primary_subtag() {
    assert_eq!(decide_lang("  zh-HK  "), Lang::ZhCN);
    assert_eq!(decide_lang("zho"), Lang::EnUS);
    assert_eq!(decide_lang("z"), Lang::EnUS);
}

#[test]
fn decide_lang_is_deterministic() {
    for input in ["zh-CN", "en-US", "fr", "", "zh_TW", "ZH-cn"] {
        assert_eq!(decide_lang(input), decide_lang(input));
    }
}

#[test]
fn lang_from_str_recognises_exact_tags() {
    assert_eq!(Lang::from_str("zh-CN"), Some(Lang::ZhCN));
    assert_eq!(Lang::from_str("ZH-cn"), Some(Lang::ZhCN));
    assert_eq!(Lang::from_str("en-US"), Some(Lang::EnUS));
    assert_eq!(Lang::from_str("EN-us"), Some(Lang::EnUS));
    assert_eq!(Lang::from_str("zh"), None);
    assert_eq!(Lang::from_str("fr"), None);
    assert_eq!(Lang::from_str(""), None);
}

#[test]
fn lang_as_str_round_trips() {
    for lang in [Lang::ZhCN, Lang::EnUS] {
        assert_eq!(Lang::from_str(lang.as_str()), Some(lang));
    }
    assert_eq!(Lang::ZhCN.as_str(), "zh-CN");
    assert_eq!(Lang::EnUS.as_str(), "en-US");
}
