use loco_mcp::i18n::{I18nConfig, I18nContext, Language, Translations};

#[test]
fn mod_test_language_from_str() {
    assert_eq!(Language::from_str("zh"), Language::Zh);
    assert_eq!(Language::from_str("zh-cn"), Language::Zh);
    assert_eq!(Language::from_str("ja"), Language::Ja);
    assert_eq!(Language::from_str("en"), Language::En);
    assert_eq!(Language::from_str("fr"), Language::Custom("fr".to_string()));
}

#[test]
fn detector_test_language_from_str() {
    assert_eq!(Language::from_str("zh"), Language::Zh);
    assert_eq!(Language::from_str("zh-CN"), Language::Zh);
    assert_eq!(Language::from_str("zh-TW"), Language::ZhTw);
    assert_eq!(Language::from_str("ja"), Language::Ja);
    assert_eq!(Language::from_str("en-US"), Language::En);
    assert_eq!(Language::from_str("fr"), Language::Custom("fr".to_string()));
}

#[test]
fn test_language_display() {
    assert_eq!(Language::Zh.as_str(), "zh");
    assert_eq!(Language::Ja.as_str(), "ja");
    assert_eq!(Language::En.as_str(), "en");
}

#[test]
fn test_language_native_name() {
    assert_eq!(Language::Zh.native_name(), "简体中文");
    assert_eq!(Language::Ja.native_name(), "日本語");
    assert_eq!(Language::En.native_name(), "English");
}

#[test]
fn test_language_is_east_asian() {
    assert!(Language::Zh.is_east_asian());
    assert!(Language::ZhTw.is_east_asian());
    assert!(Language::Ja.is_east_asian());
    assert!(!Language::En.is_east_asian());
}

#[test]
fn test_i18n_config_default() {
    let config = I18nConfig::default();
    assert_eq!(config.default_language, Language::En);
    assert!(config.auto_detect);
    assert_eq!(config.lang_param, "lang");
    assert_eq!(config.cookie_name, "app_language");
}

#[test]
fn language_codes_and_names() {
    assert_eq!(Language::from_str("JP"), Language::Ja);
    assert_eq!(Language::from_str("zh-HK"), Language::ZhTw);
    assert_eq!(Language::from_str("DE"), Language::Custom("de".to_string()));
    assert_eq!(Language::ZhTw.as_str(), "zh-tw");
    assert_eq!(Language::Custom("ko".to_string()).as_str(), "ko");
    assert_eq!(Language::Zh.display_name(), "中文(简体)");
    assert_eq!(Language::Custom("ko".to_string()).display_name(), "Unknown");
    assert_eq!(Language::default(), Language::En);
    let c = I18nConfig::default();
    assert_eq!(c.supported_languages, vec![Language::Zh, Language::Ja, Language::En]);
    assert_eq!(c.cookie_max_age, 365 * 24 * 60 * 60);
}

fn store() -> Translations {
    let mut t = Translations::new(I18nConfig::default());
    t.add_translation(&Language::En, "hello".to_string(), "Hello".to_string());
    t.add_translation(&Language::En, "bye".to_string(), "Goodbye".to_string());
    t.add_translation(&Language::Zh, "hello".to_string(), "你好".to_string());
    t.add_translation(&Language::Custom("fr".to_string()), "only_fr".to_string(), "Seulement".to_string());
    t
}

#[test]
fn translation_falls_back_in_order() {
    let t = store();
    assert_eq!(t.translate(&Language::Zh, "hello"), "你好");
    // zh-tw falls back to zh
    assert_eq!(t.translate(&Language::ZhTw, "hello"), "你好");
    // zh falls back to en
    assert_eq!(t.translate(&Language::Zh, "bye"), "Goodbye");
    // ja falls back to en
    assert_eq!(t.translate(&Language::Ja, "bye"), "Goodbye");
    // a custom language falls back to the default
    assert_eq!(t.translate(&Language::Custom("de".to_string()), "bye"), "Goodbye");
    // nothing anywhere: the key itself
    assert_eq!(t.translate(&Language::En, "missing.key"), "missing.key");
    assert_eq!(t.translate(&Language::En, "only_fr"), "only_fr");
}

#[test]
fn translation_store_updates() {
    let mut t = store();
    assert!(t.has_translation(&Language::En, "hello"));
    assert!(!t.has_translation(&Language::Ja, "hello"));
    t.add_translation(&Language::En, "hello".to_string(), "Hi".to_string());
    assert_eq!(t.translate(&Language::En, "hello"), "Hi");
    assert_eq!(t.get_translations(&Language::En).unwrap().len(), 2);
    t.remove_translation(&Language::Zh, "hello");
    assert_eq!(t.translate(&Language::Zh, "hello"), "Hi");
    assert!(t.get_translations(&Language::Ja).is_none());
    assert_eq!(
        t.available_languages(),
        vec![Language::En, Language::Zh, Language::Custom("fr".to_string())]
    );
    assert_eq!(
        t.get_stats(),
        vec![(Language::En, 2), (Language::Zh, 0), (Language::Custom("fr".to_string()), 1)]
    );
    assert_eq!(t.fallback_language(&Language::ZhTw), Some(Language::Zh));
    assert_eq!(t.fallback_language(&Language::En), None);
}

#[test]
fn translation_parameters() {
    let mut t = Translations::new(I18nConfig::default());
    t.add_translation(&Language::En, "greet".to_string(), "Hello, {{name}}! {{name}} has {{n}} new".to_string());
    let params = vec![("name".to_string(), "Ada".to_string()), ("n".to_string(), "3".to_string())];
    assert_eq!(t.translate_with_params(&Language::En, "greet", &params), "Hello, Ada! Ada has 3 new");
    let ctx = I18nContext::new(Language::Ja, t, I18nConfig::default());
    assert_eq!(ctx.t_with_params("greet", &params), "Hello, Ada! Ada has 3 new");
    assert_eq!(ctx.t("greet"), "Hello, {{name}}! {{name}} has {{n}} new");
    assert!(!ctx.has_translation("greet"));
    assert_eq!(ctx.fallback_language(), Some(Language::En));
}

use loco_mcp::i18n::{I18nTemplateContext, LanguageDetector};

#[test]
fn test_language_detector_basic() {
    let config = I18nConfig::default();
    let detector = LanguageDetector::new(config);

    let supported = detector.get_supported_languages();
    assert!(!supported.is_empty());
}

#[test]
fn test_i18n_template_context() {
    let context = I18nTemplateContext::new(Language::Zh, vec![Language::Zh, Language::En]);

    assert_eq!(context.current_language_code, "zh");
    assert_eq!(context.current_language_display, "中文(简体)");
    assert_eq!(context.current_language_native, "简体中文");
    assert!(context.is_east_asian);
}

#[test]
fn test_generate_lang_switch_url() {
    let detector = LanguageDetector::new(I18nConfig::default());

    let url = "https://example.com/page";
    let new_url = detector.generate_lang_switch_url(url, &Language::Ja);
    assert!(new_url.contains("lang=ja"));

    let url_with_params = "https://example.com/page?foo=bar";
    let new_url = detector.generate_lang_switch_url(url_with_params, &Language::Ja);
    assert!(new_url.contains("foo=bar"));
    assert!(new_url.contains("lang=ja"));
}

#[test]
fn test_generate_lang_cookie() {
    let detector = LanguageDetector::new(I18nConfig::default());

    let cookie = detector.generate_lang_cookie(&Language::Zh);
    assert!(cookie.contains("app_language=zh"));
    assert!(cookie.contains("Max-Age="));
}

#[test]
fn switch_url_and_cookie_exact() {
    let detector = LanguageDetector::new(I18nConfig::default());
    assert_eq!(
        detector.generate_lang_switch_url("https://x.org/p", &Language::En),
        "https://x.org/p?lang=en"
    );
    assert_eq!(
        detector.generate_lang_switch_url("https://x.org/p?lang=zh&a=1", &Language::Ja),
        "https://x.org/p?a=1&lang=ja"
    );
    assert_eq!(
        detector.generate_lang_cookie(&Language::Ja),
        "app_language=ja; Max-Age=31536000; Path=/; HttpOnly; SameSite=Lax"
    );
    let mut c = I18nConfig::default();
    c.cookie_max_age = -5;
    c.supported_languages = vec![Language::En];
    let d = LanguageDetector::new(c);
    assert!(d.generate_lang_cookie(&Language::En).contains("Max-Age=-5;"));
    assert!(d.is_language_supported(&Language::En));
    assert!(!d.is_language_supported(&Language::Zh));
    let supported = d.get_supported_languages();
    assert_eq!(supported, vec![(Language::En, "English".to_string(), "English".to_string())]);
}

use loco_mcp::i18n::{I18nMiddleware, I18nMiddlewareBuilder};

#[test]
fn middleware_builder_settings() {
    let m = I18nMiddlewareBuilder::new()
        .default_language(Language::Ja)
        .supported_languages(vec![Language::Ja, Language::En])
        .translations_path("i18n".to_string())
        .auto_detect(false)
        .allow_url_param(false)
        .lang_param("locale".to_string())
        .allow_cookie(false)
        .cookie_name("lang_pref".to_string())
        .cookie_max_age(60)
        .build();
    assert_eq!(m.config.default_language, Language::Ja);
    assert_eq!(m.config.supported_languages, vec![Language::Ja, Language::En]);
    assert_eq!(m.config.translations_path, "i18n");
    assert!(!m.config.auto_detect && !m.config.allow_url_param && !m.config.allow_cookie);
    assert_eq!(m.config.lang_param, "locale");
    assert_eq!(m.detector.generate_lang_cookie(&Language::En), "lang_pref=en; Max-Age=60; Path=/; HttpOnly; SameSite=Lax");
    assert_eq!(m.translations.translate(&Language::En, "k"), "k");
    let d = I18nMiddleware::with_default_config(Translations::new(I18nConfig::default()));
    assert_eq!(d.config.default_language, Language::En);
    assert_eq!(d.detector.generate_lang_switch_url("/p", &Language::Zh), "/p?lang=zh");
}

#[test]
fn language_from_query_and_cookie() {
    let d = LanguageDetector::new(I18nConfig::default());
    assert_eq!(d.detect_from_query("a=1&lang=JA"), Some(Language::Ja));
    assert_eq!(d.detect_from_query("lang=fr&lang=zh-CN"), Some(Language::Zh));
    assert_eq!(d.detect_from_query("lang=fr"), None);
    // A parameter without a value ends the search.
    assert_eq!(d.detect_from_query("flag&lang=ja"), None);
    assert_eq!(d.detect_from_cookie_header("theme=dark; app_language = en "), Some(Language::En));
    assert_eq!(d.detect_from_cookie_header("app_language=de"), None);
    assert_eq!(d.detect_from_cookie_header("session; app_language=ja"), None);
    assert_eq!(d.detect_from_cookie_only("app_language=zh"), Some(Language::Zh));
}

#[test]
fn language_from_preferences_and_choice() {
    let d = LanguageDetector::new(I18nConfig::default());
    let codes = vec!["de".to_string(), " zh-TW ".to_string(), "en".to_string()];
    // zh-tw is not among the supported languages by default.
    assert_eq!(d.first_supported(&codes), Some(Language::En));
    assert_eq!(d.detect_from_headers_only(&vec!["ja".to_string()]), Some(Language::Ja));
    assert_eq!(
        d.choose_language(Some(Language::Ja), Some(Language::Zh), Some(Language::En)),
        Language::Ja
    );
    assert_eq!(d.choose_language(None, Some(Language::Zh), Some(Language::En)), Language::Zh);
    assert_eq!(d.choose_language(None, None, None), Language::En);
    let mut c = I18nConfig::default();
    c.allow_url_param = false;
    c.auto_detect = false;
    c.allow_cookie = false;
    let quiet = LanguageDetector::new(c);
    assert_eq!(quiet.choose_language(Some(Language::Ja), Some(Language::Zh), Some(Language::Ja)), Language::En);
    assert_eq!(quiet.detect_from_headers_only(&vec!["ja".to_string()]), None);
    assert_eq!(quiet.detect_from_cookie_only("app_language=zh"), None);
}

use loco_mcp::i18n::TranslationFile;

fn get<'a>(m: &'a [(String, String)], k: &str) -> Option<&'a String> {
    m.iter().find(|(key, _)| key == k).map(|(_, v)| v)
}

#[test]
fn test_translation_file() {
    let mut file = TranslationFile::new("zh".to_string());
    file.add_to_category("nav", "home".to_string(), "首页".to_string());
    file.add_to_category("nav", "about".to_string(), "关于".to_string());
    file.add_to_category("form", "submit".to_string(), "提交".to_string());
    assert_eq!(file.get_from_category("nav", "home"), Some(&"首页".to_string()));
    let flat_map = file.to_flat_map();
    assert_eq!(get(&flat_map, "nav.home"), Some(&"首页".to_string()));
    assert_eq!(get(&flat_map, "form.submit"), Some(&"提交".to_string()));
}

#[test]
fn test_translation_file_from_flat() {
    let flat_map = vec![
        ("nav.home".to_string(), "首页".to_string()),
        ("nav.about".to_string(), "关于".to_string()),
        ("submit".to_string(), "提交".to_string()),
    ];
    let file = TranslationFile::from_flat_map("zh".to_string(), flat_map);
    assert_eq!(file.get_from_category("nav", "home"), Some(&"首页".to_string()));
    let nav = &file.categories.iter().find(|(c, _)| c == "nav").unwrap().1;
    assert_eq!(nav.len(), 2);
    assert_eq!(get(file.translations.as_ref().unwrap(), "submit"), Some(&"提交".to_string()));
}

#[test]
fn translation_file_edges() {
    let mut file = TranslationFile::new("en".to_string());
    file.add_to_category("nav", "home".to_string(), "Home".to_string());
    file.add_to_category("nav", "home".to_string(), "Start".to_string());
    assert_eq!(file.get_from_category("nav", "home"), Some(&"Start".to_string()));
    assert_eq!(file.get_from_category("nav", "away"), None);
    assert_eq!(file.get_from_category("footer", "home"), None);
    let f = TranslationFile::from_flat_map("en".to_string(), vec![("a.b.c".to_string(), "x".to_string())]);
    assert!(f.translations.is_none());
    assert_eq!(f.get_from_category("a", "b.c"), Some(&"x".to_string()));
    assert_eq!(f.to_flat_map(), vec![("a.b.c".to_string(), "x".to_string())]);
}

#[test]
fn store_sizes_and_removal() {
    let mut t = Translations::new(I18nConfig::default());
    t.add_translation(&Language::En, "a".to_string(), "1".to_string());
    t.add_translation(&Language::En, "a".to_string(), "2".to_string());
    t.add_translation(&Language::En, "b".to_string(), "3".to_string());
    assert_eq!(t.get_stats(), vec![(Language::En, 2)]);
    t.remove_translation(&Language::En, "a");
    t.remove_translation(&Language::En, "a");
    assert!(!t.has_translation(&Language::En, "a"));
    assert_eq!(t.get_stats(), vec![(Language::En, 1)]);
    let b = I18nMiddlewareBuilder::new();
    assert!(b.config.allow_url_param && b.config.allow_cookie);
    assert_eq!(b.config.translations_path, "assets/translations");
    let ctx = I18nTemplateContext::new(Language::Ja, vec![]);
    assert_eq!(ctx.current_language_display, "日本語");
    assert_eq!(ctx.current_language_native, "日本語");
}
