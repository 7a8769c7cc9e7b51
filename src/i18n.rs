//! Languages, the internationalisation settings, and a translation store
//! that falls back from a language to a related one and then to the default.
use crate::json::{find_key, has_key, lookup};
use crate::field::{is_prefix, split_char, split_from, strip_prefix};
use crate::text::{lower_of, lowercase, replace_all, replaced, signed_decimal, trim, trimmed};
use vstd::prelude::*;

verus! {

/// A language, by its code.
#[derive(Debug, Clone, PartialEq, Eq, Hash)]
pub enum Language {
    Zh,
    ZhTw,
    Ja,
    En,
    Custom(String),
}

/// The same language: the same variant, and for custom ones the same code.
pub open spec fn same_lang(a: Language, b: Language) -> bool {
    match (a, b) {
        (Language::Zh, Language::Zh) => true,
        (Language::ZhTw, Language::ZhTw) => true,
        (Language::Ja, Language::Ja) => true,
        (Language::En, Language::En) => true,
        (Language::Custom(x), Language::Custom(y)) => x@ == y@,
        _ => false,
    }
}

pub fn same_language(a: &Language, b: &Language) -> (r: bool)
    ensures
        r == same_lang(*a, *b),
{
    match (a, b) {
        (Language::Zh, Language::Zh) => true,
        (Language::ZhTw, Language::ZhTw) => true,
        (Language::Ja, Language::Ja) => true,
        (Language::En, Language::En) => true,
        (Language::Custom(x), Language::Custom(y)) => *x == *y,
        _ => false,
    }
}

impl Language {
    pub open spec fn spec_code(&self) -> Seq<char> {
        match self {
            Language::Zh => "zh"@,
            Language::ZhTw => "zh-tw"@,
            Language::Ja => "ja"@,
            Language::En => "en"@,
            Language::Custom(code) => code@,
        }
    }

    pub fn as_str(&self) -> (r: &str)
        ensures
            r@ == self.spec_code(),
    {
        match self {
            Language::Zh => "zh",
            Language::ZhTw => "zh-tw",
            Language::Ja => "ja",
            Language::En => "en",
            Language::Custom(code) => code.as_str(),
        }
    }

    /// The name shown for the language.
    pub open spec fn spec_display_name(&self) -> Seq<char> {
        match self {
            Language::Zh => "中文(简体)"@,
            Language::ZhTw => "中文(繁體)"@,
            Language::Ja => "日本語"@,
            Language::En => "English"@,
            Language::Custom(_) => "Unknown"@,
        }
    }

    /// The language's name for itself.
    pub open spec fn spec_native_name(&self) -> Seq<char> {
        match self {
            Language::Zh => "简体中文"@,
            Language::ZhTw => "繁體中文"@,
            Language::Ja => "日本語"@,
            Language::En => "English"@,
            Language::Custom(_) => "Unknown"@,
        }
    }

    pub fn display_name(&self) -> (r: &str)
        ensures
            r@ == self.spec_display_name(),
    {
        match self {
            Language::Zh => "中文(简体)",
            Language::ZhTw => "中文(繁體)",
            Language::Ja => "日本語",
            Language::En => "English",
            Language::Custom(_) => "Unknown",
        }
    }

    pub fn native_name(&self) -> (r: &str)
        ensures
            r@ == self.spec_native_name(),
    {
        match self {
            Language::Zh => "简体中文",
            Language::ZhTw => "繁體中文",
            Language::Ja => "日本語",
            Language::En => "English",
            Language::Custom(_) => "Unknown",
        }
    }

    /// The language named by an already lower-cased code. Each known
    /// language has two codes; any other code is kept as a custom language.
    pub fn from_lowercase(lc: &str) -> (r: Language)
        ensures
            Language::from_lowercase_ok(lc@, r),
    {
        let s = lc.to_string();
        if s == "zh".to_string() || s == "zh-cn".to_string() {
            Language::Zh
        } else if s == "zh-tw".to_string() || s == "zh-hk".to_string() {
            Language::ZhTw
        } else if s == "ja".to_string() || s == "jp".to_string() {
            Language::Ja
        } else if s == "en".to_string() || s == "en-us".to_string() {
            Language::En
        } else {
            Language::Custom(s)
        }
    }

    /// The language named by a code, in any letter case.
    pub fn from_str(code: &str) -> (r: Language)
        ensures
            Language::from_lowercase_ok(lower_of(code@), r),
    {
        let lc = lowercase(code);
        Language::from_lowercase(lc.as_str())
    }

    /// What `from_lowercase` gives for `lc`.
    pub open spec fn from_lowercase_ok(lc: Seq<char>, r: Language) -> bool {
        if lc == "zh"@ || lc == "zh-cn"@ {
            r is Zh
        } else if lc == "zh-tw"@ || lc == "zh-hk"@ {
            r is ZhTw
        } else if lc == "ja"@ || lc == "jp"@ {
            r is Ja
        } else if lc == "en"@ || lc == "en-us"@ {
            r is En
        } else {
            r is Custom && r->Custom_0@ == lc
        }
    }

    pub fn is_east_asian(&self) -> (r: bool)
        ensures
            r == (self is Zh || self is ZhTw || self is Ja),
    {
        match self {
            Language::Zh | Language::ZhTw | Language::Ja => true,
            _ => false,
        }
    }

    /// The related language that translations fall back to.
    pub open spec fn spec_fallback(&self) -> Option<Language> {
        match self {
            Language::Zh => Some(Language::En),
            Language::ZhTw => Some(Language::Zh),
            Language::Ja => Some(Language::En),
            _ => None,
        }
    }
}

impl Default for Language {
    fn default() -> (r: Language)
        ensures
            r is En,
    {
        Language::En
    }
}

/// Settings of language handling.
#[derive(Debug, Clone)]
pub struct I18nConfig {
    pub default_language: Language,
    pub supported_languages: Vec<Language>,
    pub translations_path: String,
    pub auto_detect: bool,
    pub allow_url_param: bool,
    pub lang_param: String,
    pub allow_cookie: bool,
    pub cookie_name: String,
    pub cookie_max_age: i64,
}

/// One year, in seconds.
pub const DEFAULT_COOKIE_MAX_AGE: i64 = 31536000;

impl Default for I18nConfig {
    fn default() -> (r: I18nConfig)
        ensures
            r.default_language is En,
            r.supported_languages@.len() == 3,
            r.supported_languages@[0] is Zh,
            r.supported_languages@[1] is Ja,
            r.supported_languages@[2] is En,
            r.translations_path@ == "assets/translations"@,
            r.auto_detect,
            r.allow_url_param,
            r.lang_param@ == "lang"@,
            r.allow_cookie,
            r.cookie_name@ == "app_language"@,
            r.cookie_max_age == DEFAULT_COOKIE_MAX_AGE,
    {
        I18nConfig {
            default_language: Language::En,
            supported_languages: vec![Language::Zh, Language::Ja, Language::En],
            translations_path: "assets/translations".to_string(),
            auto_detect: true,
            allow_url_param: true,
            lang_param: "lang".to_string(),
            allow_cookie: true,
            cookie_name: "app_language".to_string(),
            cookie_max_age: DEFAULT_COOKIE_MAX_AGE,
        }
    }
}

// The translation store.

/// Index of the first entry at or after `i` for language `l`, or the length.
pub open spec fn lang_index_from<V>(t: Seq<(Language, V)>, l: Language, i: int) -> int
    decreases t.len() - i,
{
    if i < 0 || i >= t.len() {
        t.len() as int
    } else if same_lang(t[i].0, l) {
        i
    } else {
        lang_index_from(t, l, i + 1)
    }
}

pub open spec fn lang_index<V>(t: Seq<(Language, V)>, l: Language) -> int {
    lang_index_from(t, l, 0)
}

/// The key/value list of language `l`, when it has one.
pub open spec fn table_of(t: Seq<(Language, Seq<(String, String)>)>, l: Language) -> Option<
    Seq<(String, String)>,
> {
    if lang_index(t, l) < t.len() {
        Some(t[lang_index(t, l)].1)
    } else {
        None
    }
}

/// The translation of `k` recorded for language `l` itself.
pub open spec fn find(t: Seq<(Language, Seq<(String, String)>)>, l: Language, k: Seq<char>) -> Option<
    String,
> {
    match table_of(t, l) {
        Some(m) => lookup(m, k),
        None => None,
    }
}

/// Translation with fallback: the language's own entry, else its related
/// language's, else the default language's, else the key itself.
pub open spec fn translation(
    t: Seq<(Language, Seq<(String, String)>)>,
    default: Language,
    l: Language,
    k: Seq<char>,
) -> Seq<char> {
    if find(t, l, k) is Some {
        find(t, l, k).unwrap()@
    } else if l.spec_fallback() is Some && find(t, l.spec_fallback().unwrap(), k) is Some {
        find(t, l.spec_fallback().unwrap(), k).unwrap()@
    } else if !same_lang(l, default) && find(t, default, k) is Some {
        find(t, default, k).unwrap()@
    } else {
        k
    }
}

pub proof fn lemma_same_lang_equiv(a: Language, b: Language, c: Language)
    ensures
        same_lang(a, a),
        same_lang(a, b) ==> same_lang(b, a),
        same_lang(a, b) && same_lang(b, c) ==> same_lang(a, c),
{
}

proof fn lemma_lang_index_bounds<V>(t: Seq<(Language, V)>, l: Language, i: int)
    requires
        0 <= i <= t.len(),
    ensures
        i <= lang_index_from(t, l, i) <= t.len(),
        lang_index_from(t, l, i) < t.len() ==> same_lang(t[lang_index_from(t, l, i)].0, l),
        forall|j: int| i <= j < lang_index_from(t, l, i) ==> !same_lang(#[trigger] t[j].0, l),
    decreases t.len() - i,
{
    if i < t.len() && !same_lang(t[i].0, l) {
        lemma_lang_index_bounds(t, l, i + 1);
    }
}

/// No language appears twice, and no key twice within a language.
pub open spec fn store_ok(t: Seq<(Language, Seq<(String, String)>)>) -> bool {
    &&& forall|a: int, b: int| 0 <= a < b < t.len() ==> !same_lang(#[trigger] t[a].0, #[trigger] t[b].0)
    &&& forall|a: int| 0 <= a < t.len() ==> crate::tools::unique_keys(#[trigger] t[a].1)
}

proof fn lemma_put_unique(m: Seq<(String, String)>, k: String, v: String)
    requires
        crate::tools::unique_keys(m),
    ensures
        crate::tools::unique_keys(put(m, k, v)),
        put(m, k, v).len() == if has_key(m, k@) {
            m.len()
        } else {
            m.len() + 1
        },
{
    crate::json::lemma_has_key_exists(m, k@);
    if has_key(m, k@) {
        let j = crate::json::first_key(m, k@);
        let p = put(m, k, v);
        assert forall|a: int, b: int|
            0 <= a < p.len() && 0 <= b < p.len() && a != b implies p[a].0@ != p[b].0@ by {
            if a != j && b != j {
                assert(p[a] == m[a] && p[b] == m[b]);
            } else if a == j {
                assert(p[b] == m[b]);
            } else {
                assert(p[a] == m[a]);
            }
        }
    } else {
        let p = put(m, k, v);
        assert forall|a: int, b: int|
            0 <= a < p.len() && 0 <= b < p.len() && a != b implies p[a].0@ != p[b].0@ by {
            if a < m.len() && b < m.len() {
                assert(p[a] == m[a] && p[b] == m[b]);
            }
        }
    }
}

proof fn lemma_without_first(m: Seq<(String, String)>, k: Seq<char>)
    requires
        crate::tools::unique_keys(m),
    ensures
        crate::tools::unique_keys(without_first(m, k)),
        !has_key(without_first(m, k), k),
{
    crate::json::lemma_has_key_exists(m, k);
    let w = without_first(m, k);
    crate::json::lemma_has_key_exists(w, k);
    if has_key(m, k) {
        let j = crate::json::first_key(m, k);
        assert forall|a: int, b: int|
            0 <= a < w.len() && 0 <= b < w.len() && a != b implies w[a].0@ != w[b].0@ by {
            let a2 = if a < j { a } else { a + 1 };
            let b2 = if b < j { b } else { b + 1 };
            assert(w[a] == m[a2]);
            assert(w[b] == m[b2]);
        }
        if has_key(w, k) {
            let x = crate::json::first_key(w, k);
            let x2 = if x < j { x } else { x + 1 };
            assert(w[x] == m[x2]);
        }
    }
}

/// Lists with the same languages, position by position, find a language at
/// the same index.
proof fn lemma_lang_index_same_langs<V, W>(a: Seq<(Language, V)>, b: Seq<(Language, W)>, l: Language, i: int)
    requires
        a.len() == b.len(),
        forall|j: int| 0 <= j < a.len() ==> #[trigger] a[j].0 == b[j].0,
    ensures
        lang_index_from(a, l, i) == lang_index_from(b, l, i),
    decreases a.len() - i,
{
    if 0 <= i < a.len() && !same_lang(a[i].0, l) {
        lemma_lang_index_same_langs(a, b, l, i + 1);
    }
}

/// Lists that agree on which positions carry `key` find it at the same index.
proof fn lemma_first_key_same_hits<V, W>(a: Seq<(String, V)>, b: Seq<(String, W)>, key: Seq<char>, i: int)
    requires
        a.len() == b.len(),
        forall|j: int| 0 <= j < a.len() ==> (#[trigger] a[j].0@ == key) == (b[j].0@ == key),
    ensures
        crate::json::first_key_from(a, key, i) == crate::json::first_key_from(b, key, i),
    decreases a.len() - i,
{
    if 0 <= i < a.len() && a[i].0@ != key {
        lemma_first_key_same_hits(a, b, key, i + 1);
    }
}

/// Setting `k` to `v` in a key/value list: the first entry for `k` is
/// replaced, or one is appended.
pub open spec fn put(m: Seq<(String, String)>, k: String, v: String) -> Seq<(String, String)> {
    if has_key(m, k@) {
        m.update(crate::json::first_key(m, k@), (k, v))
    } else {
        m.push((k, v))
    }
}

proof fn lemma_put(m: Seq<(String, String)>, k: String, v: String, k2: Seq<char>)
    ensures
        lookup(put(m, k, v), k@) == Some(v),
        k2 != k@ ==> lookup(put(m, k, v), k2) == lookup(m, k2),
{
    let p = put(m, k, v);
    crate::json::lemma_has_key_exists(m, k@);
    crate::json::lemma_has_key_exists(m, k2);
    if has_key(m, k@) {
        let j = crate::json::first_key(m, k@);
        lemma_first_key_same_hits(m, p, k@, 0);
        lemma_first_key_same_hits(m, p, k2, 0);
        crate::json::lemma_has_key_exists(p, k@);
        crate::json::lemma_has_key_exists(p, k2);
    } else {
        crate::json::lemma_push_fresh(m, (k, v), k@);
        crate::json::lemma_push_fresh(m, (k, v), k2);
        crate::json::lemma_has_key_exists(p, k2);
        crate::json::lemma_has_key_exists(p, k@);
    }
}

/// Translations per language, with fallback to a related language and to
/// the configured default.
#[derive(Debug)]
pub struct Translations {
    translations: Vec<(Language, Vec<(String, String)>)>,
    config: I18nConfig,
}

impl Translations {
    #[verifier::type_invariant]
    spec fn unique_entries(&self) -> bool {
        store_ok(Seq::new(
            self.translations@.len(),
            |i: int| (self.translations@[i].0, self.translations@[i].1@),
        ))
    }
}

impl Translations {
    /// The recorded translations, language by language.
    pub closed spec fn table(&self) -> Seq<(Language, Seq<(String, String)>)> {
        Seq::new(
            self.translations@.len(),
            |i: int| (self.translations@[i].0, self.translations@[i].1@),
        )
    }

    pub closed spec fn default_language(&self) -> Language {
        self.config.default_language
    }

    /// The settings the store was made with.
    pub closed spec fn config(&self) -> I18nConfig {
        self.config
    }

    /// An empty store under the given settings.
    pub fn new(config: I18nConfig) -> (r: Translations)
        ensures
            r.table().len() == 0,
            r.default_language() == config.default_language,
            r.config() == config,
    {
        Translations { translations: Vec::new(), config }
    }

    fn find_language_in(&self, ts: &Vec<(Language, Vec<(String, String)>)>, language: &Language) -> (r:
        Option<usize>)
        ensures
            ({
                let t = Seq::new(ts@.len(), |i: int| (ts@[i].0, ts@[i].1@));
                match r {
                    Some(i) => i == lang_index(t, *language) && i < t.len(),
                    None => lang_index(t, *language) == t.len(),
                }
            }),
    {
        let ghost t = Seq::new(ts@.len(), |i: int| (ts@[i].0, ts@[i].1@));
        let mut i: usize = 0;
        while i < ts.len()
            invariant
                i <= ts@.len(),
                t == Seq::new(ts@.len(), |i: int| (ts@[i].0, ts@[i].1@)),
                lang_index(t, *language) == lang_index_from(t, *language, i as int),
            decreases ts@.len() - i,
        {
            if same_language(&ts[i].0, language) {
                return Some(i);
            }
            i = i + 1;
        }
        None
    }

    fn find_language(&self, language: &Language) -> (r: Option<usize>)
        ensures
            match r {
                Some(i) => i == lang_index(self.table(), *language) && i < self.table().len(),
                None => lang_index(self.table(), *language) == self.table().len(),
            },
    {
        let mut i: usize = 0;
        while i < self.translations.len()
            invariant
                i <= self.translations@.len(),
                self.table().len() == self.translations@.len(),
                lang_index(self.table(), *language) == lang_index_from(self.table(), *language, i as int),
            decreases self.translations@.len() - i,
        {
            if same_language(&self.translations[i].0, language) {
                return Some(i);
            }
            i = i + 1;
        }
        None
    }

    fn find_entry(&self, language: &Language, key: &str) -> (r: Option<&String>)
        ensures
            match r {
                Some(v) => find(self.table(), *language, key@) == Some(*v),
                None => find(self.table(), *language, key@) is None,
            },
    {
        match self.find_language(language) {
            None => None,
            Some(i) => {
                let m = &self.translations[i].1;
                match find_key(m, key) {
                    Some(j) => Some(&m[j].1),
                    None => None,
                }
            },
        }
    }

    /// The translation of `key` for `language`, falling back to the related
    /// language, then to the default language, then to the key itself.
    pub fn translate(&self, language: &Language, key: &str) -> (r: String)
        ensures
            r@ == translation(self.table(), self.default_language(), *language, key@),
    {
        if let Some(v) = self.find_entry(language, key) {
            return v.clone();
        }
        if let Some(fb) = self.fallback_language(language) {
            if let Some(v) = self.find_entry(&fb, key) {
                return v.clone();
            }
        }
        if !same_language(language, &self.config.default_language) {
            if let Some(v) = self.find_entry(&self.config.default_language, key) {
                return v.clone();
            }
        }
        key.to_string()
    }

    /// Whether `language` itself records a translation of `key`.
    pub fn has_translation(&self, language: &Language, key: &str) -> (r: bool)
        ensures
            r == find(self.table(), *language, key@) is Some,
    {
        self.find_entry(language, key).is_some()
    }

    /// The related language that `language` falls back to.
    pub fn fallback_language(&self, language: &Language) -> (r: Option<Language>)
        ensures
            r == language.spec_fallback(),
    {
        match language {
            Language::Zh => Some(Language::En),
            Language::ZhTw => Some(Language::Zh),
            Language::Ja => Some(Language::En),
            _ => None,
        }
    }

    /// A copy of the translations recorded for `language`.
    pub fn get_translations(&self, language: &Language) -> (r: Option<Vec<(String, String)>>)
        ensures
            match r {
                Some(m) => table_of(self.table(), *language) == Some(m@),
                None => table_of(self.table(), *language) is None,
            },
    {
        match self.find_language(language) {
            None => None,
            Some(i) => {
                let m = &self.translations[i].1;
                let mut out: Vec<(String, String)> = Vec::new();
                let mut j: usize = 0;
                while j < m.len()
                    invariant
                        j <= m@.len(),
                        out@ == m@.subrange(0, j as int),
                    decreases m@.len() - j,
                {
                    out.push((m[j].0.clone(), m[j].1.clone()));
                    j = j + 1;
                    proof {
                        assert(out@ =~= m@.subrange(0, j as int));
                    }
                }
                proof {
                    assert(out@ =~= m@);
                }
                Some(out)
            },
        }
    }

    /// Records `value` as the translation of `key` for `language`, replacing
    /// an earlier one; every other translation stays as it was.
    pub fn add_translation(&mut self, language: &Language, key: String, value: String)
        ensures
            final(self).default_language() == old(self).default_language(),
            find(final(self).table(), *language, key@) == Some(value),
            forall|l: Language, k: Seq<char>|
                !(same_lang(l, *language) && k == key@) ==> #[trigger] find(final(self).table(), l, k)
                    == find(old(self).table(), l, k),
            table_of(final(self).table(), *language) is Some,
            table_of(final(self).table(), *language).unwrap().len() == (match table_of(
                old(self).table(),
                *language,
            ) {
                Some(m) => m.len(),
                None => 0,
            }) + if find(old(self).table(), *language, key@) is Some {
                0int
            } else {
                1int
            },
    {
        proof {
            use_type_invariant(&*self);
        }
        let ghost t0 = self.table();
        let mut ts: Vec<(Language, Vec<(String, String)>)> = Vec::new();
        std::mem::swap(&mut ts, &mut self.translations);
        proof {
            assert(t0 =~= Seq::new(ts@.len(), |i: int| (ts@[i].0, ts@[i].1@)));
        }
        match self.find_language_in(&ts, language) {
            Some(i) => {
                let (lang, mut m) = ts.remove(i);
                let ghost m0 = m@;
                match find_key(&m, key.as_str()) {
                    Some(j) => {
                        m.remove(j);
                        m.insert(j, (key, value));
                        proof {
                            assert(m@ =~= m0.update(j as int, (key, value)));
                        }
                    },
                    None => {
                        m.push((key, value));
                    },
                }
                let ghost m1 = m@;
                ts.insert(i, (lang, m));
                proof {
                    assert(m1 == put(m0, key, value));
                    let t1 = Seq::new(ts@.len(), |x: int| (ts@[x].0, ts@[x].1@));
                    assert(t1 =~= t0.update(i as int, (t0[i as int].0, m1)));
                    lemma_put_unique(m0, key, value);
                    assert(store_ok(t1)) by {
                        assert forall|a: int| 0 <= a < t1.len() implies crate::tools::unique_keys(
                            #[trigger] t1[a].1,
                        ) by {
                            if a != i {
                                assert(t1[a] == t0[a]);
                            }
                        }
                        assert forall|a: int, b: int| 0 <= a < b < t1.len() implies !same_lang(
                            #[trigger] t1[a].0,
                            #[trigger] t1[b].0,
                        ) by {
                            assert(t1[a].0 == t0[a].0 && t1[b].0 == t0[b].0);
                        }
                    }
                    lemma_lang_index_same_langs(t0, t1, *language, 0);
                    lemma_lang_index_bounds(t0, *language, 0);
                    lemma_put(m0, key, value, key@);
                    crate::json::lemma_has_key_exists(m0, key@);
                    assert forall|l: Language, k: Seq<char>|
                        !(same_lang(l, *language) && k == key@) implies #[trigger] find(t1, l, k)
                            == find(t0, l, k) by {
                        lemma_lang_index_same_langs(t0, t1, l, 0);
                        lemma_lang_index_bounds(t0, l, 0);
                        if lang_index(t0, l) == i {
                            lemma_same_lang_equiv(l, t0[i as int].0, *language);
                            lemma_same_lang_equiv(t0[i as int].0, *language, l);
                            lemma_put(m0, key, value, k);
                        }
                    }
                }
            },
            None => {
                let mut m: Vec<(String, String)> = Vec::new();
                m.push((key, value));
                ts.push((language.clone_language(), m));
                proof {
                    let t1 = Seq::new(ts@.len(), |x: int| (ts@[x].0, ts@[x].1@));
                    assert(t1 =~= t0.push((*language, seq![(key, value)])));
                    lemma_lang_index_bounds(t0, *language, 0);
                    assert(store_ok(t1)) by {
                        assert forall|a: int| 0 <= a < t1.len() implies crate::tools::unique_keys(
                            #[trigger] t1[a].1,
                        ) by {
                            if a < t0.len() {
                                assert(t1[a] == t0[a]);
                            }
                        }
                        assert forall|a: int, b: int| 0 <= a < b < t1.len() implies !same_lang(
                            #[trigger] t1[a].0,
                            #[trigger] t1[b].0,
                        ) by {
                            if b < t0.len() {
                                assert(t1[a].0 == t0[a].0 && t1[b].0 == t0[b].0);
                            } else {
                                assert(!same_lang(t0[a].0, *language));
                            }
                        }
                    }
                    assert forall|l: Language, k: Seq<char>|
                        !(same_lang(l, *language) && k == key@) implies #[trigger] find(t1, l, k)
                            == find(t0, l, k) by {
                        lemma_lang_index_bounds(t0, l, 0);
                        lemma_lang_index_bounds(t1, l, 0);
                        lemma_lang_index_push(t0, (*language, seq![(key, value)]), l, 0);
                        if lang_index(t1, l) == t0.len() {
                            lemma_same_lang_equiv(l, *language, *language);
                            crate::json::lemma_has_key_exists(seq![(key, value)], k);
                        }
                    }
                    lemma_lang_index_push(t0, (*language, seq![(key, value)]), *language, 0);
                    lemma_same_lang_equiv(*language, *language, *language);
                    crate::json::lemma_has_key_exists(seq![(key, value)], key@);
                }
            },
        }
        std::mem::swap(&mut ts, &mut self.translations);
    }

    /// The languages that have translations, in the order they were added.
    pub fn available_languages(&self) -> (r: Vec<Language>)
        ensures
            r@.len() == self.table().len(),
            forall|i: int| 0 <= i < r@.len() ==> same_lang(#[trigger] r@[i], self.table()[i].0),
    {
        let mut out: Vec<Language> = Vec::new();
        let mut i: usize = 0;
        while i < self.translations.len()
            invariant
                i <= self.translations@.len(),
                self.table().len() == self.translations@.len(),
                out@.len() == i,
                forall|j: int| 0 <= j < i ==> same_lang(#[trigger] out@[j], self.table()[j].0),
            decreases self.translations@.len() - i,
        {
            out.push(self.translations[i].0.clone_language());
            i = i + 1;
        }
        out
    }

    /// How many translations each language has.
    pub fn get_stats(&self) -> (r: Vec<(Language, usize)>)
        ensures
            r@.len() == self.table().len(),
            forall|i: int|
                0 <= i < r@.len() ==> same_lang(#[trigger] r@[i].0, self.table()[i].0) && r@[i].1
                    == self.table()[i].1.len(),
    {
        let mut out: Vec<(Language, usize)> = Vec::new();
        let mut i: usize = 0;
        while i < self.translations.len()
            invariant
                i <= self.translations@.len(),
                self.table().len() == self.translations@.len(),
                out@.len() == i,
                forall|j: int|
                    0 <= j < i ==> same_lang(#[trigger] out@[j].0, self.table()[j].0) && out@[j].1
                        == self.table()[j].1.len(),
            decreases self.translations@.len() - i,
        {
            out.push((self.translations[i].0.clone_language(), self.translations[i].1.len()));
            i = i + 1;
        }
        out
    }
}

proof fn lemma_lang_index_push<V>(t: Seq<(Language, V)>, e: (Language, V), l: Language, i: int)
    requires
        0 <= i <= t.len(),
    ensures
        lang_index_from(t, l, i) < t.len() ==> lang_index_from(t.push(e), l, i) == lang_index_from(t, l, i),
        lang_index_from(t, l, i) == t.len() ==> lang_index_from(t.push(e), l, i) == (if same_lang(e.0, l) {
            t.len() as int
        } else {
            (t.len() + 1) as int
        }),
    decreases t.len() - i,
{
    if i < t.len() {
        assert(t.push(e)[i] == t[i]);
        if !same_lang(t[i].0, l) {
            lemma_lang_index_push(t, e, l, i + 1);
        }
    } else {
        assert(t.push(e)[i] == e);
        if !same_lang(e.0, l) {
            assert(lang_index_from(t.push(e), l, i + 1) == t.len() + 1);
        }
    }
}

impl Language {
    /// A copy of the language.
    pub fn clone_language(&self) -> (r: Language)
        ensures
            r == *self,
    {
        match self {
            Language::Zh => Language::Zh,
            Language::ZhTw => Language::ZhTw,
            Language::Ja => Language::Ja,
            Language::En => Language::En,
            Language::Custom(c) => Language::Custom(c.clone()),
        }
    }
}

/// A key/value list without the first entry for `k`.
pub open spec fn without_first(m: Seq<(String, String)>, k: Seq<char>) -> Seq<(String, String)> {
    if has_key(m, k) {
        m.remove(crate::json::first_key(m, k))
    } else {
        m
    }
}

/// The placeholder that stands for parameter `p` in a translation.
pub open spec fn placeholder(p: Seq<char>) -> Seq<char> {
    "{{"@ + p + "}}"@
}

/// A text with the placeholders of `ps[i..]` replaced by their values, one
/// parameter after another.
pub open spec fn apply_params(s: Seq<char>, ps: Seq<(String, String)>, i: int) -> Seq<char>
    decreases ps.len() - i,
{
    if i < 0 || i >= ps.len() {
        s
    } else {
        apply_params(replaced(s, placeholder(ps[i].0@), ps[i].1@), ps, i + 1)
    }
}

/// Replaces the placeholder of each parameter, in order, by its value.
pub fn fill_params(template: String, params: &Vec<(String, String)>) -> (r: String)
    ensures
        r@ == apply_params(template@, params@, 0),
{
    let mut result = template;
    let mut i: usize = 0;
    while i < params.len()
        invariant
            i <= params@.len(),
            apply_params(result@, params@, i as int) == apply_params(template@, params@, 0),
        decreases params@.len() - i,
    {
        let mut ph = "{{".to_string();
        ph.append(params[i].0.as_str());
        ph.append("}}");
        result = replace_all(result.as_str(), ph.as_str(), params[i].1.as_str());
        i = i + 1;
    }
    result
}

impl Translations {
    /// Removes the translation of `key` for `language`, if there is one.
    pub fn remove_translation(&mut self, language: &Language, key: &str)
        ensures
            final(self).default_language() == old(self).default_language(),
            find(final(self).table(), *language, key@) is None,
            lang_index(old(self).table(), *language) < old(self).table().len() ==> final(self).table()
                == old(self).table().update(
                lang_index(old(self).table(), *language),
                (
                    old(self).table()[lang_index(old(self).table(), *language)].0,
                    without_first(old(self).table()[lang_index(old(self).table(), *language)].1, key@),
                ),
            ),
            lang_index(old(self).table(), *language) == old(self).table().len() ==> final(self).table()
                == old(self).table(),
    {
        proof {
            use_type_invariant(&*self);
        }
        let ghost t0 = self.table();
        let mut ts: Vec<(Language, Vec<(String, String)>)> = Vec::new();
        std::mem::swap(&mut ts, &mut self.translations);
        proof {
            assert(t0 =~= Seq::new(ts@.len(), |i: int| (ts@[i].0, ts@[i].1@)));
        }
        match self.find_language_in(&ts, language) {
            Some(i) => {
                let (lang, mut m) = ts.remove(i);
                let ghost m0 = m@;
                match find_key(&m, key) {
                    Some(j) => {
                        m.remove(j);
                    },
                    None => {},
                }
                let ghost m1 = m@;
                ts.insert(i, (lang, m));
                proof {
                    assert(m1 == without_first(m0, key@));
                    let t1 = Seq::new(ts@.len(), |x: int| (ts@[x].0, ts@[x].1@));
                    assert(t1 =~= t0.update(i as int, (t0[i as int].0, m1)));
                    lemma_without_first(m0, key@);
                    assert(store_ok(t1)) by {
                        assert forall|a: int| 0 <= a < t1.len() implies crate::tools::unique_keys(
                            #[trigger] t1[a].1,
                        ) by {
                            if a != i {
                                assert(t1[a] == t0[a]);
                            }
                        }
                        assert forall|a: int, b: int| 0 <= a < b < t1.len() implies !same_lang(
                            #[trigger] t1[a].0,
                            #[trigger] t1[b].0,
                        ) by {
                            assert(t1[a].0 == t0[a].0 && t1[b].0 == t0[b].0);
                        }
                    }
                    lemma_lang_index_same_langs(t0, t1, *language, 0);
                }
            },
            None => {},
        }
        std::mem::swap(&mut ts, &mut self.translations);
    }

    /// The translation of `key`, with each parameter's placeholder `{{name}}`
    /// replaced by its value.
    pub fn translate_with_params(&self, language: &Language, key: &str, params: &Vec<(String, String)>) -> (r:
        String)
        ensures
            r@ == apply_params(
                translation(self.table(), self.default_language(), *language, key@),
                params@,
                0,
            ),
    {
        let template = self.translate(language, key);
        fill_params(template, params)
    }
}

/// The language of one request, with the translations and settings it uses.
#[derive(Debug)]
pub struct I18nContext {
    pub language: Language,
    pub translations: Translations,
    pub config: I18nConfig,
}

impl I18nContext {
    pub fn new(language: Language, translations: Translations, config: I18nConfig) -> (r: Self)
        ensures
            r.language == language,
            r.translations == translations,
            r.config == config,
    {
        I18nContext { language, translations, config }
    }

    /// The translation of `key` in this context's language.
    pub fn t(&self, key: &str) -> (r: String)
        ensures
            r@ == translation(
                self.translations.table(),
                self.translations.default_language(),
                self.language,
                key@,
            ),
    {
        self.translations.translate(&self.language, key)
    }

    pub fn t_with_params(&self, key: &str, params: &Vec<(String, String)>) -> (r: String)
        ensures
            r@ == apply_params(
                translation(
                    self.translations.table(),
                    self.translations.default_language(),
                    self.language,
                    key@,
                ),
                params@,
                0,
            ),
    {
        self.translations.translate_with_params(&self.language, key, params)
    }

    pub fn has_translation(&self, key: &str) -> (r: bool)
        ensures
            r == find(self.translations.table(), self.language, key@) is Some,
    {
        self.translations.has_translation(&self.language, key)
    }

    pub fn fallback_language(&self) -> (r: Option<Language>)
        ensures
            r == self.language.spec_fallback(),
    {
        self.translations.fallback_language(&self.language)
    }
}

/// Picks the language of a request according to the settings.
#[derive(Debug)]
pub struct LanguageDetector {
    config: I18nConfig,
}

/// The text of `ps` joined by `sep`.
pub open spec fn joined(ps: Seq<Seq<char>>, sep: Seq<char>) -> Seq<char>
    decreases ps.len(),
{
    if ps.len() == 0 {
        Seq::empty()
    } else if ps.len() == 1 {
        ps[0]
    } else {
        joined(ps.drop_last(), sep) + sep + ps.last()
    }
}

/// The query parameters of `ps` that do not set `param`.
pub open spec fn keep_params(ps: Seq<Seq<char>>, param: Seq<char>) -> Seq<Seq<char>>
    decreases ps.len(),
{
    if ps.len() == 0 {
        Seq::empty()
    } else {
        let rest = keep_params(ps.drop_last(), param);
        if is_prefix(param + "="@, ps.last()) {
            rest
        } else {
            rest.push(ps.last())
        }
    }
}

/// Index of the first `?` of a URL, or its length.
pub open spec fn query_start(url: Seq<char>) -> int {
    crate::field::index_of_from(url, '?', 0)
}

/// The URL that switches to `code`: any earlier setting of `param` is
/// dropped from the query and the new one is appended.
pub open spec fn switch_url(url: Seq<char>, param: Seq<char>, code: Seq<char>) -> Seq<char> {
    let q = query_start(url);
    if q < url.len() {
        url.subrange(0, q) + "?"@ + joined(
            keep_params(split_from(url.subrange(q + 1, url.len() as int), '&', 0), param),
            "&"@,
        ) + "&"@ + param + "="@ + code
    } else {
        url + "?"@ + param + "="@ + code
    }
}

impl LanguageDetector {
    pub fn new(config: I18nConfig) -> (r: Self)
        ensures
            r.config() == config,
    {
        LanguageDetector { config }
    }

    pub closed spec fn config(&self) -> I18nConfig {
        self.config
    }

    /// Whether the settings list `language` as supported.
    pub fn is_language_supported(&self, language: &Language) -> (r: bool)
        ensures
            r == exists|i: int|
                0 <= i < self.config().supported_languages@.len() && same_lang(
                    #[trigger] self.config().supported_languages@[i],
                    *language,
                ),
    {
        let langs = &self.config.supported_languages;
        let mut i: usize = 0;
        while i < langs.len()
            invariant
                i <= langs@.len(),
                langs == &self.config().supported_languages,
                forall|j: int| 0 <= j < i ==> !same_lang(#[trigger] langs@[j], *language),
            decreases langs@.len() - i,
        {
            if same_language(&langs[i], language) {
                return true;
            }
            i = i + 1;
        }
        false
    }

    /// Each supported language with its display and native names.
    pub fn get_supported_languages(&self) -> (r: Vec<(Language, String, String)>)
        ensures
            r@.len() == self.config().supported_languages@.len(),
            forall|i: int|
                0 <= i < r@.len() ==> (#[trigger] r@[i]).0 == self.config().supported_languages@[i]
                    && r@[i].1@ == self.config().supported_languages@[i].spec_display_name()
                    && r@[i].2@ == self.config().supported_languages@[i].spec_native_name(),
    {
        let langs = &self.config.supported_languages;
        let mut out: Vec<(Language, String, String)> = Vec::new();
        let mut i: usize = 0;
        while i < langs.len()
            invariant
                i <= langs@.len(),
                langs == &self.config().supported_languages,
                out@.len() == i,
                forall|j: int|
                    0 <= j < i ==> (#[trigger] out@[j]).0 == langs@[j] && out@[j].1@
                        == langs@[j].spec_display_name() && out@[j].2@ == langs@[j].spec_native_name(),
            decreases langs@.len() - i,
        {
            let l = &langs[i];
            out.push((l.clone_language(), l.display_name().to_string(), l.native_name().to_string()));
            i = i + 1;
        }
        out
    }

    /// The cookie that remembers `language`.
    pub fn generate_lang_cookie(&self, language: &Language) -> (r: String)
        ensures
            r@ == self.config().cookie_name@ + "="@ + language.spec_code() + "; Max-Age="@
                + signed_decimal(self.config().cookie_max_age as int) + "; Path=/; HttpOnly; SameSite=Lax"@,
    {
        let mut s = self.config.cookie_name.clone();
        s.append("=");
        s.append(language.as_str());
        s.append("; Max-Age=");
        let age = crate::calc::signed_decimal_string(self.config.cookie_max_age);
        s.append(age.as_str());
        s.append("; Path=/; HttpOnly; SameSite=Lax");
        s
    }

    /// The URL that switches the page at `current_url` to `target`.
    pub fn generate_lang_switch_url(&self, current_url: &str, target: &Language) -> (r: String)
        ensures
            r@ == switch_url(current_url@, self.config().lang_param@, target.spec_code()),
    {
        let n = current_url.unicode_len();
        let mut q: usize = 0;
        while q < n && current_url.get_char(q) != '?'
            invariant
                q <= n,
                n == current_url@.len(),
                crate::field::index_of_from(current_url@, '?', 0) == crate::field::index_of_from(
                    current_url@,
                    '?',
                    q as int,
                ),
            decreases n - q,
        {
            q = q + 1;
        }
        let param = self.config.lang_param.as_str();
        if q < n {
            let query = current_url.substring_char(q + 1, n);
            let parts = split_char(query, '&');
            let ghost ps = split_from(query@, '&', 0);
            let mut prefix = param.to_string();
            prefix.append("=");
            let mut kept = String::new();
            let ghost mut kv: Seq<Seq<char>> = Seq::empty();
            let mut count: usize = 0;
            let mut i: usize = 0;
            while i < parts.len()
                invariant
                    i <= parts@.len(),
                    parts@.len() == ps.len(),
                    forall|j: int| 0 <= j < parts@.len() ==> #[trigger] parts@[j]@ == ps[j],
                    prefix@ == param@ + "="@,
                    kv == keep_params(ps.subrange(0, i as int), param@),
                    kept@ == joined(kv, "&"@),
                    count == kv.len(),
                    count <= i,
                decreases parts@.len() - i,
            {
                let is_lang = strip_prefix(parts[i].as_str(), prefix.as_str()).is_some();
                proof {
                    assert(ps.subrange(0, i + 1).drop_last() =~= ps.subrange(0, i as int));
                    assert(parts@[i as int]@ == ps[i as int]);
                }
                if !is_lang {
                    if count > 0 {
                        kept.append("&");
                    }
                    kept.append(parts[i].as_str());
                    count = count + 1;
                    proof {
                        let nk = kv.push(ps[i as int]);
                        assert(nk.drop_last() =~= kv);
                        kv = nk;
                    }
                }
                i = i + 1;
            }
            proof {
                assert(ps.subrange(0, i as int) =~= ps);
            }
            let mut url = current_url.substring_char(0, q).to_string();
            url.append("?");
            url.append(kept.as_str());
            url.append("&");
            url.append(param);
            url.append("=");
            url.append(target.as_str());
            url
        } else {
            let mut url = current_url.to_string();
            url.append("?");
            url.append(param);
            url.append("=");
            url.append(target.as_str());
            url
        }
    }
}

/// What templates see of the current language.
#[derive(Debug, Clone)]
pub struct I18nTemplateContext {
    pub current_language: Language,
    pub current_language_code: String,
    pub current_language_display: String,
    pub current_language_native: String,
    pub is_east_asian: bool,
    pub supported_languages: Vec<Language>,
}

impl I18nTemplateContext {
    pub fn new(language: Language, supported_languages: Vec<Language>) -> (r: Self)
        ensures
            r.current_language == language,
            r.current_language_code@ == language.spec_code(),
            r.current_language_display@ == language.spec_display_name(),
            r.current_language_native@ == language.spec_native_name(),
            r.is_east_asian == (language is Zh || language is ZhTw || language is Ja),
            r.supported_languages == supported_languages,
    {
        let code = language.as_str().to_string();
        let display = language.display_name().to_string();
        let native = language.native_name().to_string();
        let east = language.is_east_asian();
        I18nTemplateContext {
            current_language: language,
            current_language_code: code,
            current_language_display: display,
            current_language_native: native,
            is_east_asian: east,
            supported_languages,
        }
    }
}

/// Two settings values that agree field by field.
pub open spec fn same_config(a: I18nConfig, b: I18nConfig) -> bool {
    &&& a.default_language == b.default_language
    &&& a.supported_languages@ == b.supported_languages@
    &&& a.translations_path@ == b.translations_path@
    &&& a.auto_detect == b.auto_detect
    &&& a.allow_url_param == b.allow_url_param
    &&& a.lang_param@ == b.lang_param@
    &&& a.allow_cookie == b.allow_cookie
    &&& a.cookie_name@ == b.cookie_name@
    &&& a.cookie_max_age == b.cookie_max_age
}

impl I18nConfig {
    /// A copy of the settings.
    pub fn copy(&self) -> (r: I18nConfig)
        ensures
            same_config(r, *self),
    {
        let mut langs: Vec<Language> = Vec::new();
        let mut i: usize = 0;
        while i < self.supported_languages.len()
            invariant
                i <= self.supported_languages@.len(),
                langs@ == self.supported_languages@.subrange(0, i as int),
            decreases self.supported_languages@.len() - i,
        {
            langs.push(self.supported_languages[i].clone_language());
            i = i + 1;
            proof {
                assert(langs@ =~= self.supported_languages@.subrange(0, i as int));
            }
        }
        proof {
            assert(langs@ =~= self.supported_languages@);
        }
        I18nConfig {
            default_language: self.default_language.clone_language(),
            supported_languages: langs,
            translations_path: self.translations_path.clone(),
            auto_detect: self.auto_detect,
            allow_url_param: self.allow_url_param,
            lang_param: self.lang_param.clone(),
            allow_cookie: self.allow_cookie,
            cookie_name: self.cookie_name.clone(),
            cookie_max_age: self.cookie_max_age,
        }
    }
}

/// Attaches the language of each request, with the translations and the
/// settings, to the request's handling.
#[derive(Debug)]
pub struct I18nMiddleware {
    pub translations: Translations,
    pub detector: LanguageDetector,
    pub config: I18nConfig,
}

impl I18nMiddleware {
    pub fn new(translations: Translations, config: I18nConfig) -> (r: Self)
        ensures
            r.translations == translations,
            r.config == config,
            same_config(r.detector.config(), config),
    {
        let detector = LanguageDetector::new(config.copy());
        I18nMiddleware { translations, detector, config }
    }

    pub fn with_default_config(translations: Translations) -> (r: Self)
        ensures
            r.translations == translations,
            r.config.default_language is En,
            r.config.lang_param@ == "lang"@,
            same_config(r.detector.config(), r.config),
    {
        I18nMiddleware::new(translations, I18nConfig::default())
    }
}

/// Builds a middleware from the default settings, changed one by one.
#[derive(Debug)]
pub struct I18nMiddlewareBuilder {
    pub config: I18nConfig,
}

impl I18nMiddlewareBuilder {
    pub fn new() -> (r: Self)
        ensures
            r.config.default_language is En,
            r.config.supported_languages@.len() == 3,
            r.config.supported_languages@[0] is Zh,
            r.config.supported_languages@[1] is Ja,
            r.config.supported_languages@[2] is En,
            r.config.translations_path@ == "assets/translations"@,
            r.config.auto_detect,
            r.config.allow_url_param,
            r.config.lang_param@ == "lang"@,
            r.config.allow_cookie,
            r.config.cookie_name@ == "app_language"@,
            r.config.cookie_max_age == DEFAULT_COOKIE_MAX_AGE,
    {
        I18nMiddlewareBuilder { config: I18nConfig::default() }
    }

    pub fn default_language(self, language: Language) -> (r: Self)
        ensures
            r.config == (I18nConfig { default_language: language, ..self.config }),
    {
        let mut b = self;
        b.config.default_language = language;
        b
    }

    pub fn supported_languages(self, languages: Vec<Language>) -> (r: Self)
        ensures
            r.config == (I18nConfig { supported_languages: languages, ..self.config }),
    {
        let mut b = self;
        b.config.supported_languages = languages;
        b
    }

    pub fn translations_path(self, path: String) -> (r: Self)
        ensures
            r.config == (I18nConfig { translations_path: path, ..self.config }),
    {
        let mut b = self;
        b.config.translations_path = path;
        b
    }

    pub fn auto_detect(self, enabled: bool) -> (r: Self)
        ensures
            r.config == (I18nConfig { auto_detect: enabled, ..self.config }),
    {
        let mut b = self;
        b.config.auto_detect = enabled;
        b
    }

    pub fn allow_url_param(self, enabled: bool) -> (r: Self)
        ensures
            r.config == (I18nConfig { allow_url_param: enabled, ..self.config }),
    {
        let mut b = self;
        b.config.allow_url_param = enabled;
        b
    }

    pub fn lang_param(self, param: String) -> (r: Self)
        ensures
            r.config == (I18nConfig { lang_param: param, ..self.config }),
    {
        let mut b = self;
        b.config.lang_param = param;
        b
    }

    pub fn allow_cookie(self, enabled: bool) -> (r: Self)
        ensures
            r.config == (I18nConfig { allow_cookie: enabled, ..self.config }),
    {
        let mut b = self;
        b.config.allow_cookie = enabled;
        b
    }

    pub fn cookie_name(self, name: String) -> (r: Self)
        ensures
            r.config == (I18nConfig { cookie_name: name, ..self.config }),
    {
        let mut b = self;
        b.config.cookie_name = name;
        b
    }

    pub fn cookie_max_age(self, max_age: i64) -> (r: Self)
        ensures
            r.config == (I18nConfig { cookie_max_age: max_age, ..self.config }),
    {
        let mut b = self;
        b.config.cookie_max_age = max_age;
        b
    }

    /// A middleware with these settings and an empty translation store.
    pub fn build(self) -> (r: I18nMiddleware)
        ensures
            r.config == self.config,
            r.translations.table().len() == 0,
            same_config(r.translations.config(), self.config),
            same_config(r.detector.config(), self.config),
    {
        let translations = Translations::new(self.config.copy());
        I18nMiddleware::new(translations, self.config)
    }
}

// Picking a language from what a request carries.

/// Some supported language is the one that lower-cased code `lc` names.
pub open spec fn code_supported(langs: Seq<Language>, lc: Seq<char>) -> bool {
    exists|i: int| 0 <= i < langs.len() && Language::from_lowercase_ok(lc, #[trigger] langs[i])
}

/// The language a code names is supported exactly when some supported
/// language is named by that code.
proof fn lemma_supported_by_code(langs: Seq<Language>, lc: Seq<char>, l: Language)
    requires
        Language::from_lowercase_ok(lc, l),
    ensures
        (exists|i: int| 0 <= i < langs.len() && same_lang(#[trigger] langs[i], l)) == code_supported(langs, lc),
{
    if exists|i: int| 0 <= i < langs.len() && same_lang(#[trigger] langs[i], l) {
        let i = choose|i: int| 0 <= i < langs.len() && same_lang(#[trigger] langs[i], l);
        assert(Language::from_lowercase_ok(lc, langs[i]));
    }
    if code_supported(langs, lc) {
        let i = choose|i: int| 0 <= i < langs.len() && Language::from_lowercase_ok(lc, #[trigger] langs[i]);
        assert(same_lang(langs[i], l));
    }
}

/// What the query parameters `ps[i..]` select: the first parameter named
/// `param` whose value names a supported language; a parameter without `=`
/// ends the search with nothing.
pub open spec fn query_choice(
    langs: Seq<Language>,
    param: Seq<char>,
    ps: Seq<Seq<char>>,
    i: int,
    r: Option<Language>,
) -> bool
    decreases ps.len() - i,
{
    if i < 0 || i >= ps.len() {
        r is None
    } else {
        let p = ps[i];
        let k = crate::field::index_of_from(p, '=', 0);
        if k >= p.len() {
            r is None
        } else if p.subrange(0, k) == param && code_supported(
            langs,
            lower_of(p.subrange(k + 1, p.len() as int)),
        ) {
            r is Some && Language::from_lowercase_ok(lower_of(p.subrange(k + 1, p.len() as int)), r.unwrap())
        } else {
            query_choice(langs, param, ps, i + 1, r)
        }
    }
}

/// What the cookies `ps[i..]` select: the first cookie named `name` whose
/// value names a supported language; names and values are trimmed, and a
/// cookie without `=` ends the search with nothing.
pub open spec fn cookie_choice(
    langs: Seq<Language>,
    name: Seq<char>,
    ps: Seq<Seq<char>>,
    i: int,
    r: Option<Language>,
) -> bool
    decreases ps.len() - i,
{
    if i < 0 || i >= ps.len() {
        r is None
    } else {
        let p = trimmed(ps[i]);
        let k = crate::field::index_of_from(p, '=', 0);
        if k >= p.len() {
            r is None
        } else if trimmed(p.subrange(0, k)) == name && code_supported(
            langs,
            lower_of(trimmed(p.subrange(k + 1, p.len() as int))),
        ) {
            r is Some && Language::from_lowercase_ok(
                lower_of(trimmed(p.subrange(k + 1, p.len() as int))),
                r.unwrap(),
            )
        } else {
            cookie_choice(langs, name, ps, i + 1, r)
        }
    }
}

/// What the codes `cs[i..]`, best first, select: the first that names a
/// supported language.
pub open spec fn preference_choice(langs: Seq<Language>, cs: Seq<Seq<char>>, i: int, r: Option<Language>) -> bool
    decreases cs.len() - i,
{
    if i < 0 || i >= cs.len() {
        r is None
    } else if code_supported(langs, lower_of(trimmed(cs[i]))) {
        r is Some && Language::from_lowercase_ok(lower_of(trimmed(cs[i])), r.unwrap())
    } else {
        preference_choice(langs, cs, i + 1, r)
    }
}

/// Splits `s` at its first `=`.
fn split_at_eq(s: &str) -> (r: Option<(String, String)>)
    ensures
        crate::field::index_of_from(s@, '=', 0) >= s@.len() ==> r is None,
        crate::field::index_of_from(s@, '=', 0) < s@.len() ==> r is Some && r->Some_0.0@ == s@.subrange(
            0,
            crate::field::index_of_from(s@, '=', 0),
        ) && r->Some_0.1@ == s@.subrange(crate::field::index_of_from(s@, '=', 0) + 1, s@.len() as int),
{
    let n = s.unicode_len();
    let mut k: usize = 0;
    while k < n && s.get_char(k) != '='
        invariant
            k <= n,
            n == s@.len(),
            crate::field::index_of_from(s@, '=', 0) == crate::field::index_of_from(s@, '=', k as int),
        decreases n - k,
    {
        k = k + 1;
    }
    if k >= n {
        None
    } else {
        Some((s.substring_char(0, k).to_string(), s.substring_char(k + 1, n).to_string()))
    }
}

impl LanguageDetector {
    /// The supported language that a code names, if it names one.
    fn supported_language(&self, code: &str) -> (r: Option<Language>)
        ensures
            r is Some <==> code_supported(self.config().supported_languages@, lower_of(code@)),
            r is Some ==> Language::from_lowercase_ok(lower_of(code@), r.unwrap()),
    {
        let lang = Language::from_str(code);
        proof {
            lemma_supported_by_code(self.config().supported_languages@, lower_of(code@), lang);
        }
        if self.is_language_supported(&lang) {
            Some(lang)
        } else {
            None
        }
    }

    /// The language that a URL query string selects through the language
    /// parameter.
    pub fn detect_from_query(&self, query: &str) -> (r: Option<Language>)
        ensures
            query_choice(
                self.config().supported_languages@,
                self.config().lang_param@,
                split_from(query@, '&', 0),
                0,
                r,
            ),
    {
        let params = split_char(query, '&');
        let ghost ps = split_from(query@, '&', 0);
        let ghost langs = self.config().supported_languages@;
        let ghost param = self.config().lang_param@;
        let mut i: usize = 0;
        while i < params.len()
            invariant
                i <= params@.len(),
                params@.len() == ps.len(),
                ps == split_from(query@, '&', 0),
                langs == self.config().supported_languages@,
                param == self.config().lang_param@,
                forall|j: int| 0 <= j < params@.len() ==> #[trigger] params@[j]@ == ps[j],
                forall|r: Option<Language>|
                    query_choice(langs, param, ps, i as int, r) ==> #[trigger] query_choice(langs, param, ps, 0, r),
            decreases params@.len() - i,
        {
            proof {
                assert(params@[i as int]@ == ps[i as int]);
            }
            match split_at_eq(params[i].as_str()) {
                None => {
                    proof {
                        assert(query_choice(langs, param, ps, i as int, None));
                    }
                    return None;
                },
                Some((key, value)) => {
                    if key == self.config.lang_param {
                        if let Some(l) = self.supported_language(value.as_str()) {
                            proof {
                                assert(query_choice(langs, param, ps, i as int, Some(l)));
                            }
                            return Some(l);
                        }
                    }
                    proof {
                        assert forall|r: Option<Language>|
                            query_choice(langs, param, ps, i + 1, r) implies #[trigger] query_choice(
                                langs,
                                param,
                                ps,
                                0,
                                r,
                            ) by {
                            assert(query_choice(langs, param, ps, i as int, r));
                        }
                    }
                },
            }
            i = i + 1;
        }
        proof {
            assert(query_choice(langs, param, ps, i as int, None));
        }
        None
    }

    /// The language that a `Cookie` header selects through the language cookie.
    pub fn detect_from_cookie_header(&self, cookies: &str) -> (r: Option<Language>)
        ensures
            cookie_choice(
                self.config().supported_languages@,
                self.config().cookie_name@,
                split_from(cookies@, ';', 0),
                0,
                r,
            ),
    {
        let parts = split_char(cookies, ';');
        let ghost ps = split_from(cookies@, ';', 0);
        let ghost langs = self.config().supported_languages@;
        let ghost name = self.config().cookie_name@;
        let mut i: usize = 0;
        while i < parts.len()
            invariant
                i <= parts@.len(),
                parts@.len() == ps.len(),
                ps == split_from(cookies@, ';', 0),
                langs == self.config().supported_languages@,
                name == self.config().cookie_name@,
                forall|j: int| 0 <= j < parts@.len() ==> #[trigger] parts@[j]@ == ps[j],
                forall|r: Option<Language>|
                    cookie_choice(langs, name, ps, i as int, r) ==> #[trigger] cookie_choice(langs, name, ps, 0, r),
            decreases parts@.len() - i,
        {
            proof {
                assert(parts@[i as int]@ == ps[i as int]);
            }
            let cookie = trim(parts[i].as_str());
            match split_at_eq(cookie) {
                None => {
                    proof {
                        assert(cookie_choice(langs, name, ps, i as int, None));
                    }
                    return None;
                },
                Some((key, value)) => {
                    let key_t = trim(key.as_str()).to_string();
                    let value_t = trim(value.as_str());
                    if key_t == self.config.cookie_name {
                        if let Some(l) = self.supported_language(value_t) {
                            proof {
                                assert(cookie_choice(langs, name, ps, i as int, Some(l)));
                            }
                            return Some(l);
                        }
                    }
                    proof {
                        assert forall|r: Option<Language>|
                            cookie_choice(langs, name, ps, i + 1, r) implies #[trigger] cookie_choice(
                                langs,
                                name,
                                ps,
                                0,
                                r,
                            ) by {
                            assert(cookie_choice(langs, name, ps, i as int, r));
                        }
                    }
                },
            }
            i = i + 1;
        }
        proof {
            assert(cookie_choice(langs, name, ps, i as int, None));
        }
        None
    }

    /// The first of `codes`, listed best first, that names a supported
    /// language.
    pub fn first_supported(&self, codes: &Vec<String>) -> (r: Option<Language>)
        ensures
            preference_choice(self.config().supported_languages@, codes@.map_values(|c: String| c@), 0, r),
    {
        let ghost cs = codes@.map_values(|c: String| c@);
        let ghost langs = self.config().supported_languages@;
        let mut i: usize = 0;
        while i < codes.len()
            invariant
                i <= codes@.len(),
                cs == codes@.map_values(|c: String| c@),
                langs == self.config().supported_languages@,
                forall|r: Option<Language>|
                    preference_choice(langs, cs, i as int, r) ==> #[trigger] preference_choice(langs, cs, 0, r),
            decreases codes@.len() - i,
        {
            proof {
                assert(cs[i as int] == codes@[i as int]@);
            }
            let code = trim(codes[i].as_str());
            if let Some(l) = self.supported_language(code) {
                proof {
                    assert(preference_choice(langs, cs, i as int, Some(l)));
                }
                return Some(l);
            }
            proof {
                assert forall|r: Option<Language>|
                    preference_choice(langs, cs, i + 1, r) implies #[trigger] preference_choice(langs, cs, 0, r) by {
                    assert(preference_choice(langs, cs, i as int, r));
                }
            }
            i = i + 1;
        }
        proof {
            assert(preference_choice(langs, cs, i as int, None));
        }
        None
    }

    /// The request's language: the URL parameter, then the cookie, then the
    /// header's preferences, each only where the settings allow it, and
    /// otherwise the default language.
    pub fn choose_language(
        &self,
        from_url: Option<Language>,
        from_cookie: Option<Language>,
        from_header: Option<Language>,
    ) -> (r: Language)
        ensures
            r == (if self.config().allow_url_param && from_url is Some {
                from_url.unwrap()
            } else if self.config().allow_cookie && from_cookie is Some {
                from_cookie.unwrap()
            } else if self.config().auto_detect && from_header is Some {
                from_header.unwrap()
            } else {
                self.config().default_language
            }),
    {
        if self.config.allow_url_param {
            if let Some(l) = from_url {
                return l;
            }
        }
        if self.config.allow_cookie {
            if let Some(l) = from_cookie {
                return l;
            }
        }
        if self.config.auto_detect {
            if let Some(l) = from_header {
                return l;
            }
        }
        self.config.default_language.clone_language()
    }

    /// The language from the header's preferences, when detection is on.
    pub fn detect_from_headers_only(&self, codes: &Vec<String>) -> (r: Option<Language>)
        ensures
            !self.config().auto_detect ==> r is None,
            self.config().auto_detect ==> preference_choice(
                self.config().supported_languages@,
                codes@.map_values(|c: String| c@),
                0,
                r,
            ),
    {
        if !self.config.auto_detect {
            return None;
        }
        self.first_supported(codes)
    }

    /// The language from the cookie header, when cookies are allowed.
    pub fn detect_from_cookie_only(&self, cookies: &str) -> (r: Option<Language>)
        ensures
            !self.config().allow_cookie ==> r is None,
            self.config().allow_cookie ==> cookie_choice(
                self.config().supported_languages@,
                self.config().cookie_name@,
                split_from(cookies@, ';', 0),
                0,
                r,
            ),
    {
        if !self.config.allow_cookie {
            return None;
        }
        self.detect_from_cookie_header(cookies)
    }
}

// Translation files with categories.

/// A key/value list as character sequences.
pub open spec fn pairs(m: Seq<(String, String)>) -> Seq<(Seq<char>, Seq<char>)> {
    m.map_values(|e: (String, String)| (e.0@, e.1@))
}

/// Index of the first pair at or after `i` with key `k`, or the length.
pub open spec fn vfirst(m: Seq<(Seq<char>, Seq<char>)>, k: Seq<char>, i: int) -> int
    decreases m.len() - i,
{
    if i < 0 || i >= m.len() {
        m.len() as int
    } else if m[i].0 == k {
        i
    } else {
        vfirst(m, k, i + 1)
    }
}

/// Setting `k` to `v`: the first pair for `k` is replaced, or one is appended.
pub open spec fn vput(m: Seq<(Seq<char>, Seq<char>)>, k: Seq<char>, v: Seq<char>) -> Seq<
    (Seq<char>, Seq<char>),
> {
    if vfirst(m, k, 0) < m.len() {
        m.update(vfirst(m, k, 0), (k, v))
    } else {
        m.push((k, v))
    }
}

/// The value of the first pair for `k`.
pub open spec fn vget(m: Seq<(Seq<char>, Seq<char>)>, k: Seq<char>) -> Option<Seq<char>> {
    if vfirst(m, k, 0) < m.len() {
        Some(m[vfirst(m, k, 0)].1)
    } else {
        None
    }
}

proof fn lemma_vfirst_bounds(m: Seq<(Seq<char>, Seq<char>)>, k: Seq<char>, i: int)
    requires
        0 <= i <= m.len(),
    ensures
        i <= vfirst(m, k, i) <= m.len(),
        vfirst(m, k, i) < m.len() ==> m[vfirst(m, k, i)].0 == k,
    decreases m.len() - i,
{
    if i < m.len() && m[i].0 != k {
        lemma_vfirst_bounds(m, k, i + 1);
    }
}

/// Sets `k` to `v` in a key/value list.
fn put_pair(m: &mut Vec<(String, String)>, k: String, v: String)
    ensures
        pairs(final(m)@) == vput(pairs(old(m)@), k@, v@),
{
    let ghost p0 = pairs(m@);
    let mut i: usize = 0;
    while i < m.len()
        invariant
            i <= m@.len(),
            p0 == pairs(m@),
            p0 == pairs(old(m)@),
            vfirst(p0, k@, 0) == vfirst(p0, k@, i as int),
        decreases m@.len() - i,
    {
        if m[i].0 == k {
            proof {
                assert(p0[i as int].0 == k@);
                assert(vfirst(p0, k@, i as int) == i);
            }
            m.remove(i);
            m.insert(i, (k, v));
            proof {
                assert(pairs(m@) =~= p0.update(i as int, (k@, v@)));
            }
            return;
        }
        i = i + 1;
    }
    m.push((k, v));
    proof {
        assert(pairs(m@) =~= p0.push((k@, v@)));
    }
}

/// A category and its pairs, as character sequences.
pub open spec fn cats_view(c: Seq<(String, Vec<(String, String)>)>) -> Seq<(Seq<char>, Seq<(Seq<char>, Seq<char>)>)> {
    c.map_values(|e: (String, Vec<(String, String)>)| (e.0@, pairs(e.1@)))
}

/// Index of the first category at or after `i` named `c`, or the length.
pub open spec fn cfirst(cs: Seq<(Seq<char>, Seq<(Seq<char>, Seq<char>)>)>, c: Seq<char>, i: int) -> int
    decreases cs.len() - i,
{
    if i < 0 || i >= cs.len() {
        cs.len() as int
    } else if cs[i].0 == c {
        i
    } else {
        cfirst(cs, c, i + 1)
    }
}

/// Setting `k` to `v` in category `c`, which is added when missing.
pub open spec fn cput(
    cs: Seq<(Seq<char>, Seq<(Seq<char>, Seq<char>)>)>,
    c: Seq<char>,
    k: Seq<char>,
    v: Seq<char>,
) -> Seq<(Seq<char>, Seq<(Seq<char>, Seq<char>)>)> {
    let j = cfirst(cs, c, 0);
    if j < cs.len() {
        cs.update(j, (c, vput(cs[j].1, k, v)))
    } else {
        cs.push((c, seq![(k, v)]))
    }
}

/// The flat form: the uncategorised pairs, then each category's pairs under
/// keys `category.key`, later ones replacing earlier ones with the same key.
pub open spec fn flatten(
    base: Seq<(Seq<char>, Seq<char>)>,
    cs: Seq<(Seq<char>, Seq<(Seq<char>, Seq<char>)>)>,
) -> Seq<(Seq<char>, Seq<char>)>
    decreases cs.len(),
{
    if cs.len() == 0 {
        base
    } else {
        flatten_one(flatten(base, cs.drop_last()), cs.last().0, cs.last().1)
    }
}

pub open spec fn flatten_one(
    m: Seq<(Seq<char>, Seq<char>)>,
    c: Seq<char>,
    ps: Seq<(Seq<char>, Seq<char>)>,
) -> Seq<(Seq<char>, Seq<char>)>
    decreases ps.len(),
{
    if ps.len() == 0 {
        m
    } else {
        vput(flatten_one(m, c, ps.drop_last()), c + "."@ + ps.last().0, ps.last().1)
    }
}

/// Splitting a flat list: a key with a dot goes to the category before its
/// first dot, under the rest of the key; other keys stay uncategorised.
pub open spec fn unflatten(ps: Seq<(Seq<char>, Seq<char>)>) -> (Seq<(Seq<char>, Seq<(Seq<char>, Seq<char>)>)>, Seq<(Seq<char>, Seq<char>)>)
    decreases ps.len(),
{
    if ps.len() == 0 {
        (Seq::empty(), Seq::empty())
    } else {
        let (cs, rest) = unflatten(ps.drop_last());
        let (k, v) = ps.last();
        let d = crate::field::index_of_from(k, '.', 0);
        if d < k.len() {
            (cput(cs, k.subrange(0, d), k.subrange(d + 1, k.len() as int), v), rest)
        } else {
            (cs, vput(rest, k, v))
        }
    }
}

/// A language's translations, grouped into categories.
#[derive(Debug)]
pub struct TranslationFile {
    pub language: String,
    pub categories: Vec<(String, Vec<(String, String)>)>,
    pub translations: Option<Vec<(String, String)>>,
}

impl TranslationFile {
    pub fn new(language: String) -> (r: Self)
        ensures
            r.language == language,
            r.categories@.len() == 0,
            r.translations is None,
    {
        TranslationFile { language, categories: Vec::new(), translations: None }
    }

    /// Sets `key` to `value` in `category`.
    pub fn add_to_category(&mut self, category: &str, key: String, value: String)
        ensures
            final(self).language == old(self).language,
            final(self).translations == old(self).translations,
            cats_view(final(self).categories@) == cput(cats_view(old(self).categories@), category@, key@, value@),
    {
        let ghost c0 = cats_view(self.categories@);
        let mut i: usize = 0;
        while i < self.categories.len()
            invariant
                i <= self.categories@.len(),
                c0 == cats_view(self.categories@),
                c0 == cats_view(old(self).categories@),
                self.language == old(self).language,
                self.translations == old(self).translations,
                cfirst(c0, category@, 0) == cfirst(c0, category@, i as int),
            decreases self.categories@.len() - i,
        {
            if self.categories[i].0 == category.to_string() {
                proof {
                    assert(c0[i as int].0 == category@);
                    assert(cfirst(c0, category@, i as int) == i);
                }
                let (name, mut m) = self.categories.remove(i);
                put_pair(&mut m, key, value);
                self.categories.insert(i, (name, m));
                proof {
                    assert(cats_view(self.categories@) =~= cput(c0, category@, key@, value@));
                }
                return;
            }
            i = i + 1;
        }
        let mut m: Vec<(String, String)> = Vec::new();
        m.push((key, value));
        self.categories.push((category.to_string(), m));
        proof {
            assert(pairs(m@) =~= seq![(key@, value@)]);
            assert(cats_view(self.categories@) =~= cput(c0, category@, key@, value@));
        }
    }

    /// The value of `key` in `category`.
    pub fn get_from_category(&self, category: &str, key: &str) -> (r: Option<&String>)
        ensures
            ({
                let cs = cats_view(self.categories@);
                let j = cfirst(cs, category@, 0);
                &&& j >= cs.len() ==> r is None
                &&& j < cs.len() ==> match r {
                    Some(v) => vget(cs[j].1, key@) == Some(v@),
                    None => vget(cs[j].1, key@) is None,
                }
            }),
    {
        let ghost cs = cats_view(self.categories@);
        let cat = category.to_string();
        let k = key.to_string();
        let mut i: usize = 0;
        while i < self.categories.len()
            invariant
                i <= self.categories@.len(),
                cs == cats_view(self.categories@),
                cat@ == category@,
                k@ == key@,
                cfirst(cs, category@, 0) == cfirst(cs, category@, i as int),
            decreases self.categories@.len() - i,
        {
            if self.categories[i].0 == cat {
                let m = &self.categories[i].1;
                let ghost pm = pairs(m@);
                proof {
                    assert(cs[i as int].1 == pm);
                    assert(cs[i as int].0 == category@);
                    assert(cfirst(cs, category@, i as int) == i);
                }
                let mut j: usize = 0;
                while j < m.len()
                    invariant
                        j <= m@.len(),
                        pm == pairs(m@),
                        k@ == key@,
                        vfirst(pm, key@, 0) == vfirst(pm, key@, j as int),
                        i < cs.len(),
                        cs == cats_view(self.categories@),
                        cfirst(cs, category@, 0) == i,
                        cs[i as int].1 == pm,
                    decreases m@.len() - j,
                {
                    if m[j].0 == k {
                        proof {
                            assert(pm[j as int].0 == key@);
                            assert(vfirst(pm, key@, j as int) == j);
                            assert(pm[j as int].1 == m@[j as int].1@);
                            assert(vget(pm, key@) == Some(m@[j as int].1@));
                        }
                        return Some(&m[j].1);
                    }
                    j = j + 1;
                }
                return None;
            }
            i = i + 1;
        }
        None
    }

    /// All translations in flat form, categorised ones under `category.key`.
    pub fn to_flat_map(&self) -> (r: Vec<(String, String)>)
        ensures
            pairs(r@) == flatten(
                match self.translations {
                    Some(t) => pairs(t@),
                    None => Seq::empty(),
                },
                cats_view(self.categories@),
            ),
    {
        let mut flat: Vec<(String, String)> = Vec::new();
        match &self.translations {
            Some(t) => {
                let mut i: usize = 0;
                while i < t.len()
                    invariant
                        i <= t@.len(),
                        flat@.len() == i,
                        forall|j: int|
                            0 <= j < i ==> (#[trigger] flat@[j]).0@ == t@[j].0@ && flat@[j].1@ == t@[j].1@,
                    decreases t@.len() - i,
                {
                    flat.push((t[i].0.clone(), t[i].1.clone()));
                    i = i + 1;
                }
                proof {
                    assert(pairs(flat@) =~= pairs(t@));
                }
            },
            None => {
                proof {
                    assert(pairs(flat@) =~= Seq::empty());
                }
            },
        }
        let ghost base = pairs(flat@);
        let ghost cs = cats_view(self.categories@);
        let mut c: usize = 0;
        while c < self.categories.len()
            invariant
                c <= self.categories@.len(),
                cs == cats_view(self.categories@),
                pairs(flat@) == flatten(base, cs.subrange(0, c as int)),
            decreases self.categories@.len() - c,
        {
            let name = &self.categories[c].0;
            let m = &self.categories[c].1;
            let ghost before = pairs(flat@);
            let ghost pm = pairs(m@);
            let mut j: usize = 0;
            while j < m.len()
                invariant
                    j <= m@.len(),
                    pm == pairs(m@),
                    pairs(flat@) == flatten_one(before, name@, pm.subrange(0, j as int)),
                decreases m@.len() - j,
            {
                let mut fk = name.clone();
                fk.append(".");
                fk.append(m[j].0.as_str());
                put_pair(&mut flat, fk, m[j].1.clone());
                proof {
                    assert(pm.subrange(0, j + 1).drop_last() =~= pm.subrange(0, j as int));
                }
                j = j + 1;
            }
            proof {
                assert(pm.subrange(0, j as int) =~= pm);
                assert(cs.subrange(0, c + 1).drop_last() =~= cs.subrange(0, c as int));
                assert(cs[c as int] == (name@, pm));
            }
            c = c + 1;
        }
        proof {
            assert(cs.subrange(0, c as int) =~= cs);
        }
        flat
    }

    /// Groups a flat list by the part of each key before its first dot.
    pub fn from_flat_map(language: String, flat_map: Vec<(String, String)>) -> (r: Self)
        ensures
            r.language == language,
            cats_view(r.categories@) == unflatten(pairs(flat_map@)).0,
            unflatten(pairs(flat_map@)).1.len() == 0 ==> r.translations is None,
            unflatten(pairs(flat_map@)).1.len() > 0 ==> r.translations is Some && pairs(
                r.translations.unwrap()@,
            ) == unflatten(pairs(flat_map@)).1,
    {
        let mut file = TranslationFile::new(language);
        let mut remaining: Vec<(String, String)> = Vec::new();
        let ghost ps = pairs(flat_map@);
        let mut i: usize = 0;
        proof {
            assert(cats_view(file.categories@) =~= Seq::empty());
            assert(pairs(remaining@) =~= Seq::empty());
        }
        while i < flat_map.len()
            invariant
                i <= flat_map@.len(),
                ps == pairs(flat_map@),
                file.language == language,
                file.translations is None,
                cats_view(file.categories@) == unflatten(ps.subrange(0, i as int)).0,
                pairs(remaining@) == unflatten(ps.subrange(0, i as int)).1,
            decreases flat_map@.len() - i,
        {
            let key = flat_map[i].0.as_str();
            let value = flat_map[i].1.clone();
            let n = key.unicode_len();
            let mut d: usize = 0;
            while d < n && key.get_char(d) != '.'
                invariant
                    d <= n,
                    n == key@.len(),
                    crate::field::index_of_from(key@, '.', 0) == crate::field::index_of_from(key@, '.', d as int),
                decreases n - d,
            {
                d = d + 1;
            }
            proof {
                assert(ps.subrange(0, i + 1).drop_last() =~= ps.subrange(0, i as int));
                assert(ps.subrange(0, i + 1).last() == (key@, value@));
            }
            if d < n {
                let category = key.substring_char(0, d);
                let sub_key = key.substring_char(d + 1, n).to_string();
                file.add_to_category(category, sub_key, value);
            } else {
                put_pair(&mut remaining, key.to_string(), value);
            }
            i = i + 1;
        }
        proof {
            assert(ps.subrange(0, i as int) =~= ps);
        }
        if remaining.len() > 0 {
            file.translations = Some(remaining);
        }
        file
    }
}

} // verus!
