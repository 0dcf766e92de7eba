//! Localisation: dictionaries per language, read from JSON, and lookup
//! with a fallback to English and then to the key itself.

use vstd::prelude::*;
use crate::text::owned;

verus! {

/// The members of the JSON object that `text` holds, in the order serde_json
/// hands them out, each with its value when that value is a JSON string;
/// `None` when `text` is not a JSON object.
pub uninterp spec fn json_object_members(text: Seq<char>) -> Option<Seq<(Seq<char>, Option<Seq<char>>)>>;

/// Parses `text` as JSON and lists the members of the object it holds.
/// Trusted: `serde_json::from_str::<serde_json::Value>`, its members read
/// with `Value::as_str`. The result is named (`json_object_members`): it is a
/// function of the text alone, and the JSON grammar is not restated here.
#[verifier::external_body]
fn parse_json_object(text: &str) -> (r: Option<Vec<(String, Option<String>)>>)
    ensures
        r.deep_view() == json_object_members(text@),
{
    match serde_json::from_str::<serde_json::Value>(text) {
        Ok(serde_json::Value::Object(map)) => Some(
            map.into_iter().map(|(k, v)| (k, v.as_str().map(|s| s.to_string()))).collect(),
        ),
        _ => None,
    }
}

/// The value of the last entry with key `k`: what a map built by inserting
/// the entries in order holds at `k`.
pub open spec fn last_value<V>(entries: Seq<(Seq<char>, V)>, k: Seq<char>) -> Option<V>
    decreases entries.len(),
{
    if entries.len() == 0 {
        None
    } else if entries.last().0 == k {
        Some(entries.last().1)
    } else {
        last_value(entries.drop_last(), k)
    }
}

/// The members whose value is a string.
pub open spec fn string_members(members: Seq<(Seq<char>, Option<Seq<char>>)>) -> Seq<(Seq<char>, Seq<char>)>
    decreases members.len(),
{
    if members.len() == 0 {
        seq![]
    } else {
        let rest = string_members(members.drop_last());
        match members.last().1 {
            Some(v) => rest.push((members.last().0, v)),
            None => rest,
        }
    }
}

/// The dictionaries made from parsed sources: one per `(language, members)`
/// pair whose text held a JSON object, keeping its string members.
pub open spec fn locales_from(
    parsed: Seq<(Seq<char>, Option<Seq<(Seq<char>, Option<Seq<char>>)>>)>,
) -> Seq<(Seq<char>, Seq<(Seq<char>, Seq<char>)>)>
    decreases parsed.len(),
{
    if parsed.len() == 0 {
        seq![]
    } else {
        let rest = locales_from(parsed.drop_last());
        match parsed.last().1 {
            Some(members) => rest.push((parsed.last().0, string_members(members))),
            None => rest,
        }
    }
}

/// The `(language, JSON text)` sources with each text parsed.
pub open spec fn parse_sources(
    sources: Seq<(Seq<char>, Seq<char>)>,
) -> Seq<(Seq<char>, Option<Seq<(Seq<char>, Option<Seq<char>>)>>)> {
    sources.map_values(|src: (Seq<char>, Seq<char>)| (src.0, json_object_members(src.1)))
}

/// The dictionaries read from `(language, JSON text)` sources: one per
/// source that holds a JSON object.
pub open spec fn spec_build_locales(sources: Seq<(Seq<char>, Seq<char>)>) -> Seq<(Seq<char>, Seq<(Seq<char>, Seq<char>)>)> {
    locales_from(parse_sources(sources))
}

/// What `t` gives: the active language's entry, else the English entry,
/// else the key itself.
pub open spec fn spec_translate(
    locales: Seq<(Seq<char>, Seq<(Seq<char>, Seq<char>)>)>,
    active: Seq<char>,
    key: Seq<char>,
) -> Seq<char> {
    let in_active = match last_value(locales, active) {
        Some(d) => last_value(d, key),
        None => None,
    };
    let in_english = match last_value(locales, "en"@) {
        Some(d) => last_value(d, key),
        None => None,
    };
    match in_active {
        Some(v) => v,
        None => match in_english {
            Some(v) => v,
            None => key,
        },
    }
}

/// The index of the last entry with key `key`.
fn find_last<V: DeepView>(entries: &Vec<(String, V)>, key: &str) -> (r: Option<usize>)
    ensures
        match r {
            Some(i) => i < entries@.len()
                && last_value(entries.deep_view(), key@) == Some(entries.deep_view()[i as int].1),
            None => last_value(entries.deep_view(), key@) is None,
        },
{
    let k = owned(key);
    let ghost s = entries.deep_view();
    let mut i: usize = entries.len();
    assert(s.subrange(0, i as int) =~= s);
    while i > 0
        invariant
            i <= entries@.len(),
            s == entries.deep_view(),
            k@ == key@,
            last_value(s, key@) == last_value(s.subrange(0, i as int), key@),
        decreases i,
    {
        assert(s.subrange(0, i as int).last() == s[i - 1]);
        assert(s.subrange(0, i as int).drop_last() =~= s.subrange(0, i - 1));
        if entries[i - 1].0 == k {
            return Some(i - 1);
        }
        i = i - 1;
    }
    None
}

/// The dictionaries of several languages and the language in use.
pub struct I18nEngine {
    locales: Vec<(String, Vec<(String, String)>)>,
    active_lang: String,
}

impl I18nEngine {
    /// The dictionaries: for each language, its `(key, text)` entries; a
    /// later entry for the same language or key takes precedence.
    pub closed spec fn spec_locales(&self) -> Seq<(Seq<char>, Seq<(Seq<char>, Seq<char>)>)> {
        self.locales.deep_view()
    }

    /// The language in use.
    pub closed spec fn spec_active(&self) -> Seq<char> {
        self.active_lang@
    }

    /// Reads one dictionary per `(language, JSON text)` source whose text is
    /// a JSON object, keeping its string members; English is active.
    pub fn new(sources: &Vec<(String, String)>) -> (e: I18nEngine)
        ensures
            e.spec_locales() == spec_build_locales(sources.deep_view()),
            e.spec_active() == "en"@,
    {
        let ghost srcs = sources.deep_view();
        let mut parsed: Vec<(String, Option<Vec<(String, Option<String>)>>)> = Vec::new();
        let mut i: usize = 0;
        while i < sources.len()
            invariant
                i <= sources@.len(),
                srcs == sources.deep_view(),
                parsed.deep_view() == parse_sources(srcs).subrange(0, i as int),
            decreases sources@.len() - i,
        {
            let ghost before = parsed.deep_view();
            let members = parse_json_object(sources[i].1.as_str());
            let lang = sources[i].0.clone();
            assert(parse_sources(srcs)[i as int] == (lang@, members.deep_view()));
            parsed.push((lang, members));
            assert(parsed.deep_view() =~= before.push(parse_sources(srcs)[i as int]));
            assert(parsed.deep_view() =~= parse_sources(srcs).subrange(0, i + 1));
            i = i + 1;
        }
        assert(parse_sources(srcs).subrange(0, sources@.len() as int) =~= parse_sources(srcs));
        I18nEngine::from_parsed(&parsed)
    }

    /// The engine over already parsed sources: for each `(language,
    /// members)` pair whose members were read, a dictionary of the members
    /// whose value is a string; English is active.
    pub fn from_parsed(parsed: &Vec<(String, Option<Vec<(String, Option<String>)>>)>) -> (e: I18nEngine)
        ensures
            e.spec_locales() == locales_from(parsed.deep_view()),
            e.spec_active() == "en"@,
    {
        let ghost ps = parsed.deep_view();
        let mut locales: Vec<(String, Vec<(String, String)>)> = Vec::new();
        let mut i: usize = 0;
        assert(ps.subrange(0, 0) =~= Seq::<(Seq<char>, Option<Seq<(Seq<char>, Option<Seq<char>>)>>)>::empty());
        while i < parsed.len()
            invariant
                i <= parsed@.len(),
                ps == parsed.deep_view(),
                locales.deep_view() == locales_from(ps.subrange(0, i as int)),
            decreases parsed@.len() - i,
        {
            assert(ps.subrange(0, i + 1).drop_last() =~= ps.subrange(0, i as int));
            assert(ps.subrange(0, i + 1).last() == ps[i as int]);
            match &parsed[i].1 {
                Some(members) => {
                    let dict = keep_string_members(members);
                    locales.push((parsed[i].0.clone(), dict));
                    assert(locales.deep_view() =~= locales_from(ps.subrange(0, i + 1)));
                },
                None => {},
            }
            i = i + 1;
        }
        assert(ps.subrange(0, parsed@.len() as int) =~= ps);
        I18nEngine { locales, active_lang: owned("en") }
    }

    /// Makes `lang` the language in use when there is a dictionary for it;
    /// otherwise nothing changes.
    pub fn set_language(&mut self, lang: &str)
        ensures
            final(self).spec_locales() == old(self).spec_locales(),
            final(self).spec_active() == (if last_value(old(self).spec_locales(), lang@) is Some {
                lang@
            } else {
                old(self).spec_active()
            }),
    {
        match find_last(&self.locales, lang) {
            Some(_) => {
                self.active_lang = owned(lang);
            },
            None => {},
        }
    }

    /// The language in use.
    pub fn get_language(&self) -> (r: &str)
        ensures
            r@ == self.spec_active(),
    {
        self.active_lang.as_str()
    }

    /// The text for `key`: from the language in use, else from English, else
    /// the key itself.
    pub fn t(&self, key: &str) -> (r: String)
        ensures
            r@ == spec_translate(self.spec_locales(), self.spec_active(), key@),
    {
        proof { reveal_strlit("en"); }
        match find_last(&self.locales, self.active_lang.as_str()) {
            Some(li) => {
                match find_last(&self.locales[li].1, key) {
                    Some(ki) => {
                        return self.locales[li].1[ki].1.clone();
                    },
                    None => {},
                }
            },
            None => {},
        }
        match find_last(&self.locales, "en") {
            Some(ei) => {
                match find_last(&self.locales[ei].1, key) {
                    Some(ki) => {
                        return self.locales[ei].1[ki].1.clone();
                    },
                    None => {},
                }
            },
            None => {},
        }
        owned(key)
    }
}

/// The members whose value is a string, with that string.
fn keep_string_members(members: &Vec<(String, Option<String>)>) -> (r: Vec<(String, String)>)
    ensures
        r.deep_view() == string_members(members.deep_view()),
{
    let ghost m = members.deep_view();
    let mut r: Vec<(String, String)> = Vec::new();
    let mut i: usize = 0;
    assert(m.subrange(0, 0) =~= Seq::<(Seq<char>, Option<Seq<char>>)>::empty());
    while i < members.len()
        invariant
            i <= members@.len(),
            m == members.deep_view(),
            r.deep_view() == string_members(m.subrange(0, i as int)),
        decreases members@.len() - i,
    {
        assert(m.subrange(0, i + 1).drop_last() =~= m.subrange(0, i as int));
        assert(m.subrange(0, i + 1).last() == m[i as int]);
        match &members[i].1 {
            Some(v) => {
                r.push((members[i].0.clone(), v.clone()));
                assert(r.deep_view() =~= string_members(m.subrange(0, i + 1)));
            },
            None => {},
        }
        i = i + 1;
    }
    assert(m.subrange(0, members@.len() as int) =~= m);
    r
}

/// Choosing a language that has a dictionary makes `t` answer from that
/// dictionary for every key it holds.
pub proof fn lemma_translate_after_set(
    locales: Seq<(Seq<char>, Seq<(Seq<char>, Seq<char>)>)>,
    lang: Seq<char>,
    key: Seq<char>,
)
    requires
        last_value(locales, lang) is Some,
        last_value(last_value(locales, lang)->0, key) is Some,
    ensures
        spec_translate(locales, lang, key) == last_value(last_value(locales, lang)->0, key)->0,
{
}

/// A key that no dictionary holds is its own translation.
pub proof fn lemma_unknown_key(
    locales: Seq<(Seq<char>, Seq<(Seq<char>, Seq<char>)>)>,
    active: Seq<char>,
    key: Seq<char>,
)
    requires
        forall|i: int| 0 <= i < locales.len() ==> last_value(#[trigger] locales[i].1, key) is None,
    ensures
        spec_translate(locales, active, key) == key,
{
    lemma_last_value_in(locales, active);
    lemma_last_value_in(locales, "en"@);
}

/// A value found by `last_value` is the value of one of the entries.
pub proof fn lemma_last_value_in<V>(entries: Seq<(Seq<char>, V)>, k: Seq<char>)
    ensures
        last_value(entries, k) is Some ==> exists|i: int|
            0 <= i < entries.len() && #[trigger] entries[i].1 == last_value(entries, k)->0,
    decreases entries.len(),
{
    if entries.len() > 0 && entries.last().0 != k {
        lemma_last_value_in(entries.drop_last(), k);
        if last_value(entries, k) is Some {
            let i = choose|i: int| 0 <= i < entries.drop_last().len()
                && #[trigger] entries.drop_last()[i].1 == last_value(entries.drop_last(), k)->0;
            assert(entries[i].1 == entries.drop_last()[i].1);
        }
    } else if entries.len() > 0 {
        assert(entries[entries.len() - 1].1 == last_value(entries, k)->0);
    }
}

} // verus!
