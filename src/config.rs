use vstd::prelude::*;
use crate::providers::str_eq;
use vstd::string::StringExecFns;

verus! {

/// Settings of one provider. `voice_mapping` pairs a language code with a
/// voice; each language occurs at most once.
#[derive(Debug, Clone)]
pub struct ProviderConfig {
    pub enabled: bool,
    pub api_key: Option<String>,
    pub endpoint: Option<String>,
    pub voice_mapping: Vec<(String, String)>,
}

/// User settings: defaults for requests and a table of provider settings
/// keyed by provider name, each name at most once.
#[derive(Debug, Clone)]
pub struct Config {
    pub default_provider: String,
    pub default_language: String,
    pub default_voice: Option<String>,
    pub cache_enabled: bool,
    pub providers: Vec<(String, ProviderConfig)>,
}

/// No key occurs twice among the entries.
pub open spec fn keys_unique<V>(entries: Seq<(String, V)>) -> bool {
    forall|i: int, j: int|
        0 <= i < entries.len() && 0 <= j < entries.len() && i != j ==> (#[trigger] entries[i]).0@
            != (#[trigger] entries[j]).0@
}

/// The value stored under `key`, if any.
pub open spec fn lookup<V>(entries: Seq<(String, V)>, key: Seq<char>) -> Option<V> {
    if exists|i: int| 0 <= i < entries.len() && (#[trigger] entries[i]).0@ == key {
        let i = choose|i: int| 0 <= i < entries.len() && (#[trigger] entries[i]).0@ == key;
        Some(entries[i].1)
    } else {
        None
    }
}

impl ProviderConfig {
    pub open spec fn wf(&self) -> bool {
        keys_unique(self.voice_mapping@)
    }
}

impl Config {
    pub open spec fn wf(&self) -> bool {
        &&& keys_unique(self.providers@)
        &&& forall|i: int| 0 <= i < self.providers@.len() ==> (#[trigger] self.providers@[i]).1.wf()
    }

    /// The settings of the named provider, if the table has them.
    pub fn get_provider_config(&self, provider: &str) -> (r: Option<&ProviderConfig>)
        requires
            self.wf(),
        ensures
            match r {
                Some(c) => lookup(self.providers@, provider@) == Some(*c),
                None => lookup(self.providers@, provider@) is None,
            },
    {
        let mut i: usize = 0;
        while i < self.providers.len()
            invariant
                i <= self.providers@.len(),
                self.wf(),
                forall|j: int| 0 <= j < i ==> (#[trigger] self.providers@[j]).0@ != provider@,
            decreases self.providers@.len() - i,
        {
            if str_eq(self.providers[i].0.as_str(), provider) {
                proof {
                    lemma_lookup_at(self.providers@, i as int);
                }
                return Some(&self.providers[i].1);
            }
            i = i + 1;
        }
        None
    }

    /// The voice that the named provider maps a language to, if any.
    pub fn get_voice_for_language(&self, provider: &str, language: &str) -> (r: Option<String>)
        requires
            self.wf(),
        ensures
            match lookup(self.providers@, provider@) {
                None => r is None,
                Some(c) => match lookup(c.voice_mapping@, language@) {
                    None => r is None,
                    Some(v) => r matches Some(s) && s@ == v@,
                },
            },
    {
        let c = self.get_provider_config(provider);
        match c {
            None => None,
            Some(c) => {
                proof {
                    lemma_lookup_wf(self.providers@, provider@);
                }
                let mut i: usize = 0;
                while i < c.voice_mapping.len()
                    invariant
                        i <= c.voice_mapping@.len(),
                        c.wf(),
                        lookup(self.providers@, provider@) == Some(*c),
                        forall|j: int|
                            0 <= j < i ==> (#[trigger] c.voice_mapping@[j]).0@ != language@,
                    decreases c.voice_mapping@.len() - i,
                {
                    if str_eq(c.voice_mapping[i].0.as_str(), language) {
                        proof {
                            lemma_lookup_at(c.voice_mapping@, i as int);
                        }
                        return Some(c.voice_mapping[i].1.clone());
                    }
                    i = i + 1;
                }
                None
            },
        }
    }
}

/// The provider names of the default table, in order.
pub open spec fn default_provider_names() -> Seq<Seq<char>> {
    seq!["gcloud"@, "espeak"@, "festival"@, "say"@]
}

/// The default language-to-voice table of the cloud provider.
pub open spec fn default_cloud_voices() -> Seq<(Seq<char>, Seq<char>)> {
    seq![
        ("en-US"@, "en-US-Wavenet-D"@),
        ("es-ES"@, "es-ES-Wavenet-C"@),
        ("fr-FR"@, "fr-FR-Wavenet-D"@),
        ("de-DE"@, "de-DE-Wavenet-D"@),
    ]
}

/// The text of each pair of strings.
pub open spec fn pair_views(v: Seq<(String, String)>) -> Seq<(Seq<char>, Seq<char>)> {
    v.map_values(|p: (String, String)| (p.0@, p.1@))
}

fn pair(a: &str, b: &str) -> (r: (String, String))
    ensures
        r.0@ == a@,
        r.1@ == b@,
{
    (String::from_str(a), String::from_str(b))
}

fn plain_provider() -> (r: ProviderConfig)
    ensures
        r.enabled,
        r.api_key is None,
        r.endpoint is None,
        r.voice_mapping@.len() == 0,
{
    ProviderConfig { enabled: true, api_key: None, endpoint: None, voice_mapping: Vec::new() }
}

impl Default for Config {
    /// Cloud provider and US English by default, caching on, and all four
    /// providers enabled; only the cloud provider maps languages to voices.
    fn default() -> (r: Config)
        ensures
            r.wf(),
            r.default_provider@ == "gcloud"@,
            r.default_language@ == "en-US"@,
            r.default_voice is None,
            r.cache_enabled,
            r.providers@.len() == 4,
            forall|i: int|
                0 <= i < 4 ==> {
                    &&& (#[trigger] r.providers@[i]).0@ == default_provider_names()[i]
                    &&& r.providers@[i].1.enabled
                    &&& r.providers@[i].1.api_key is None
                    &&& r.providers@[i].1.endpoint is None
                },
            pair_views(r.providers@[0].1.voice_mapping@) == default_cloud_voices(),
            r.providers@[1].1.voice_mapping@.len() == 0,
            r.providers@[2].1.voice_mapping@.len() == 0,
            r.providers@[3].1.voice_mapping@.len() == 0,
    {
        let mut voices: Vec<(String, String)> = Vec::new();
        voices.push(pair("en-US", "en-US-Wavenet-D"));
        voices.push(pair("es-ES", "es-ES-Wavenet-C"));
        voices.push(pair("fr-FR", "fr-FR-Wavenet-D"));
        voices.push(pair("de-DE", "de-DE-Wavenet-D"));
        let cloud = ProviderConfig { enabled: true, api_key: None, endpoint: None, voice_mapping: voices };
        let mut providers: Vec<(String, ProviderConfig)> = Vec::new();
        providers.push((String::from_str("gcloud"), cloud));
        providers.push((String::from_str("espeak"), plain_provider()));
        providers.push((String::from_str("festival"), plain_provider()));
        providers.push((String::from_str("say"), plain_provider()));
        proof {
            reveal_strlit("gcloud");
            reveal_strlit("espeak");
            reveal_strlit("festival");
            reveal_strlit("say");
            reveal_strlit("en-US");
            reveal_strlit("es-ES");
            reveal_strlit("fr-FR");
            reveal_strlit("de-DE");
            assert(pair_views(voices@) =~= default_cloud_voices());
            assert("gcloud"@[0] != "espeak"@[0]);
            assert("en-US"@[1] != "es-ES"@[1]);
            assert("en-US"@[0] != "fr-FR"@[0]);
            assert("en-US"@[0] != "de-DE"@[0]);
            assert("es-ES"@[0] != "fr-FR"@[0]);
            assert("es-ES"@[0] != "de-DE"@[0]);
            assert("fr-FR"@[0] != "de-DE"@[0]);
            assert(keys_unique(voices@));
            let names = seq![providers@[0].0@, providers@[1].0@, providers@[2].0@, providers@[3].0@];
            assert(names =~= default_provider_names());
            assert("gcloud"@.len() == 6 && "espeak"@.len() == 6 && "festival"@.len() == 8 && "say"@.len() == 3);
            assert forall|i: int, j: int|
                0 <= i < 4 && 0 <= j < 4 && i != j implies (#[trigger] providers@[i]).0@
                    != (#[trigger] providers@[j]).0@ by {
                assert(providers@[i].0@ == names[i]);
                assert(providers@[j].0@ == names[j]);
            }
            assert(keys_unique(providers@));
        }
        Config {
            default_provider: String::from_str("gcloud"),
            default_language: String::from_str("en-US"),
            default_voice: None,
            cache_enabled: true,
            providers,
        }
    }
}

proof fn lemma_lookup_at<V>(entries: Seq<(String, V)>, i: int)
    requires
        keys_unique(entries),
        0 <= i < entries.len(),
    ensures
        lookup(entries, entries[i].0@) == Some(entries[i].1),
{
    let key = entries[i].0@;
    assert(exists|k: int| 0 <= k < entries.len() && (#[trigger] entries[k]).0@ == key);
    let k = choose|k: int| 0 <= k < entries.len() && (#[trigger] entries[k]).0@ == key;
    assert(k == i);
}

proof fn lemma_lookup_wf(providers: Seq<(String, ProviderConfig)>, key: Seq<char>)
    requires
        forall|i: int| 0 <= i < providers.len() ==> (#[trigger] providers[i]).1.wf(),
        lookup(providers, key) is Some,
    ensures
        lookup(providers, key).unwrap().wf(),
{
    let k = choose|k: int| 0 <= k < providers.len() && (#[trigger] providers[k]).0@ == key;
    assert(providers[k].1.wf());
}

} // verus!
