use vstd::prelude::*;
use crate::error::TtsError;
use vstd::string::StringExecFns;

verus! {

/// The closed set of synthesis backends.
#[derive(PartialEq, Eq, Structural, Clone, Copy, Debug)]
pub enum Provider {
    Gcloud,
    Espeak,
    Festival,
    Say,
}

impl Provider {
    pub open spec fn spec_name(self) -> Seq<char> {
        match self {
            Provider::Gcloud => "gcloud"@,
            Provider::Espeak => "espeak"@,
            Provider::Festival => "festival"@,
            Provider::Say => "say"@,
        }
    }

    pub open spec fn spec_description(self) -> Seq<char> {
        match self {
            Provider::Gcloud => "Google Cloud Text-to-Speech API"@,
            Provider::Espeak => "eSpeak TTS engine"@,
            Provider::Festival => "Festival TTS engine"@,
            Provider::Say => "macOS built-in TTS"@,
        }
    }

    /// The identifier by which requests name this provider.
    pub fn name(&self) -> (r: &'static str)
        ensures
            r@ == self.spec_name(),
    {
        match self {
            Provider::Gcloud => "gcloud",
            Provider::Espeak => "espeak",
            Provider::Festival => "festival",
            Provider::Say => "say",
        }
    }

    /// A human-readable description of the backend.
    pub fn description(&self) -> (r: &'static str)
        ensures
            r@ == self.spec_description(),
    {
        match self {
            Provider::Gcloud => "Google Cloud Text-to-Speech API",
            Provider::Espeak => "eSpeak TTS engine",
            Provider::Festival => "Festival TTS engine",
            Provider::Say => "macOS built-in TTS",
        }
    }

    /// The provider whose identifier is `name`, if there is one.
    pub fn from_name(name: &str) -> (r: Option<Provider>)
        ensures
            match r {
                Some(p) => p.spec_name() == name@,
                None => forall|p: Provider| p.spec_name() != name@,
            },
    {
        if str_eq(name, "gcloud") {
            Some(Provider::Gcloud)
        } else if str_eq(name, "espeak") {
            Some(Provider::Espeak)
        } else if str_eq(name, "festival") {
            Some(Provider::Festival)
        } else if str_eq(name, "say") {
            Some(Provider::Say)
        } else {
            proof {
                assert forall|p: Provider| p.spec_name() != name@ by {
                    match p {
                        Provider::Gcloud => {},
                        Provider::Espeak => {},
                        Provider::Festival => {},
                        Provider::Say => {},
                    }
                }
            }
            None
        }
    }
}

/// Distinct providers have distinct identifiers.
pub proof fn lemma_names_distinct(p: Provider, q: Provider)
    requires
        p != q,
    ensures
        p.spec_name() != q.spec_name(),
{
    reveal_strlit("gcloud");
    reveal_strlit("espeak");
    reveal_strlit("festival");
    reveal_strlit("say");
    if p.spec_name() == q.spec_name() {
        match (p, q) {
            (Provider::Gcloud, Provider::Espeak) => assert(p.spec_name()[0] != q.spec_name()[0]),
            (Provider::Espeak, Provider::Gcloud) => assert(p.spec_name()[0] != q.spec_name()[0]),
            _ => assert(p.spec_name().len() != q.spec_name().len()),
        }
    }
}

/// Whether two strings hold the same text.
pub fn str_eq(a: &str, b: &str) -> (r: bool)
    ensures
        r == (a@ == b@),
{
    let x = a.to_owned();
    let y = b.to_owned();
    x == y
}

/// The catalog resolves a name to a provider, or fails with an unknown-provider error.
pub fn resolve_provider(name: &str) -> (r: Result<Provider, TtsError>)
    ensures
        match r {
            Ok(p) => p.spec_name() == name@,
            Err(TtsError::UnknownProvider(n)) => n@ == name@ && forall|p: Provider|
                p.spec_name() != name@,
            Err(_) => false,
        },
{
    match Provider::from_name(name) {
        Some(p) => Ok(p),
        None => Err(TtsError::UnknownProvider(String::from_str(name))),
    }
}

/// A catalog entry: a backend's identifier, description, and whether its
/// probe found it usable.
#[derive(Debug, Clone)]
pub struct TtsProvider {
    pub name: String,
    pub description: String,
    pub available: bool,
}

/// The catalog's fixed order.
pub open spec fn catalog_order() -> Seq<Provider> {
    seq![Provider::Gcloud, Provider::Espeak, Provider::Festival, Provider::Say]
}

fn descriptor(p: Provider, available: bool) -> (r: TtsProvider)
    ensures
        r.name@ == p.spec_name(),
        r.description@ == p.spec_description(),
        r.available == available,
{
    TtsProvider {
        name: String::from_str(p.name()),
        description: String::from_str(p.description()),
        available,
    }
}

/// The catalog of the four backends, in its fixed order, each with the
/// outcome of its availability probe.
pub fn get_available_providers(gcloud: bool, espeak: bool, festival: bool, say: bool) -> (r: Vec<
    TtsProvider,
>)
    ensures
        r@.len() == 4,
        forall|i: int|
            0 <= i < 4 ==> r@[i].name@ == catalog_order()[i].spec_name() && r@[i].description@
                == catalog_order()[i].spec_description(),
        r@[0].available == gcloud,
        r@[1].available == espeak,
        r@[2].available == festival,
        r@[3].available == say,
{
    let mut r: Vec<TtsProvider> = Vec::new();
    r.push(descriptor(Provider::Gcloud, gcloud));
    r.push(descriptor(Provider::Espeak, espeak));
    r.push(descriptor(Provider::Festival, festival));
    r.push(descriptor(Provider::Say, say));
    r
}

} // verus!
