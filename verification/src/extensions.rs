//! Session extension providers: pluggable observers of session lifecycles,
//! told of the start of sessions that carry their key among the session's
//! extensions, and of every session's end. A provider's failure never
//! affects the session.
use vstd::prelude::*;
use crate::text::{owned, str_eq, texts};

verus! {

#[derive(Debug)]
pub enum ExtensionError {
    Internal(String),
}

impl ExtensionError {
    /// The error as a message: `extension error: <detail>`.
    pub fn message(&self) -> (r: String)
        ensures
            match self {
                ExtensionError::Internal(msg) => r@ == "extension error: "@ + msg@,
            },
    {
        match self {
            ExtensionError::Internal(msg) => {
                let mut out = String::from_str("extension error: ");
                out.append(msg.as_str());
                out
            },
        }
    }
}

#[derive(Debug, Clone, Copy, PartialEq, Eq, Structural)]
pub enum SessionOutcome {
    Resolved,
    Expired,
}

/// A pluggable session extension provider, implemented by the embedding
/// application. Its errors are reported and never fatal to the session.
pub trait SessionExtensionProvider {
    /// The extension key the provider handles.
    fn key(&self) -> &str;

    fn on_session_start(&self, session_id: &str, extensions: &Vec<(String, Vec<u8>)>) -> Result<
        (),
        ExtensionError,
    >;

    fn on_session_terminal(&self, session_id: &str, outcome: SessionOutcome) -> Result<(), ExtensionError>;
}

/// The providers, in registration order, each with the extension key it
/// gave when it was registered.
pub struct ExtensionProviderRegistry<P: SessionExtensionProvider> {
    providers: Vec<P>,
    keys: Vec<String>,
}

/// How many of the keys name one of the extensions.
pub open spec fn told_count(keys: Seq<Seq<char>>, extensions: Seq<(String, Vec<u8>)>) -> nat
    decreases keys.len(),
{
    if keys.len() == 0 {
        0
    } else {
        told_count(keys.drop_last(), extensions) + if has_extension(extensions, keys.last()) {
            1nat
        } else {
            0nat
        }
    }
}

/// Whether `key` names one of the extensions.
pub open spec fn has_extension(extensions: Seq<(String, Vec<u8>)>, key: Seq<char>) -> bool {
    exists|i: int| 0 <= i < extensions.len() && (#[trigger] extensions[i]).0@ == key
}

fn extension_present(extensions: &Vec<(String, Vec<u8>)>, key: &str) -> (r: bool)
    ensures
        r == has_extension(extensions@, key@),
{
    let n = extensions.len();
    let mut i: usize = 0;
    while i < n
        invariant
            n == extensions@.len(),
            i <= n,
            forall|k: int| 0 <= k < i ==> (#[trigger] extensions@[k]).0@ != key@,
        decreases n - i,
    {
        if str_eq(extensions[i].0.as_str(), key) {
            return true;
        }
        i = i + 1;
    }
    false
}

/// How many of the answers are failures.
pub open spec fn failure_count(failed: Seq<bool>) -> nat
    decreases failed.len(),
{
    if failed.len() == 0 {
        0
    } else {
        failure_count(failed.drop_last()) + if failed.last() {
            1nat
        } else {
            0nat
        }
    }
}

/// The failure count after one more answer: one more when the provider
/// failed.
pub fn tally_failure(failed: usize, answer: &Result<(), ExtensionError>) -> (r: usize)
    requires
        failed < usize::MAX,
    ensures
        r == failed + if answer is Err {
            1int
        } else {
            0int
        },
{
    match answer {
        Ok(()) => failed,
        Err(_) => failed + 1,
    }
}

impl<P: SessionExtensionProvider> ExtensionProviderRegistry<P> {
    /// The number of registered providers.
    pub closed spec fn provider_count(&self) -> nat {
        self.providers@.len()
    }

    /// The providers' extension keys, in registration order.
    pub closed spec fn provider_keys(&self) -> Seq<Seq<char>> {
        texts(self.keys@)
    }

    #[verifier::type_invariant]
    spec fn keys_match(&self) -> bool {
        self.keys@.len() == self.providers@.len()
    }

    pub fn new() -> (r: Self)
        ensures
            r.provider_count() == 0,
            r.provider_keys() == Seq::<Seq<char>>::empty(),
    {
        let r = ExtensionProviderRegistry { providers: Vec::new(), keys: Vec::new() };
        assert(r.provider_keys() =~= Seq::<Seq<char>>::empty());
        r
    }

    /// Add a provider after those already registered, recording its key.
    pub fn register(&mut self, provider: P)
        ensures
            final(self).provider_count() == old(self).provider_count() + 1,
            final(self).provider_keys().len() == old(self).provider_keys().len() + 1,
            final(self).provider_keys().drop_last() == old(self).provider_keys(),
    {
        proof {
            use_type_invariant(&*self);
        }
        let key = owned(provider.key());
        let mut emptied = ExtensionProviderRegistry { providers: Vec::new(), keys: Vec::new() };
        std::mem::swap(&mut emptied, self);
        let ExtensionProviderRegistry { mut providers, mut keys } = emptied;
        providers.push(provider);
        keys.push(key);
        *self = ExtensionProviderRegistry { providers, keys };
        assert(self.provider_keys().drop_last() =~= old(self).provider_keys());
    }

    /// The number of registered providers.
    pub fn len(&self) -> (r: usize)
        ensures
            r == self.provider_count(),
    {
        self.providers.len()
    }

    /// The positions of the providers whose key is among the session's
    /// extensions, in increasing (registration) order.
    pub fn providers_to_tell(&self, extensions: &Vec<(String, Vec<u8>)>) -> (r: Vec<usize>)
        ensures
            r@.len() == told_count(self.provider_keys(), extensions@),
            forall|a: int, b: int| 0 <= a < b < r@.len() ==> r@[a] < r@[b],
            forall|k: int| 0 <= k < r@.len() ==> (#[trigger] r@[k]) < self.provider_count(),
            forall|i: int|
                0 <= i < self.provider_count() ==> (has_extension(
                    extensions@,
                    #[trigger] self.provider_keys()[i],
                ) <==> r@.contains(i as usize)),
    {
        proof {
            use_type_invariant(self);
        }
        let n = self.keys.len();
        let mut out: Vec<usize> = Vec::new();
        let mut i: usize = 0;
        while i < n
            invariant
                n == self.keys@.len(),
                n == self.provider_count(),
                self.provider_keys() == texts(self.keys@),
                i <= n,
                out@.len() == told_count(self.provider_keys().take(i as int), extensions@),
                forall|a: int, b: int| 0 <= a < b < out@.len() ==> out@[a] < out@[b],
                forall|k: int| 0 <= k < out@.len() ==> (#[trigger] out@[k]) < i,
                forall|j: int|
                    0 <= j < i ==> (has_extension(extensions@, #[trigger] self.provider_keys()[j])
                        <==> out@.contains(j as usize)),
            decreases n - i,
        {
            assert(self.provider_keys().take(i + 1).drop_last() =~= self.provider_keys().take(i as int));
            assert(self.provider_keys()[i as int] == self.keys@[i as int]@);
            let ghost before = out@;
            if extension_present(extensions, self.keys[i].as_str()) {
                out.push(i);
                assert forall|j: int| 0 <= j < i implies (has_extension(
                    extensions@,
                    #[trigger] self.provider_keys()[j],
                ) <==> out@.contains(j as usize)) by {
                    if out@.contains(j as usize) {
                        let k = choose|k: int| 0 <= k < out@.len() && out@[k] == j as usize;
                        if k < before.len() {
                            assert(before[k] == j as usize);
                        }
                    }
                    if before.contains(j as usize) {
                        let k = choose|k: int| 0 <= k < before.len() && before[k] == j as usize;
                        assert(out@[k] == j as usize);
                    }
                }
                assert(out@[before.len() as int] == i);
            } else {
                assert(!out@.contains(i));
            }
            i = i + 1;
        }
        assert(self.provider_keys().take(n as int) =~= self.provider_keys());
        out
    }

    /// Tell each provider whose key is among the session's extensions that
    /// the session started, in registration order; returns how many were
    /// told and how many of them failed (failures are not fatal: every
    /// selected provider is told).
    pub fn on_session_start(&self, session_id: &str, extensions: &Vec<(String, Vec<u8>)>) -> (r: (
        usize,
        usize,
    ))
        ensures
            r.0 == told_count(self.provider_keys(), extensions@),
            r.1 <= r.0 <= self.provider_count(),
            exists|failed: Seq<bool>| failed.len() == r.0 && #[trigger] failure_count(failed) == r.1,
    {
        proof {
            use_type_invariant(self);
            lemma_told_count_bound(self.provider_keys(), extensions@);
        }
        let selected = self.providers_to_tell(extensions);
        let m = selected.len();
        let mut failed: usize = 0;
        let ghost mut answers: Seq<bool> = seq![];
        let mut k: usize = 0;
        while k < m
            invariant
                m == selected@.len(),
                k <= m,
                self.providers@.len() == self.provider_count(),
                forall|q: int| 0 <= q < m ==> (#[trigger] selected@[q]) < self.provider_count(),
                answers.len() == k,
                failed == failure_count(answers),
                failed <= k,
            decreases m - k,
        {
            let answer = self.providers[selected[k]].on_session_start(session_id, extensions);
            proof {
                assert(answers.push(answer is Err).drop_last() =~= answers);
                answers = answers.push(answer is Err);
            }
            failed = tally_failure(failed, &answer);
            k = k + 1;
        }
        assert(failure_count(answers) == failed);
        (m, failed)
    }

    /// Tell every provider, in registration order, that the session ended
    /// with `outcome`; returns how many failed (failures are not fatal: every
    /// provider is told).
    pub fn on_session_terminal(&self, session_id: &str, outcome: SessionOutcome) -> (r: usize)
        ensures
            r <= self.provider_count(),
            exists|failed: Seq<bool>| failed.len() == self.provider_count() && #[trigger] failure_count(failed) == r,
    {
        let n = self.providers.len();
        let mut failed: usize = 0;
        let ghost mut answers: Seq<bool> = seq![];
        let mut i: usize = 0;
        while i < n
            invariant
                n == self.providers@.len(),
                i <= n,
                answers.len() == i,
                failed == failure_count(answers),
                failed <= i,
            decreases n - i,
        {
            let answer = self.providers[i].on_session_terminal(session_id, outcome_ref(&outcome));
            proof {
                assert(answers.push(answer is Err).drop_last() =~= answers);
                answers = answers.push(answer is Err);
            }
            failed = tally_failure(failed, &answer);
            i = i + 1;
        }
        assert(failure_count(answers) == failed);
        failed
    }
}

proof fn lemma_told_count_bound(keys: Seq<Seq<char>>, extensions: Seq<(String, Vec<u8>)>)
    ensures
        told_count(keys, extensions) <= keys.len(),
    decreases keys.len(),
{
    if keys.len() > 0 {
        lemma_told_count_bound(keys.drop_last(), extensions);
    }
}

/// A copy of the outcome.
pub fn outcome_ref(outcome: &SessionOutcome) -> (r: SessionOutcome)
    ensures
        r == *outcome,
{
    match outcome {
        SessionOutcome::Resolved => SessionOutcome::Resolved,
        SessionOutcome::Expired => SessionOutcome::Expired,
    }
}

} // verus!
