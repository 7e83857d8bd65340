//! The profiles that a backend has registered.
use vstd::prelude::*;

use crate::call::{arguments, decode_payload};
use crate::error::{BackendError, BackendFailure};
use crate::json::{Json, JsonView};
use crate::profile::{report_profile_error, reported, ProfileError};
use crate::text::str_eq;

verus! {

/// Engines by the name of their profile.
pub struct Registry<E> {
    entries: Vec<(String, E)>,
}

/// Whether no two entries have one name.
spec fn distinct<E>(entries: Seq<(String, E)>) -> bool {
    forall|i: int, j: int| 0 <= i < j < entries.len() ==> entries[i].0@ != entries[j].0@
}

/// The engines by the name of their profile.
spec fn engines<E>(entries: Seq<(String, E)>) -> Map<Seq<char>, E>
    decreases entries.len(),
{
    if entries.len() == 0 {
        Map::empty()
    } else {
        engines(entries.drop_last()).insert(entries.last().0@, entries.last().1)
    }
}

proof fn lemma_engine_at<E>(entries: Seq<(String, E)>, i: int)
    requires
        distinct(entries),
        0 <= i < entries.len(),
    ensures
        engines(entries).contains_key(entries[i].0@),
        engines(entries)[entries[i].0@] == entries[i].1,
    decreases entries.len(),
{
    if i < entries.len() - 1 {
        assert(entries[i].0@ != entries[entries.len() - 1].0@);
        lemma_engine_at(entries.drop_last(), i);
    }
}

proof fn lemma_no_engine<E>(entries: Seq<(String, E)>, name: Seq<char>)
    requires
        forall|i: int| 0 <= i < entries.len() ==> (#[trigger] entries[i]).0@ != name,
    ensures
        !engines(entries).contains_key(name),
    decreases entries.len(),
{
    if entries.len() > 0 {
        let short = entries.drop_last();
        assert forall|i: int| 0 <= i < short.len() implies (#[trigger] short[i]).0@ != name by {
            assert(entries[i] == short[i]);
        }
        assert(entries[entries.len() - 1].0@ != name);
        lemma_no_engine(short, name);
    }
}

proof fn lemma_count<E>(entries: Seq<(String, E)>)
    requires
        distinct(entries),
    ensures
        engines(entries).dom().finite(),
        engines(entries).dom().len() == entries.len(),
    decreases entries.len(),
{
    if entries.len() > 0 {
        let short = entries.drop_last();
        lemma_count(short);
        assert forall|i: int| 0 <= i < short.len() implies (#[trigger] short[i]).0@
            != entries.last().0@ by {
            assert(entries[i].0@ != entries[entries.len() - 1].0@);
        }
        lemma_no_engine(short, entries.last().0@);
    }
}

proof fn lemma_replaced<E>(entries: Seq<(String, E)>, i: int, name: String, engine: E)
    requires
        distinct(entries),
        0 <= i < entries.len(),
        entries[i].0@ == name@,
    ensures
        distinct(entries.update(i, (name, engine))),
        engines(entries.update(i, (name, engine))) == engines(entries).insert(name@, engine),
    decreases entries.len(),
{
    let after = entries.update(i, (name, engine));
    assert forall|j: int, k: int| 0 <= j < k < after.len() implies after[j].0@ != after[k].0@ by {
        assert(entries[j].0@ != entries[k].0@);
        assert(after[j].0@ == entries[j].0@);
        assert(after[k].0@ == entries[k].0@);
    }
    let short = entries.drop_last();
    let last = entries.last();
    if i == entries.len() - 1 {
        assert(after.drop_last() =~= short);
        assert(engines(after) =~= engines(entries).insert(name@, engine));
    } else {
        assert(entries[i].0@ != entries[entries.len() - 1].0@);
        lemma_replaced(short, i, name, engine);
        assert(after.drop_last() =~= short.update(i, (name, engine)));
        assert(after.last() == last);
        assert(engines(after) =~= engines(entries).insert(name@, engine));
    }
}

impl<E> View for Registry<E> {
    type V = Map<Seq<char>, E>;

    closed spec fn view(&self) -> Map<Seq<char>, E> {
        engines(self.entries@)
    }
}

/// What comes of looking up a profile.
pub open spec fn found<E>(engines: Map<Seq<char>, E>, name: Seq<char>) -> Result<
    E,
    BackendFailure,
> {
    if engines.contains_key(name) {
        Ok(engines[name])
    } else {
        Err(BackendFailure::ProfileNotFound { backend_name: name })
    }
}

/// What comes of the registration of a profile: the engines afterwards, and
/// the answer.  `prepared` is the engine, or why there is none, and `printed`
/// how that is printed.  Only what was prepared is registered; one with this
/// name is replaced.
pub open spec fn registered<E>(
    engines: Map<Seq<char>, E>,
    name: Seq<char>,
    prepared: Result<E, ProfileError>,
    printed: Seq<char>,
) -> (Map<Seq<char>, E>, Result<(), BackendFailure>) {
    match prepared {
        Ok(engine) => (engines.insert(name, engine), Ok(())),
        Err(e) => (engines, Err(reported(e@, printed))),
    }
}

/// The answer to a registration, as a value.
pub open spec fn answer_view(answer: Result<(), BackendError>) -> Result<(), BackendFailure> {
    match answer {
        Ok(_) => Ok(()),
        Err(e) => Err(e@),
    }
}

impl<E> Registry<E> {
    /// Whether every name is there once.
    pub closed spec fn wf(&self) -> bool {
        distinct(self.entries@)
    }

    /// No profiles.
    pub fn new() -> (r: Registry<E>)
        ensures
            r.wf(),
            r@ == Map::<Seq<char>, E>::empty(),
    {
        Registry { entries: Vec::new() }
    }

    /// How many profiles there are.
    pub fn count(&self) -> (r: usize)
        requires
            self.wf(),
        ensures
            self@.dom().finite(),
            r == self@.dom().len(),
    {
        proof {
            lemma_count(self.entries@);
        }
        self.entries.len()
    }

    /// Where the profile is, if it is there.
    fn position(&self, name: &str) -> (r: Option<usize>)
        requires
            self.wf(),
        ensures
            match r {
                Some(i) => i < self.entries@.len() && self.entries@[i as int].0@ == name@,
                None => forall|i: int|
                    0 <= i < self.entries@.len() ==> (#[trigger] self.entries@[i]).0@ != name@,
            },
    {
        let mut i: usize = 0;
        while i < self.entries.len()
            invariant
                i <= self.entries@.len(),
                forall|j: int| 0 <= j < i ==> (#[trigger] self.entries@[j]).0@ != name@,
            decreases self.entries@.len() - i,
        {
            if str_eq(self.entries[i].0.as_str(), name) {
                return Some(i);
            }
            i += 1;
        }
        None
    }

    /// Registers a profile; one with this name is replaced.
    pub fn insert(&mut self, name: &str, engine: E)
        requires
            old(self).wf(),
        ensures
            final(self).wf(),
            final(self)@ == old(self)@.insert(name@, engine),
    {
        let key = name.to_owned();
        match self.position(name) {
            Some(i) => {
                proof {
                    lemma_replaced(self.entries@, i as int, key, engine);
                }
                self.entries.set(i, (key, engine));
            },
            None => {
                self.entries.push((key, engine));
                assert(self.entries@.drop_last() =~= old(self).entries@);
            },
        }
    }

    /// Registers a profile, if its engine was prepared.
    pub fn register(
        &mut self,
        name: &str,
        prepared: Result<E, ProfileError>,
        printed: &str,
    ) -> (r: Result<(), BackendError>)
        requires
            old(self).wf(),
        ensures
            final(self).wf(),
            registered(old(self)@, name@, prepared, printed@) == (final(self)@, answer_view(r)),
    {
        match prepared {
            Ok(engine) => {
                self.insert(name, engine);
                Ok(())
            },
            Err(e) => Err(report_profile_error(e, printed)),
        }
    }

    /// The engine of a profile.
    pub fn lookup(&self, name: &str) -> (r: Result<&E, BackendError>)
        requires
            self.wf(),
        ensures
            match r {
                Ok(engine) => found(self@, name@) == Ok::<E, BackendFailure>(*engine),
                Err(e) => found(self@, name@) == Err::<E, BackendFailure>(e@),
            },
    {
        match self.position(name) {
            Some(i) => {
                proof {
                    lemma_engine_at(self.entries@, i as int);
                }
                Ok(&self.entries[i].1)
            },
            None => {
                proof {
                    lemma_no_engine(self.entries@, name@);
                }
                Err(BackendError::ProfileNotFound { backend_name: name.to_owned() })
            },
        }
    }
}

/// What comes of the begin of a call: the engine of the profile and the
/// arguments.  That the profile is missing counts first.
pub open spec fn begun<E>(
    engines: Map<Seq<char>, E>,
    name: Seq<char>,
    payload: Seq<u8>,
) -> Result<(E, JsonView), BackendFailure> {
    match found(engines, name) {
        Err(e) => Err(e),
        Ok(engine) => match arguments(payload) {
            Err(e) => Err(e),
            Ok(args) => Ok((engine, args)),
        },
    }
}

/// Begins a call.
pub fn begin<'a, E>(profiles: &'a Registry<E>, name: &str, payload: &[u8]) -> (r: Result<
    (&'a E, Json),
    BackendError,
>)
    requires
        profiles.wf(),
    ensures
        match r {
            Ok((engine, args)) => begun(profiles@, name@, payload@) == Ok::<
                (E, JsonView),
                BackendFailure,
            >((*engine, args@)),
            Err(e) => begun(profiles@, name@, payload@) == Err::<(E, JsonView), BackendFailure>(e@),
        },
{
    let engine = match profiles.lookup(name) {
        Ok(engine) => engine,
        Err(e) => {
            return Err(e);
        },
    };
    match decode_payload(payload) {
        Ok(args) => Ok((engine, args)),
        Err(e) => Err(e),
    }
}

/// A profile that was registered is found, with the engine that it was
/// registered with last; the others are left as they were.
pub proof fn law_registered_profiles_are_found<E>(
    engines: Map<Seq<char>, E>,
    name: Seq<char>,
    engine: E,
    other: Seq<char>,
)
    ensures
        found(engines.insert(name, engine), name) == Ok::<E, BackendFailure>(engine),
        other != name ==> found(engines.insert(name, engine), other) == found(engines, other),
{
}

/// A profile without an engine changes nothing: what was found is found, and
/// what was not is not.
pub proof fn law_refused_profiles_change_nothing<E>(
    engines: Map<Seq<char>, E>,
    name: Seq<char>,
    error: ProfileError,
    printed: Seq<char>,
    other: Seq<char>,
)
    ensures
        ({
            let (after, answer) = registered(engines, name, Err(error), printed);
            &&& answer is Err
            &&& after == engines
            &&& found(after, other) == found(engines, other)
        }),
{
}

/// To register a profile again does not add one.
pub proof fn law_a_name_counts_once<E>(engines: Map<Seq<char>, E>, name: Seq<char>, engine: E)
    requires
        engines.dom().finite(),
    ensures
        engines.insert(name, engine).dom().len() == if engines.contains_key(name) {
            engines.dom().len()
        } else {
            engines.dom().len() + 1
        },
{
}

} // verus!
