use vstd::prelude::*;

use std::sync::Arc;

verus! {

/// A value kept on disk, one file per channel. Implemented by the values a bot persists.
pub trait PersistedType: Sized {
    /// The file name, without extension, the value is kept under.
    fn filename() -> &'static str;

    /// The value of a channel that has none yet; may be called more than once.
    fn init(channel: &str) -> Self;

    /// The value to use when the stored one could not be read.
    fn handle_read_error(channel: &str, error: &str) -> Self;

    /// Told when a new value could not be written.
    fn handle_write_error(channel: &str, error: &str);
}

/// What reading the stored value gave.
pub enum LoadOutcome<T> {
    /// The stored value.
    Found(T),
    /// Nothing is stored yet.
    Missing,
    /// Reading or decoding failed, for the reason given.
    Failed(String),
}

/// Relies on `Arc::clone`: another handle to the same value.
#[verifier::external_body]
pub(crate) fn share<T>(a: &Arc<T>) -> (r: Arc<T>)
    ensures
        r == *a,
{
    a.clone()
}

/// The in-memory side of a persisted value: unloaded until first read, then the value last
/// read or published.
pub struct Persisted<T> {
    value: Option<Arc<T>>,
}

impl<T: PersistedType> Persisted<T> {
    pub closed spec fn current(&self) -> Option<T> {
        match self.value {
            Some(a) => Some(*a),
            None => None,
        }
    }

    /// Unloaded.
    pub fn new() -> (r: Self)
        ensures
            r.current() is None,
    {
        Persisted { value: None }
    }

    /// Loaded with `value`, which is then never read from disk.
    pub fn from_value(value: T) -> (r: Self)
        ensures
            r.current() == Some(value),
    {
        Persisted { value: Some(Arc::new(value)) }
    }

    /// The loaded value, when there is one.
    pub fn loaded(&self) -> (r: Option<Arc<T>>)
        ensures
            match r {
                Some(a) => self.current() == Some(*a),
                None => self.current() is None,
            },
    {
        match &self.value {
            Some(a) => Some(share(a)),
            None => None,
        }
    }

    /// The value a load settles on: the stored one, else the initial value, else what the
    /// read-error hook gives.
    pub fn resolve_load(channel: &str, outcome: LoadOutcome<T>) -> (r: T)
        ensures
            outcome matches LoadOutcome::Found(v) ==> r == v,
    {
        match outcome {
            LoadOutcome::Found(v) => v,
            LoadOutcome::Missing => T::init(channel),
            LoadOutcome::Failed(e) => T::handle_read_error(channel, e.as_str()),
        }
    }

    /// Finishes a first load: when another load finished first its value stands, else the
    /// value the outcome settles on is kept and returned.
    pub fn complete_load(&mut self, channel: &str, outcome: LoadOutcome<T>) -> (r: Arc<T>)
        ensures
            old(self).current() matches Some(v) ==> *r == v && final(self).current() == old(
                self,
            ).current(),
            old(self).current() is None ==> final(self).current() == Some(*r) && (
            outcome matches LoadOutcome::Found(v) ==> *r == v),
    {
        match &self.value {
            Some(a) => share(a),
            None => {
                let v = Arc::new(Self::resolve_load(channel, outcome));
                self.value = Some(share(&v));
                v
            },
        }
    }

    /// Publishes the outcome of an update of the loaded value: with a new value, it replaces
    /// the old one and both are returned; with none, nothing changes and the current value
    /// is returned.
    pub fn publish(&mut self, candidate: Option<T>) -> (r: (Arc<T>, Option<Arc<T>>))
        requires
            old(self).current() is Some,
        ensures
            *r.0 == old(self).current()->0,
            match candidate {
                Some(n) => r.1 matches Some(a) && *a == n && final(self).current() == Some(n),
                None => r.1 is None && final(self).current() == old(self).current(),
            },
    {
        let current = share(self.value.as_ref().unwrap());
        match candidate {
            Some(n) => {
                let new_value = Arc::new(n);
                self.value = Some(share(&new_value));
                (current, Some(new_value))
            },
            None => (current, None),
        }
    }
}

/// Tells the write-error hook of a failed write; a successful one needs nothing.
pub fn report_write<T: PersistedType>(channel: &str, result: Result<(), String>) {
    match result {
        Ok(()) => {},
        Err(e) => T::handle_write_error(channel, e.as_str()),
    }
}

pub open spec fn value_path_spec(channel: Seq<char>, filename: Seq<char>, ext: Seq<char>) -> Seq<
    char,
> {
    seq!['d', 'a', 't', 'a', '/'] + channel + seq!['/'] + filename + ext
}

/// Where a channel's value is stored, under the data directory: `data/<channel>/<file>.ron`.
pub fn value_path(channel: &str, filename: &str) -> (r: String)
    ensures
        r@ == value_path_spec(channel@, filename@, seq!['.', 'r', 'o', 'n']),
{
    proof {
        reveal_strlit(".ron");
    }
    assert(".ron"@ =~= seq!['.', 'r', 'o', 'n']);
    build_path(channel, filename, ".ron")
}

/// Where a new value is written before it is renamed over the stored one:
/// `data/<channel>/<file>.ron.temp`.
pub fn temp_path(channel: &str, filename: &str) -> (r: String)
    ensures
        r@ == value_path_spec(
            channel@,
            filename@,
            seq!['.', 'r', 'o', 'n', '.', 't', 'e', 'm', 'p'],
        ),
{
    proof {
        reveal_strlit(".ron.temp");
    }
    assert(".ron.temp"@ =~= seq!['.', 'r', 'o', 'n', '.', 't', 'e', 'm', 'p']);
    build_path(channel, filename, ".ron.temp")
}

fn build_path(channel: &str, filename: &str, ext: &str) -> (r: String)
    ensures
        r@ == value_path_spec(channel@, filename@, ext@),
{
    proof {
        reveal_strlit("data/");
        reveal_strlit("/");
    }
    let mut p = String::from_str("data/");
    p.append(channel);
    p.append("/");
    p.append(filename);
    p.append(ext);
    assert(p@ =~= value_path_spec(channel@, filename@, ext@));
    p
}

} // verus!
