//! Helpers to track the source of a value.

use std::collections::VecDeque;

use vstd::prelude::*;
use vstd::std_specs::cmp::*;

use crate::text;

verus! {

/// A value with information about its source.
///
/// The source is disregarded wherever one of these is compared, be it with another one or with a plain
/// value.
#[derive(Debug)]
pub struct ValueWithSource<T> {
    value: T,
    /// The source for the value. This must be a valid field path for the resource that is currently
    /// being reconciled.
    source: Option<String>,
}

/// The path that is made by appending a suffix to another one. Nothing is known of the path below an
/// unknown one.
pub open spec fn extended(path: Option<Seq<char>>, suffix: Seq<char>) -> Option<Seq<char>> {
    match path {
        Some(p) => Some(p + suffix),
        None => None,
    }
}

/// The path of an item of a list.
pub open spec fn item_path(path: Option<Seq<char>>, index: nat) -> Option<Seq<char>> {
    match path {
        Some(p) => Some(p + "["@ + text::decimal(index) + "]"@),
        None => None,
    }
}

/// The path of an entry of a map.
pub open spec fn entry_path(path: Option<Seq<char>>, key: Seq<char>) -> Option<Seq<char>> {
    match path {
        Some(p) => Some(p + "."@ + key),
        None => None,
    }
}

/// The text of a path, where it is known.
pub open spec fn path_of(source: Option<String>) -> Option<Seq<char>> {
    match source {
        Some(s) => Some(s@),
        None => None,
    }
}

fn extended_path(source: &Option<String>, suffix: &str) -> (r: Option<String>)
    ensures
        path_of(r) == extended(path_of(*source), suffix@),
{
    match source {
        Some(s) => Some(s.clone().concat(suffix)),
        None => None,
    }
}

fn path_of_item(source: &Option<String>, index: usize) -> (r: Option<String>)
    ensures
        path_of(r) == item_path(path_of(*source), index as nat),
{
    match source {
        Some(s) => Some(
            s.clone().concat("[").concat(text::decimal_text(index as u64).as_str()).concat("]"),
        ),
        None => None,
    }
}

fn path_of_entry(source: &Option<String>, key: &str) -> (r: Option<String>)
    ensures
        path_of(r) == entry_path(path_of(*source), key@),
{
    match source {
        Some(s) => Some(s.clone().concat(".").concat(key)),
        None => None,
    }
}

impl<T> ValueWithSource<T> {
    /// The value without its source.
    pub closed spec fn inner(self) -> T {
        self.value
    }

    /// The source of the value, if known.
    pub closed spec fn path(self) -> Option<Seq<char>> {
        path_of(self.source)
    }

    /// Create a new `ValueWithSource`.
    pub fn new(value: T, source: Option<String>) -> (r: Self)
        ensures
            r.inner() == value,
            r.path() == path_of(source),
    {
        Self { value, source }
    }

    /// Create a VWS with the same source as this one.
    pub fn with_value<V>(&self, value: V) -> (r: ValueWithSource<V>)
        ensures
            r.inner() == value,
            r.path() == self.path(),
    {
        proof {
            reveal_strlit("");
            if let Some(p) = self.path() {
                assert(p + ""@ =~= p);
            }
        }
        self.sub(value, "")
    }

    /// Take the inner value, losing the source information in the progress.
    pub fn take(self) -> (r: T)
        ensures
            r == self.inner(),
    {
        self.value
    }

    /// Split the inner value and the source information.
    pub fn split(self) -> (r: (T, ValueWithSource<()>))
        ensures
            r.0 == self.inner(),
            r.1.path() == self.path(),
    {
        (self.value, ValueWithSource::new((), self.source))
    }

    /// Get the source of this value, if known.
    pub fn source(&self) -> (r: Option<&String>)
        ensures
            match r {
                Some(s) => self.path() == Some(s@),
                None => self.path() is None,
            },
    {
        self.source.as_ref()
    }

    /// Look at the value.
    pub fn value(&self) -> (r: &T)
        ensures
            *r == self.inner(),
    {
        &self.value
    }

    /// Create a VWS that has a source which is derived from the source of this VWS.
    pub fn sub<V>(&self, value: V, source_suffix: &str) -> (r: ValueWithSource<V>)
        ensures
            r.inner() == value,
            r.path() == extended(self.path(), source_suffix@),
    {
        ValueWithSource { value, source: extended_path(&self.source, source_suffix) }
    }

    /// Apply a transformation to the contained value while keeping the source info intact.
    pub fn transform<V, F>(self, f: F) -> (r: ValueWithSource<V>) where
        F: FnOnce(ValueWithSource<T>) -> V,

        requires
            f.requires((self,)),
        ensures
            f.ensures((self,), r.inner()),
            r.path() == self.path(),
    {
        let source = self.source.clone();
        ValueWithSource { source, value: f(self) }
    }
}

impl<V> ValueWithSource<Option<V>> {
    /// Exchange the layers: there is a value with a source if there is a value.
    pub fn transpose(self) -> (r: Option<ValueWithSource<V>>)
        ensures
            match (self.inner(), r) {
                (Some(value), Some(v)) => v.inner() == value && v.path() == self.path(),
                (None, None) => true,
                _ => false,
            },
    {
        match self.value {
            Some(value) => Some(ValueWithSource { value, source: self.source }),
            None => None,
        }
    }
}

impl<V, E> ValueWithSource<Result<V, E>> {
    /// Exchange the layers: there is a value with a source if there is no error.
    pub fn transpose(self) -> (r: Result<ValueWithSource<V>, E>)
        ensures
            match (self.inner(), r) {
                (Ok(value), Ok(v)) => v.inner() == value && v.path() == self.path(),
                (Err(error), Err(e)) => e == error,
                _ => false,
            },
    {
        match self.value {
            Ok(value) => Ok(ValueWithSource { value, source: self.source }),
            Err(error) => Err(error),
        }
    }
}

impl<T: Clone> ValueWithSource<&T> {
    /// Maps a `ValueWithSource<&T>` to a `ValueWithSource<T>` by cloning the contained value.
    pub fn cloned(self) -> (r: ValueWithSource<T>)
        ensures
            cloned(*self.inner(), r.inner()),
            r.path() == self.path(),
    {
        let value: T = (*self.value).clone();
        ValueWithSource { value, source: self.source }
    }
}

impl<T> From<T> for ValueWithSource<T> {
    /// This is only appropriate in cases where the source isn't known. Use
    /// [`ValueWithSource::new`] for cases where it is.
    fn from(value: T) -> (r: Self)
        ensures
            r.inner() == value,
            r.path() is None,
    {
        Self { value, source: None }
    }
}

impl<T> vstd::std_specs::convert::FromSpecImpl<T> for ValueWithSource<T> {
    open spec fn obeys_from_spec() -> bool {
        true
    }

    closed spec fn from_spec(value: T) -> Self {
        ValueWithSource { value, source: None }
    }
}

impl<T> std::ops::Deref for ValueWithSource<T> {
    type Target = T;

    fn deref(&self) -> (r: &T)
        ensures
            *r == self.inner(),
    {
        &self.value
    }
}

impl<T: PartialEq> PartialEq for ValueWithSource<T> {
    fn eq(&self, other: &Self) -> (r: bool) {
        self.value == other.value
    }
}

impl<T: PartialEq> vstd::std_specs::cmp::PartialEqSpecImpl for ValueWithSource<T> {
    open spec fn obeys_eq_spec() -> bool {
        T::obeys_eq_spec()
    }

    open spec fn eq_spec(&self, other: &Self) -> bool {
        self.inner().eq_spec(&other.inner())
    }
}

impl<T: PartialEq> PartialEq<T> for ValueWithSource<T> {
    fn eq(&self, other: &T) -> (r: bool) {
        self.value == *other
    }
}

impl<T: PartialEq> vstd::std_specs::cmp::PartialEqSpecImpl<T> for ValueWithSource<T> {
    open spec fn obeys_eq_spec() -> bool {
        T::obeys_eq_spec()
    }

    open spec fn eq_spec(&self, other: &T) -> bool {
        self.inner().eq_spec(other)
    }
}

impl<T: Eq> Eq for ValueWithSource<T> {

}

/// The sources play no part when values are compared, neither with each other nor with a plain value.
pub proof fn source_is_disregarded<T: PartialEq>(a: ValueWithSource<T>, b: ValueWithSource<T>)
    ensures
        PartialEqSpec::eq_spec(&a, &b) == a.inner().eq_spec(&b.inner()),
        PartialEqSpec::eq_spec(&a, &b.inner()) == a.inner().eq_spec(&b.inner()),
{
}

/// Gives out the items of a list, each with its own source.
pub struct ValueWithSourceEnumerationIterator<V> {
    items: VecDeque<V>,
    source: Option<String>,
    index: usize,
}

impl<V> ValueWithSourceEnumerationIterator<V> {
    #[verifier::type_invariant]
    spec fn in_range(self) -> bool {
        self.index + self.items@.len() <= usize::MAX
    }

    /// The items that are still to come.
    pub closed spec fn rest(self) -> Seq<V> {
        self.items@
    }

    /// The source of the list.
    pub closed spec fn path(self) -> Option<Seq<char>> {
        path_of(self.source)
    }

    /// The index of the next item.
    pub closed spec fn position(self) -> nat {
        self.index as nat
    }

    /// Get the next item.
    pub fn next(&mut self) -> (r: Option<ValueWithSource<V>>)
        ensures
            final(self).path() == old(self).path(),
            match r {
                Some(item) => {
                    &&& old(self).rest().len() > 0
                    &&& item.inner() == old(self).rest()[0]
                    &&& item.path() == item_path(old(self).path(), old(self).position())
                    &&& final(self).rest() == old(self).rest().drop_first()
                    &&& final(self).position() == old(self).position() + 1
                },
                None => {
                    &&& old(self).rest().len() == 0
                    &&& final(self).rest() == old(self).rest()
                    &&& final(self).position() == old(self).position()
                },
            },
    {
        proof {
            use_type_invariant(&*self);
        }
        let mut items: VecDeque<V> = VecDeque::new();
        std::mem::swap(&mut items, &mut self.items);
        let next = items.pop_front();
        match next {
            Some(value) => {
                let index: usize = self.index;
                self.index = index + 1;
                self.items = items;
                Some(ValueWithSource { value, source: path_of_item(&self.source, index) })
            },
            None => {
                self.items = items;
                None
            },
        }
    }
}

impl<V> ValueWithSource<Vec<V>> {
    /// Iterate over the items of a list.
    pub fn into_iter(self) -> (r: ValueWithSourceEnumerationIterator<V>)
        ensures
            r.rest() == self.inner()@,
            r.path() == self.path(),
            r.position() == 0,
    {
        let items = queued(self.value);
        ValueWithSourceEnumerationIterator { items, source: self.source, index: 0 }
    }
}

fn queued<V>(list: Vec<V>) -> (r: VecDeque<V>)
    ensures
        r@ == list@,
        r@.len() <= usize::MAX,
{
    let mut items: VecDeque<V> = VecDeque::new();
    let count: usize = list.len();
    for item in it: list
        invariant
            it.seq() == list@,
            items@ == list@.take(it.index() as int),
    {
        items.push_back(item);
    }
    proof {
        assert(list@.take(list@.len() as int) =~= list@);
    }
    items
}

/// Gives out the entries of a map, each with its own source.
pub struct ValueWithSourceMapIterator<V> {
    entries: VecDeque<(String, V)>,
    source: Option<String>,
}

impl<V> ValueWithSourceMapIterator<V> {
    /// The entries that are still to come.
    pub closed spec fn rest(self) -> Seq<(String, V)> {
        self.entries@
    }

    /// The source of the map.
    pub closed spec fn path(self) -> Option<Seq<char>> {
        path_of(self.source)
    }

    /// Get the next entry.
    pub fn next(&mut self) -> (r: Option<(String, ValueWithSource<V>)>)
        ensures
            final(self).path() == old(self).path(),
            match r {
                Some((key, value)) => {
                    &&& old(self).rest().len() > 0
                    &&& key == old(self).rest()[0].0
                    &&& value.inner() == old(self).rest()[0].1
                    &&& value.path() == entry_path(old(self).path(), key@)
                    &&& final(self).rest() == old(self).rest().drop_first()
                },
                None => {
                    &&& old(self).rest().len() == 0
                    &&& final(self).rest() == old(self).rest()
                },
            },
    {
        match self.entries.pop_front() {
            Some((key, value)) => {
                let source = path_of_entry(&self.source, key.as_str());
                Some((key, ValueWithSource { value, source }))
            },
            None => None,
        }
    }
}

impl<V> ValueWithSource<Vec<(String, V)>> {
    /// Iterate over the entries of a map.
    pub fn into_entries(self) -> (r: ValueWithSourceMapIterator<V>)
        ensures
            r.rest() == self.inner()@,
            r.path() == self.path(),
    {
        ValueWithSourceMapIterator { entries: queued(self.value), source: self.source }
    }
}

} // verus!
