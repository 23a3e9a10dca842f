use vstd::prelude::*;

use crate::text::str_eq;

verus! {

/// One argument value of a tool call, as far as the transcript reads it:
/// a JSON string, a JSON number that is a `u64`, or anything else.
#[derive(Clone, Debug, PartialEq, Eq)]
pub enum ArgValue {
    Text(String),
    Number(u64),
    Other,
}

/// The model of an [`ArgValue`].
pub enum ArgV {
    Text(Seq<char>),
    Number(u64),
    Other,
}

impl View for ArgValue {
    type V = ArgV;

    open spec fn view(&self) -> ArgV {
        match self {
            ArgValue::Text(s) => ArgV::Text(s@),
            ArgValue::Number(n) => ArgV::Number(*n),
            ArgValue::Other => ArgV::Other,
        }
    }
}

/// The arguments of a tool call: the members of a JSON object, in order.
/// A key that occurs again stands for its last value.
#[derive(Clone, Debug, PartialEq, Eq)]
pub struct ToolArgs {
    entries: Vec<(String, ArgValue)>,
}

/// The value of `key` among `entries`, the last one where it occurs twice.
pub open spec fn lookup(entries: Seq<(Seq<char>, ArgV)>, key: Seq<char>) -> Option<ArgV>
    decreases entries.len(),
{
    if entries.len() == 0 {
        None
    } else if entries.last().0 == key {
        Some(entries.last().1)
    } else {
        lookup(entries.drop_last(), key)
    }
}

/// The text of `key`, where its value is a string.
pub open spec fn text_arg(entries: Seq<(Seq<char>, ArgV)>, key: Seq<char>) -> Option<Seq<char>> {
    match lookup(entries, key) {
        Some(ArgV::Text(t)) => Some(t),
        _ => None,
    }
}

/// The number of `key`, where its value is a `u64`.
pub open spec fn number_arg(entries: Seq<(Seq<char>, ArgV)>, key: Seq<char>) -> Option<u64> {
    match lookup(entries, key) {
        Some(ArgV::Number(n)) => Some(n),
        _ => None,
    }
}

impl View for ToolArgs {
    type V = Seq<(Seq<char>, ArgV)>;

    closed spec fn view(&self) -> Seq<(Seq<char>, ArgV)> {
        self.entries@.map_values(|e: (String, ArgValue)| (e.0@, e.1@))
    }
}

impl ToolArgs {
    /// No arguments.
    pub fn new() -> (a: ToolArgs)
        ensures
            a@ == Seq::<(Seq<char>, ArgV)>::empty(),
    {
        let a = ToolArgs { entries: Vec::new() };
        assert(a@ =~= Seq::<(Seq<char>, ArgV)>::empty());
        a
    }

    /// Adds a member; it stands in front of any earlier one of the same key.
    pub fn insert(&mut self, key: String, value: ArgValue)
        ensures
            final(self)@ == old(self)@.push((key@, value@)),
    {
        self.entries.push((key, value));
        assert(self@ =~= old(self)@.push((key@, value@)));
    }

    /// The members, in order.
    pub fn members(&self) -> (m: &Vec<(String, ArgValue)>)
        ensures
            m@.map_values(|e: (String, ArgValue)| (e.0@, e.1@)) == self@,
    {
        &self.entries
    }

    /// The value of `key`.
    pub fn get(&self, key: &str) -> (r: Option<&ArgValue>)
        ensures
            match r {
                Some(v) => lookup(self@, key@) == Some(v@),
                None => lookup(self@, key@) is None,
            },
    {
        let mut i = self.entries.len();
        assert(self@.take(i as int) =~= self@);
        while i > 0
            invariant
                i <= self.entries.len(),
                self@.len() == self.entries.len(),
                lookup(self@, key@) == lookup(self@.take(i as int), key@),
            decreases i,
        {
            i = i - 1;
            let ghost e = self@.take(i + 1);
            assert(e.drop_last() == self@.take(i as int));
            assert(e.last() == self@[i as int]);
            if str_eq(self.entries[i].0.as_str(), key) {
                return Some(&self.entries[i].1);
            }
        }
        None
    }

    /// The text of `key`, where its value is a string.
    pub fn text(&self, key: &str) -> (r: Option<&str>)
        ensures
            match r {
                Some(t) => text_arg(self@, key@) == Some(t@),
                None => text_arg(self@, key@) is None,
            },
    {
        match self.get(key) {
            Some(ArgValue::Text(t)) => Some(t.as_str()),
            _ => None,
        }
    }

    /// The number of `key`, where its value is a `u64`.
    pub fn number(&self, key: &str) -> (r: Option<u64>)
        ensures
            r == number_arg(self@, key@),
    {
        match self.get(key) {
            Some(ArgValue::Number(n)) => Some(*n),
            _ => None,
        }
    }
}

} // verus!
