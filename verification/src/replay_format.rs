//! The record shape of a replay as it is kept outside the table.

use vstd::prelude::*;

verus! {

/// A replay as it is written down: its display name.
#[derive(Debug)]
pub struct RawReplayInfo {
    pretty_name: String,
}

/// A replay: the name it was found under, and its display name.
#[derive(Debug)]
pub struct ReplayInfo {
    raw_name: String,
    pretty_name: String,
}

impl RawReplayInfo {
    /// The display name, as characters.
    pub closed spec fn pretty(&self) -> Seq<char> {
        self.pretty_name@
    }

    /// A written-down replay with the given display name.
    pub fn new(pretty_name: String) -> (r: RawReplayInfo)
        ensures
            r.pretty() == pretty_name@,
    {
        RawReplayInfo { pretty_name }
    }

    /// The display name.
    pub fn pretty_name(&self) -> (r: &String)
        ensures
            r@ == self.pretty(),
    {
        &self.pretty_name
    }
}

impl ReplayInfo {
    /// The name the replay was found under, as characters.
    pub closed spec fn raw(&self) -> Seq<char> {
        self.raw_name@
    }

    /// The display name, as characters.
    pub closed spec fn pretty(&self) -> Seq<char> {
        self.pretty_name@
    }

    /// The replay that was found under `raw_name` and is written down as
    /// `info`.
    pub fn new(raw_name: String, info: RawReplayInfo) -> (r: ReplayInfo)
        ensures
            r.raw() == raw_name@,
            r.pretty() == info.pretty(),
    {
        ReplayInfo { raw_name, pretty_name: info.pretty_name }
    }

    /// The name the replay was found under.
    pub fn raw_name(&self) -> (r: &String)
        ensures
            r@ == self.raw(),
    {
        &self.raw_name
    }

    /// The display name.
    pub fn pretty_name(&self) -> (r: &String)
        ensures
            r@ == self.pretty(),
    {
        &self.pretty_name
    }
}

} // verus!
