//! What is known of a clip's file, kept once it is complete.

use std::collections::HashMap;

use vstd::prelude::*;

verus! {

/// What was probed of a clip's file: the path it was probed under, its length in
/// nanoseconds, its size, how it is turned in degrees, and whether the probe is
/// complete, which it is where the pixels' format is known.
#[derive(Clone, Copy, PartialEq, Eq, Structural, Debug)]
pub struct Meta {
    pub src: u64,
    pub duration: Option<i64>,
    pub width: Option<u32>,
    pub height: Option<u32>,
    pub rotation: Option<i64>,
    pub complete: bool,
}

/// What is known of the clip at `path` ought to be probed anew: it is incomplete,
/// or of another path.
pub open spec fn is_stale(m: Option<Meta>, path: u64) -> bool {
    m matches Some(m) && (!m.complete || m.src != path)
}

/// Whether what is known of the clip at `path` ought to be probed anew.
pub fn stale(m: Option<Meta>, path: u64) -> (r: bool)
    ensures
        r == is_stale(m, path),
{
    match m {
        Some(m) => !m.complete || m.src != path,
        None => false,
    }
}

/// The probes of this session, so that a clip's file is read once.
pub struct Memo {
    kept: HashMap<u64, Meta>,
}

impl View for Memo {
    type V = Map<u64, Meta>;

    closed spec fn view(&self) -> Map<u64, Meta> {
        self.kept@
    }
}

impl Memo {
    pub fn new() -> (m: Self)
        ensures
            m@ == Map::<u64, Meta>::empty(),
    {
        Memo { kept: HashMap::new() }
    }

    /// What is kept of a path; nothing has to be read then.
    pub fn recall(&self, path: u64) -> (r: Option<Meta>)
        ensures
            r == (if self@.contains_key(path) {
                Some(self@[path])
            } else {
                None
            }),
    {
        match self.kept.get(&path) {
            Some(m) => Some(*m),
            None => None,
        }
    }

    /// Notes what was read of a path. An incomplete probe is not kept, so that
    /// it is read again until it has been made anew.
    pub fn note(&mut self, path: u64, m: Meta)
        ensures
            final(self)@ == (if m.complete {
                old(self)@.insert(path, m)
            } else {
                old(self)@
            }),
    {
        if m.complete {
            self.kept.insert(path, m);
        }
    }
}

impl Default for Memo {
    fn default() -> (m: Self)
        ensures
            m@ == Map::<u64, Meta>::empty(),
    {
        Memo::new()
    }
}

/// What is kept is complete, whatever has been noted.
pub proof fn only_complete_probes_are_kept(kept: Map<u64, Meta>, path: u64, m: Meta)
    requires
        forall|p: u64| #[trigger] kept.contains_key(p) ==> kept[p].complete,
    ensures
        ({
            let then = if m.complete {
                kept.insert(path, m)
            } else {
                kept
            };
            forall|p: u64| #[trigger] then.contains_key(p) ==> then[p].complete
        }),
{
}

} // verus!
