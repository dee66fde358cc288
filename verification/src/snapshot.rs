//! A container snapshot as the host sees it: the native record's strings
//! copied across the boundary.

use vstd::prelude::*;

verus! {

/// The record as the specification sees it.
pub struct SnapRec {
    pub name: Seq<char>,
    pub comment_pathname: Option<Seq<char>>,
    pub timestamp: Seq<char>,
    pub lxcpath: Seq<char>,
}

/// One snapshot: name, optional comment file, creation stamp, and the
/// container directory it lives under.
pub struct Snapshot {
    pub(crate) name: String,
    pub(crate) comment_pathname: Option<String>,
    pub(crate) timestamp: String,
    pub(crate) lxcpath: String,
}

impl View for Snapshot {
    type V = SnapRec;

    closed spec fn view(&self) -> SnapRec {
        SnapRec {
            name: self.name@,
            comment_pathname: match self.comment_pathname {
                Some(ref c) => Some(c@),
                None => None,
            },
            timestamp: self.timestamp@,
            lxcpath: self.lxcpath@,
        }
    }
}

impl Snapshot {
    /// Assembles a record from strings already copied across the boundary.
    pub(crate) fn build(
        name: String,
        comment_pathname: Option<String>,
        timestamp: String,
        lxcpath: String,
    ) -> (r: Snapshot)
        ensures
            r@.name == name@,
            r@.timestamp == timestamp@,
            r@.lxcpath == lxcpath@,
            (r@.comment_pathname is Some) == (comment_pathname is Some),
            (comment_pathname matches Some(c) ==> r@.comment_pathname == Some(c@)),
    {
        Snapshot { name, comment_pathname, timestamp, lxcpath }
    }

    /// Name of the snapshot.
    pub fn name(&self) -> (r: String)
        ensures
            r@ == self@.name,
    {
        self.name.clone()
    }

    /// Full path to the snapshot's comment file, if one was recorded.
    pub fn comment_pathname(&self) -> (r: Option<String>)
        ensures
            (r matches Some(c) ==> self@.comment_pathname == Some(c@)),
            (r is Some) == (self@.comment_pathname is Some),
    {
        match &self.comment_pathname {
            Some(c) => Some(c.clone()),
            None => None,
        }
    }

    /// Creation stamp of the snapshot.
    pub fn timestamp(&self) -> (r: String)
        ensures
            r@ == self@.timestamp,
    {
        self.timestamp.clone()
    }

    /// The container directory the snapshot lives under.
    pub fn lxcpath(&self) -> (r: String)
        ensures
            r@ == self@.lxcpath,
    {
        self.lxcpath.clone()
    }
}

} // verus!
