//! A scoped guard over one file's contents: it keeps the prior contents and,
//! unless disarmed, puts them back when the guarded work ends.
use crate::order::views;
use vstd::prelude::*;

verus! {

pub struct BackedUpFile {
    pub original: Vec<String>,
    pub restore: bool,
}

impl BackedUpFile {
    /// Backs up `contents`; the guard starts armed.
    pub fn new(contents: &Vec<String>) -> (r: BackedUpFile)
        ensures
            views(r.original@) == views(contents@),
            r.restore,
    {
        BackedUpFile { original: crate::cache::copy_names(contents), restore: true }
    }

    /// Arms (`true`) or disarms (`false`) the restore.
    pub fn set_restore(&mut self, restore: bool)
        ensures
            final(self).restore == restore,
            views(final(self).original@) == views(old(self).original@),
    {
        self.restore = restore;
    }

    /// Ends the guarded work: the contents that remain are the backup when
    /// the guard is armed, and `current` when it is not.
    pub fn finish(self, current: Vec<String>) -> (r: Vec<String>)
        ensures
            views(r@) == if self.restore {
                views(self.original@)
            } else {
                views(current@)
            },
    {
        if self.restore {
            self.original
        } else {
            current
        }
    }
}

} // verus!
