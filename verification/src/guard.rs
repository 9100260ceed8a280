//! The artifact guard: every temporary or freshly placed file the pipeline
//! creates is registered here, and unless the guard is committed after the
//! artifacts are durably placed, `cleanup` names every registered path for
//! deletion. The caller runs the actual removal on every exit path.

use vstd::prelude::*;

verus! {

/// A cleanup-on-abandon record of the paths a pipeline run has created.
pub struct ArtifactGuard {
    pub paths: Vec<String>,
    pub committed: bool,
}

impl ArtifactGuard {
    /// A fresh, armed guard with nothing registered.
    pub fn new() -> (g: ArtifactGuard)
        ensures
            g.paths@ =~= Seq::<String>::empty(),
            !g.committed,
    {
        ArtifactGuard { paths: Vec::new(), committed: false }
    }

    /// Registers one more path to delete on abandonment.
    pub fn add(&mut self, path: &str)
        ensures
            final(self).paths@.len() == old(self).paths@.len() + 1,
            final(self).paths@.drop_last() == old(self).paths@,
            final(self).paths@.last()@ == path@,
            final(self).committed == old(self).committed,
    {
        self.paths.push(String::from_str(path));
        proof {
            assert(self.paths@.drop_last() =~= old(self).paths@);
        }
    }

    /// Disarms the guard: the artifacts are durably placed and must be kept.
    pub fn commit(&mut self)
        ensures
            final(self).committed,
            final(self).paths@ == old(self).paths@,
    {
        self.committed = true;
    }

    /// The paths to delete now: every registered path while the guard is
    /// armed, nothing once it was committed.
    pub fn cleanup(&self) -> (r: Vec<String>)
        ensures
            self.committed ==> r@ =~= Seq::<String>::empty(),
            !self.committed ==> r@ == self.paths@,
    {
        if self.committed {
            Vec::new()
        } else {
            let mut r: Vec<String> = Vec::new();
            let mut i: usize = 0;
            while i < self.paths.len()
                invariant
                    i <= self.paths@.len(),
                    r@ =~= self.paths@.take(i as int),
                decreases self.paths@.len() - i,
            {
                r.push(self.paths[i].clone());
                proof {
                    assert(r@ =~= self.paths@.take(i + 1));
                }
                i = i + 1;
            }
            proof {
                assert(self.paths@.take(self.paths@.len() as int) =~= self.paths@);
            }
            r
        }
    }
}

} // verus!
