//! The list of managed game directories.
//!
//! The installer keeps an ordered list of the game directories it has
//! attached the injector to, so that they can later be uninstalled or
//! re-targeted. The list holds no duplicate paths: appending rejects a path
//! that is already present; order is otherwise preserved.

use vstd::prelude::*;

verus! {

/// The persisted record: an ordered list of managed game directory paths.
#[derive(Debug, Clone)]
pub struct Config {
    /// The managed game directories, in the order they were attached.
    pub game_paths: Vec<String>,
}

impl Config {
    /// The list of paths as a mathematical sequence of character sequences.
    pub open spec fn paths(&self) -> Seq<Seq<char>> {
        self.game_paths.deep_view()
    }

    /// An empty record: no game directory is managed yet.
    pub fn new() -> (r: Config)
        ensures
            r.paths() == Seq::<Seq<char>>::empty(),
    {
        let r = Config { game_paths: Vec::new() };
        proof {
            assert(r.paths() =~= Seq::<Seq<char>>::empty());
        }
        r
    }

    /// Whether `p` is one of the managed game directories.
    pub fn contains_game_path(&self, p: &String) -> (r: bool)
        ensures
            r == self.paths().contains(p@),
    {
        let n = self.game_paths.len();
        let mut i: usize = 0;
        while i < n
            invariant
                n == self.game_paths.len(),
                0 <= i <= n,
                forall|j: int| 0 <= j < i ==> self.paths()[j] != p@,
            decreases n - i,
        {
            assert(self.paths()[i as int] == self.game_paths@[i as int]@);
            if self.game_paths[i].eq(p) {
                return true;
            }
            i = i + 1;
        }
        proof {
            assert forall|j: int| 0 <= j < self.paths().len() implies self.paths()[j] != p@ by {}
        }
        false
    }

    /// Appends `p` unless an equal path is already in the list; reports
    /// whether it was appended. Order of the existing entries is kept.
    pub fn add_game_path(&mut self, p: String) -> (added: bool)
        ensures
            added == !old(self).paths().contains(p@),
            added ==> final(self).paths() == old(self).paths().push(p@),
            !added ==> final(self).paths() == old(self).paths(),
    {
        if self.contains_game_path(&p) {
            false
        } else {
            self.game_paths.push(p);
            proof {
                assert(self.paths() =~= old(self).paths().push(self.game_paths@.last()@));
            }
            true
        }
    }

    /// Removes every entry equal to `p`, keeping the order of the rest.
    pub fn remove_game_path(&mut self, p: &String)
        ensures
            final(self).paths() == without_path(old(self).paths(), p@),
    {
        let n = self.game_paths.len();
        let mut kept: Vec<String> = Vec::new();
        let mut i: usize = 0;
        proof {
            assert(old(self).paths().take(0) =~= Seq::<Seq<char>>::empty());
            assert(kept.deep_view() =~= Seq::<Seq<char>>::empty());
        }
        while i < n
            invariant
                n == self.game_paths.len(),
                *self == *old(self),
                0 <= i <= n,
                kept.deep_view() == without_path(old(self).paths().take(i as int), p@),
            decreases n - i,
        {
            let ghost prefix = old(self).paths().take(i as int);
            assert(self.paths()[i as int] == self.game_paths@[i as int]@);
            let keep = !self.game_paths[i].eq(p);
            if keep {
                let entry = self.game_paths[i].clone();
                kept.push(entry);
            }
            proof {
                let step = old(self).paths().take(i + 1);
                assert(step.drop_last() =~= prefix);
                assert(step.last() == old(self).paths()[i as int]);
                if keep {
                    assert(kept.deep_view() =~= without_path(prefix, p@).push(
                        old(self).paths()[i as int],
                    ));
                } else {
                    assert(kept.deep_view() == without_path(prefix, p@));
                }
                assert(kept.deep_view() == without_path(step, p@));
            }
            i = i + 1;
        }
        proof {
            assert(old(self).paths().take(n as int) =~= old(self).paths());
        }
        self.game_paths = kept;
    }
}

/// The sequence `s` with every entry equal to `p` removed, order kept.
pub open spec fn without_path(s: Seq<Seq<char>>, p: Seq<char>) -> Seq<Seq<char>>
    decreases s.len(),
{
    if s.len() == 0 {
        Seq::<Seq<char>>::empty()
    } else if s.last() == p {
        without_path(s.drop_last(), p)
    } else {
        without_path(s.drop_last(), p).push(s.last())
    }
}

/// After removal nothing in the list equals the removed path, and every
/// other entry survives.
pub proof fn lemma_without_path(s: Seq<Seq<char>>, p: Seq<char>)
    ensures
        !without_path(s, p).contains(p),
        forall|q: Seq<char>| q != p ==> (without_path(s, p).contains(q) == s.contains(q)),
    decreases s.len(),
{
    if s.len() == 0 {
        assert forall|q: Seq<char>| q != p implies (without_path(s, p).contains(q) == s.contains(
            q,
        )) by {
            assert(!s.contains(q));
        }
    } else {
        lemma_without_path(s.drop_last(), p);
        let rest = s.drop_last();
        let out = without_path(s, p);
        assert forall|q: Seq<char>| q != p implies (out.contains(q) == s.contains(q)) by {
            if s.contains(q) {
                let k = choose|k: int| 0 <= k < s.len() && s[k] == q;
                if k < s.len() - 1 {
                    assert(rest[k] == q);
                    assert(rest.contains(q));
                    assert(without_path(rest, p).contains(q));
                    let m = choose|m: int|
                        0 <= m < without_path(rest, p).len() && without_path(rest, p)[m] == q;
                    assert(out[m] == q);
                } else {
                    assert(s.last() == q);
                    assert(out[out.len() - 1] == q);
                }
                assert(out.contains(q));
            }
            if out.contains(q) {
                if s.last() == p {
                    assert(rest.contains(q));
                    let k = choose|k: int| 0 <= k < rest.len() && rest[k] == q;
                    assert(s[k] == q);
                } else {
                    let k = choose|k: int| 0 <= k < out.len() && out[k] == q;
                    if k < out.len() - 1 {
                        assert(without_path(rest, p)[k] == q);
                        assert(rest.contains(q));
                        let m = choose|m: int| 0 <= m < rest.len() && rest[m] == q;
                        assert(s[m] == q);
                    } else {
                        assert(s.last() == q);
                    }
                }
                assert(s.contains(q));
            }
        }
        if s.last() == p {
        } else {
            assert(!out.contains(p)) by {
                if out.contains(p) {
                    let k = choose|k: int| 0 <= k < out.len() && out[k] == p;
                    if k < out.len() - 1 {
                        assert(without_path(rest, p)[k] == p);
                        assert(without_path(rest, p).contains(p));
                    } else {
                        assert(out.last() == s.last());
                    }
                }
            }
        }
    }
}

impl Default for Config {
    /// The default record is the empty one.
    fn default() -> (r: Config)
        ensures
            r.paths() == Seq::<Seq<char>>::empty(),
    {
        Config::new()
    }
}

} // verus!
