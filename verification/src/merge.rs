//! The merged shader tree and its override policy.
//!
//! Several shader sources are combined into one tree. Sources are merged one
//! after another with overwrite enabled: a file that a later source also
//! holds at the same relative path is replaced (last writer wins), files
//! only present at the destination are left untouched — a non-destructive
//! merge, not a mirror.
//!
//! A tree is modelled as the files it holds: relative path to content. The
//! surrounding program reads a source tree off the disk into this form, asks
//! for the merge, and writes the result back.

use vstd::prelude::*;
use vstd::slice::slice_to_vec;

verus! {

/// The path/content pairs of a file sequence, as mathematical values.
pub open spec fn kv_view(s: Seq<(String, Vec<u8>)>) -> Seq<(Seq<char>, Seq<u8>)> {
    Seq::new(s.len(), |i: int| (s[i].0@, s[i].1@))
}

/// The file map a sequence of path/content pairs denotes: a later pair with
/// the same path overrides an earlier one.
pub open spec fn entries_map(s: Seq<(Seq<char>, Seq<u8>)>) -> Map<Seq<char>, Seq<u8>>
    decreases s.len(),
{
    if s.len() == 0 {
        Map::<Seq<char>, Seq<u8>>::empty()
    } else {
        entries_map(s.drop_last()).insert(s.last().0, s.last().1)
    }
}

/// A file tree held in memory: the files it holds, path by path.
///
/// Its view is the map from relative path to file content; among repeated
/// entries for one path the latest wins, mirroring the overwrite-enabled
/// copy that produces the tree on disk.
pub struct FileTree {
    entries: Vec<(String, Vec<u8>)>,
}

impl View for FileTree {
    type V = Map<Seq<char>, Seq<u8>>;

    closed spec fn view(&self) -> Map<Seq<char>, Seq<u8>> {
        entries_map(kv_view(self.entries@))
    }
}

/// Concatenating entry sequences unions their maps, the right side winning.
pub proof fn lemma_entries_map_concat(a: Seq<(Seq<char>, Seq<u8>)>, b: Seq<(Seq<char>, Seq<u8>)>)
    ensures
        entries_map(a + b) == entries_map(a).union_prefer_right(entries_map(b)),
    decreases b.len(),
{
    if b.len() == 0 {
        assert(a + b =~= a);
        assert(entries_map(a).union_prefer_right(entries_map(b)) =~= entries_map(a));
    } else {
        lemma_entries_map_concat(a, b.drop_last());
        assert((a + b).drop_last() =~= a + b.drop_last());
        assert((a + b).last() == b.last());
        assert(entries_map(a).union_prefer_right(entries_map(b.drop_last())).insert(
            b.last().0,
            b.last().1,
        ) =~= entries_map(a).union_prefer_right(
            entries_map(b.drop_last()).insert(b.last().0, b.last().1),
        ));
    }
}

/// The value of the map at a path whose last occurrence is `k`.
proof fn lemma_entries_map_at(s: Seq<(Seq<char>, Seq<u8>)>, p: Seq<char>, k: int)
    requires
        0 <= k < s.len(),
        s[k].0 == p,
        forall|j: int| k < j < s.len() ==> (#[trigger] s[j]).0 != p,
    ensures
        entries_map(s).contains_key(p),
        entries_map(s)[p] == s[k].1,
    decreases s.len(),
{
    if k == s.len() - 1 {
    } else {
        lemma_entries_map_at(s.drop_last(), p, k);
    }
}

/// A path no entry holds is not in the map.
proof fn lemma_entries_map_absent(s: Seq<(Seq<char>, Seq<u8>)>, p: Seq<char>)
    requires
        forall|j: int| 0 <= j < s.len() ==> (#[trigger] s[j]).0 != p,
    ensures
        !entries_map(s).contains_key(p),
    decreases s.len(),
{
    if s.len() > 0 {
        lemma_entries_map_absent(s.drop_last(), p);
    }
}

impl FileTree {
    /// A tree with no files.
    pub fn new() -> (r: FileTree)
        ensures
            r@ == Map::<Seq<char>, Seq<u8>>::empty(),
    {
        let r = FileTree { entries: Vec::new() };
        proof {
            assert(kv_view(r.entries@) =~= Seq::<(Seq<char>, Seq<u8>)>::empty());
        }
        r
    }

    /// Places one file: the tree then holds `content` at `path`, replacing
    /// what was there.
    pub fn put(&mut self, path: String, content: Vec<u8>)
        ensures
            final(self)@ == old(self)@.insert(path@, content@),
    {
        let ghost before = kv_view(self.entries@);
        let ghost pk = path@;
        let ghost ck = content@;
        self.entries.push((path, content));
        proof {
            let after = kv_view(self.entries@);
            assert(after.drop_last() =~= before);
            assert(after.len() == before.len() + 1);
            assert(after.last() == (pk, ck));
            assert(entries_map(after) == entries_map(before).insert(pk, ck));
        }
    }

    /// Merges another tree into this one: every file of `other` is placed,
    /// replacing same-path files here (the later source wins); files only
    /// present here are left untouched.
    pub fn merge_from(&mut self, other: &FileTree)
        ensures
            final(self)@ == old(self)@.union_prefer_right(other@),
    {
        let n = other.entries.len();
        let mut i: usize = 0;
        proof {
            assert(kv_view(other.entries@).take(0) =~= Seq::<(Seq<char>, Seq<u8>)>::empty());
            assert(kv_view(self.entries@) =~= kv_view(old(self).entries@) + kv_view(
                other.entries@,
            ).take(0));
        }
        while i < n
            invariant
                n == other.entries.len(),
                0 <= i <= n,
                kv_view(self.entries@) == kv_view(old(self).entries@) + kv_view(
                    other.entries@,
                ).take(i as int),
            decreases n - i,
        {
            let entry: &(String, Vec<u8>) = &other.entries[i];
            assert(*entry == other.entries@[i as int]);
            let path = entry.0.clone();
            let content = slice_to_vec(entry.1.as_slice());
            assert(path@ == other.entries@[i as int].0@);
            assert(content@ == other.entries@[i as int].1@);
            let ghost pre = kv_view(self.entries@);
            let ghost pk = path@;
            let ghost ck = content@;
            self.entries.push((path, content));
            proof {
                let kvo = kv_view(other.entries@);
                let after = kv_view(self.entries@);
                assert(after.drop_last() =~= pre);
                assert(after.len() == pre.len() + 1);
                assert(after.last() == (pk, ck));
                assert(kvo[i as int] == (pk, ck));
                assert(after =~= pre.push((pk, ck)));
                assert(kvo.take(i + 1) =~= kvo.take(i as int).push(kvo[i as int]));
                assert(kv_view(old(self).entries@) + kvo.take(i + 1) =~= (kv_view(
                    old(self).entries@,
                ) + kvo.take(i as int)).push(kvo[i as int]));
                assert(after == kv_view(old(self).entries@) + kvo.take(i + 1));
            }
            i = i + 1;
        }
        proof {
            assert(kv_view(other.entries@).take(n as int) =~= kv_view(other.entries@));
            assert(kv_view(self.entries@) == kv_view(old(self).entries@) + kv_view(
                other.entries@,
            ));
            lemma_entries_map_concat(kv_view(old(self).entries@), kv_view(other.entries@));
        }
    }

    /// The content the tree holds at `path`, or nothing.
    pub fn get(&self, path: &String) -> (r: Option<&Vec<u8>>)
        ensures
            match r {
                Some(c) => self@.contains_key(path@) && c@ == self@[path@],
                None => !self@.contains_key(path@),
            },
    {
        let n = self.entries.len();
        let mut i: usize = n;
        while i > 0
            invariant
                n == self.entries.len(),
                0 <= i <= n,
                forall|j: int|
                    i <= j < n ==> (#[trigger] kv_view(self.entries@)[j]).0 != path@,
            decreases i,
        {
            i = i - 1;
            assert(kv_view(self.entries@)[i as int].0 == self.entries@[i as int].0@);
            if self.entries[i].0.eq(path) {
                proof {
                    lemma_entries_map_at(kv_view(self.entries@), path@, i as int);
                }
                return Some(&self.entries[i].1);
            }
        }
        proof {
            lemma_entries_map_absent(kv_view(self.entries@), path@);
        }
        None
    }
}

/// The override policy of the merged tree: after merging source A and then
/// source B onto a base tree, a path B holds carries B's content, and a path
/// only A holds keeps A's content.
pub proof fn lemma_merge_last_wins(
    base: Map<Seq<char>, Seq<u8>>,
    a: Map<Seq<char>, Seq<u8>>,
    b: Map<Seq<char>, Seq<u8>>,
    p: Seq<char>,
)
    ensures
        b.contains_key(p) ==> base.union_prefer_right(a).union_prefer_right(b)[p] == b[p],
        (!b.contains_key(p) && a.contains_key(p)) ==> base.union_prefer_right(
            a,
        ).union_prefer_right(b)[p] == a[p],
{
}

} // verus!
