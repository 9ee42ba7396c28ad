//! The set of attached controllers, keyed by physical path. A device's
//! channel is its rank among the attached paths in lexicographic order, so
//! attaching or removing one device can move every other device's channel.

use vstd::prelude::*;

verus! {

/// Name that a qualifying device advertises.
pub const CONTROLLER_NAME: &'static str = "KONAMI USB Multipurpose Controller";

/// Number of distinct key codes that a qualifying device reports.
pub const CONTROLLER_KEY_COUNT: usize = 34;

/// Whether `a` sorts before `b` when both are compared from position `i` on,
/// character by character, a proper prefix sorting first.
pub open spec fn lex_lt_from(a: Seq<char>, b: Seq<char>, i: int) -> bool
    decreases a.len() - i,
{
    if i >= a.len() {
        i < b.len()
    } else if i >= b.len() {
        false
    } else if a[i] != b[i] {
        (a[i] as u32) < (b[i] as u32)
    } else {
        lex_lt_from(a, b, i + 1)
    }
}

/// Lexicographic order on character sequences (which is also the byte order
/// of their UTF-8 encodings).
pub open spec fn lex_lt(a: Seq<char>, b: Seq<char>) -> bool {
    lex_lt_from(a, b, 0)
}

/// How many of the paths in `s` sort before `p`.
pub open spec fn rank(s: Seq<Seq<char>>, p: Seq<char>) -> nat
    decreases s.len(),
{
    if s.len() == 0 {
        0
    } else {
        rank(s.drop_last(), p) + if lex_lt(s.last(), p) {
            1nat
        } else {
            0nat
        }
    }
}

/// Attaching a device moves each attached device that sorts after it one
/// channel up, and leaves every other channel as it was.
pub proof fn lemma_attach_shifts_rank(s: Seq<Seq<char>>, p: Seq<char>, q: Seq<char>)
    ensures
        rank(s.push(p), q) == rank(s, q) + if lex_lt(p, q) {
            1nat
        } else {
            0nat
        },
{
    assert(s.push(p).drop_last() =~= s);
}

/// Detaching the device at position `i` moves each attached device that
/// sorts after it one channel down, and leaves every other channel as it
/// was.
pub proof fn lemma_detach_shifts_rank(s: Seq<Seq<char>>, i: int, q: Seq<char>)
    requires
        0 <= i < s.len(),
    ensures
        rank(s.remove(i), q) + (if lex_lt(s[i], q) {
            1nat
        } else {
            0nat
        }) == rank(s, q),
    decreases s.len(),
{
    if i == s.len() - 1 {
        assert(s.remove(i) =~= s.drop_last());
    } else {
        lemma_detach_shifts_rank(s.drop_last(), i, q);
        assert(s.remove(i).drop_last() =~= s.drop_last().remove(i));
        assert(s.remove(i).last() == s.last());
    }
}

/// Compares two strings: negative when `a` sorts first, zero when they are
/// equal, positive when `b` sorts first.
pub fn compare(a: &str, b: &str) -> (r: i8)
    ensures
        r < 0 <==> lex_lt(a@, b@),
        r == 0 <==> a@ == b@,
        r > 0 <==> lex_lt(b@, a@),
{
    let la = a.unicode_len();
    let lb = b.unicode_len();
    let mut i: usize = 0;
    while i < la && i < lb
        invariant
            la == a@.len(),
            lb == b@.len(),
            i <= la,
            i <= lb,
            forall|k: int| 0 <= k < i ==> a@[k] == b@[k],
            lex_lt(a@, b@) == lex_lt_from(a@, b@, i as int),
            lex_lt(b@, a@) == lex_lt_from(b@, a@, i as int),
        decreases la - i,
    {
        let ca = a.get_char(i);
        let cb = b.get_char(i);
        if (ca as u32) < (cb as u32) {
            return -1;
        }
        if (cb as u32) < (ca as u32) {
            return 1;
        }
        assert(ca == cb);
        i += 1;
    }
    if la < lb {
        -1
    } else if lb < la {
        1
    } else {
        assert(a@ =~= b@);
        0
    }
}

/// Whether a device is one of the controllers: by its advertised name and
/// by how many key codes it reports.
pub fn qualifies(name: Option<&str>, key_count: usize) -> (r: bool)
    ensures
        r == (name matches Some(n) && n@ == CONTROLLER_NAME@ && key_count == CONTROLLER_KEY_COUNT),
{
    match name {
        Some(n) => compare(n, CONTROLLER_NAME) == 0 && key_count == CONTROLLER_KEY_COUNT,
        None => false,
    }
}

/// The attached devices' physical paths, in the order they were attached.
#[derive(Debug)]
pub struct Registry {
    paths: Vec<String>,
}

impl View for Registry {
    type V = Seq<Seq<char>>;

    closed spec fn view(&self) -> Seq<Seq<char>> {
        self.paths@.map_values(|p: String| p@)
    }
}

impl Registry {
    /// Each path is attached at most once.
    pub open spec fn wf(&self) -> bool {
        self@.no_duplicates()
    }

    /// No device attached.
    pub fn new() -> (r: Registry)
        ensures
            r@ == Seq::<Seq<char>>::empty(),
            r.wf(),
    {
        let r = Registry { paths: Vec::new() };
        assert(r@ =~= Seq::<Seq<char>>::empty());
        r
    }

    /// Number of attached devices.
    pub fn len(&self) -> (r: usize)
        ensures
            r == self@.len(),
    {
        self.paths.len()
    }

    /// Where `path` is in the attach order, if it is attached.
    fn position(&self, path: &str) -> (r: Option<usize>)
        ensures
            match r {
                Some(i) => i < self@.len() && self@[i as int] == path@,
                None => !self@.contains(path@),
            },
    {
        let mut i: usize = 0;
        while i < self.paths.len()
            invariant
                i <= self.paths@.len(),
                forall|k: int| 0 <= k < i ==> self@[k] != path@,
            decreases self.paths.len() - i,
        {
            assert(self@[i as int] == self.paths@[i as int]@);
            if compare(self.paths[i].as_str(), path) == 0 {
                return Some(i);
            }
            i += 1;
        }
        None
    }

    /// Whether `path` is attached.
    pub fn contains(&self, path: &str) -> (r: bool)
        ensures
            r == self@.contains(path@),
    {
        self.position(path).is_some()
    }

    /// Attaches `path`; returns false, changing nothing, when it is already
    /// attached.
    pub fn insert(&mut self, path: String) -> (r: bool)
        requires
            old(self).wf(),
        ensures
            r == !old(self)@.contains(path@),
            final(self)@ == if r {
                old(self)@.push(path@)
            } else {
                old(self)@
            },
            final(self).wf(),
    {
        if self.position(path.as_str()).is_some() {
            return false;
        }
        let ghost p = path@;
        self.paths.push(path);
        assert(self@ =~= old(self)@.push(p));
        true
    }

    /// Detaches `path`; returns false, changing nothing, when it is not
    /// attached.
    pub fn remove(&mut self, path: &str) -> (r: bool)
        requires
            old(self).wf(),
        ensures
            r == old(self)@.contains(path@),
            r ==> exists|i: int|
                0 <= i < old(self)@.len() && old(self)@[i] == path@ && final(self)@ == old(
                    self,
                )@.remove(i),
            !r ==> final(self)@ == old(self)@,
            final(self).wf(),
            !final(self)@.contains(path@),
    {
        match self.position(path) {
            Some(i) => {
                self.paths.remove(i);
                assert(self@ =~= old(self)@.remove(i as int));
                proof {
                    assert forall|a: int, b: int|
                        0 <= a < self@.len() && 0 <= b < self@.len() && a != b implies self@[a]
                        != self@[b] by {
                        let oa = if a < i { a } else { a + 1 };
                        let ob = if b < i { b } else { b + 1 };
                        assert(self@[a] == old(self)@[oa]);
                        assert(self@[b] == old(self)@[ob]);
                    }
                    assert forall|k: int| 0 <= k < self@.len() implies self@[k] != path@ by {
                        let ok = if k < i { k } else { k + 1 };
                        assert(self@[k] == old(self)@[ok]);
                    }
                }
                true
            },
            None => false,
        }
    }

    /// The channel of the device at `path`: how many attached paths sort
    /// before it. `None` when it is not attached.
    pub fn channel_of(&self, path: &str) -> (r: Option<usize>)
        ensures
            r == if self@.contains(path@) {
                Some(rank(self@, path@) as usize)
            } else {
                None::<usize>
            },
    {
        if !self.contains(path) {
            return None;
        }
        let mut count: usize = 0;
        let mut i: usize = 0;
        while i < self.paths.len()
            invariant
                i <= self.paths@.len(),
                count == rank(self@.subrange(0, i as int), path@),
                count <= i,
            decreases self.paths.len() - i,
        {
            assert(self@.subrange(0, i as int + 1).drop_last() =~= self@.subrange(0, i as int));
            assert(self@[i as int] == self.paths@[i as int]@);
            if compare(self.paths[i].as_str(), path) < 0 {
                count += 1;
            }
            i += 1;
        }
        assert(self@.subrange(0, self@.len() as int) =~= self@);
        Some(count)
    }
}

} // verus!
