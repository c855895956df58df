//! The shared platform secrets that startup caches: restored from durable storage (the
//! first restored value of a name wins) and then seeded from the configuration (which
//! overrides what was restored).

use vstd::prelude::*;

use crate::text::{owned, str_eq};

verus! {

/// The value cached under `k`: the first entry with that name.
pub open spec fn secret_lookup(s: Seq<(Seq<char>, Seq<char>)>, k: Seq<char>) -> Option<Seq<char>>
    decreases s.len(),
{
    if s.len() == 0 {
        None
    } else if s[0].0 == k {
        Some(s[0].1)
    } else {
        secret_lookup(s.drop_first(), k)
    }
}

/// The cache after restoring `rows` in order: a row whose value could be decrypted is
/// cached unless its name already has a value.
pub open spec fn restore_rows(
    cache: Seq<(Seq<char>, Seq<char>)>,
    rows: Seq<(Seq<char>, Option<Seq<char>>)>,
) -> Seq<(Seq<char>, Seq<char>)>
    decreases rows.len(),
{
    if rows.len() == 0 {
        cache
    } else {
        let init = restore_rows(cache, rows.drop_last());
        let (k, v) = rows.last();
        match v {
            Some(value) => if secret_lookup(init, k) is None {
                init.push((k, value))
            } else {
                init
            },
            None => init,
        }
    }
}

/// The views of cached entries.
pub open spec fn pair_views(v: Seq<(String, String)>) -> Seq<(Seq<char>, Seq<char>)> {
    v.map_values(|p: (String, String)| (p.0@, p.1@))
}

/// The views of stored rows, `None` for a value that could not be decrypted.
pub open spec fn row_views(v: Seq<(String, Option<String>)>) -> Seq<(Seq<char>, Option<Seq<char>>)> {
    v.map_values(
        |p: (String, Option<String>)|
            (
                p.0@,
                match p.1 {
                    Some(s) => Some(s@),
                    None => None,
                },
            ),
    )
}

proof fn lemma_lookup_push(s: Seq<(Seq<char>, Seq<char>)>, e: (Seq<char>, Seq<char>), k: Seq<char>)
    ensures
        secret_lookup(s.push(e), k) == match secret_lookup(s, k) {
            Some(v) => Some(v),
            None => if e.0 == k {
                Some(e.1)
            } else {
                None
            },
        },
    decreases s.len(),
{
    if s.len() > 0 {
        assert(s.push(e)[0] == s[0]);
        assert(s.push(e).drop_first() =~= s.drop_first().push(e));
        lemma_lookup_push(s.drop_first(), e, k);
        if s[0].0 != k {
            assert(secret_lookup(s.push(e), k) == secret_lookup(s.drop_first().push(e), k));
            assert(secret_lookup(s, k) == secret_lookup(s.drop_first(), k));
        }
    } else {
        assert(s.push(e)[0] == e);
        assert(s.push(e).drop_first() =~= Seq::<(Seq<char>, Seq<char>)>::empty());
        assert(secret_lookup(s.push(e).drop_first(), k) is None);
        assert(secret_lookup(s, k) is None);
    }
}

proof fn lemma_lookup_update(s: Seq<(Seq<char>, Seq<char>)>, i: int, v: Seq<char>, k: Seq<char>)
    requires
        0 <= i < s.len(),
        forall|j: int| 0 <= j < i ==> (#[trigger] s[j]).0 != s[i].0,
    ensures
        secret_lookup(s.update(i, (s[i].0, v)), k) == if k == s[i].0 {
            Some(v)
        } else {
            secret_lookup(s, k)
        },
    decreases s.len(),
{
    let u = s.update(i, (s[i].0, v));
    if i > 0 {
        let t = s.drop_first();
        assert forall|j: int| 0 <= j < i - 1 implies (#[trigger] t[j]).0 != t[i - 1].0 by {
            assert(t[j] == s[j + 1]);
        }
        lemma_lookup_update(t, i - 1, v, k);
        assert(u.drop_first() =~= t.update(i - 1, (t[i - 1].0, v)));
        assert(u[0] == s[0]);
        assert(s[0].0 != s[i].0);
    } else {
        assert(u.drop_first() =~= s.drop_first());
        assert(u[0] == (s[0].0, v));
    }
}

/// Restoring never replaces a cached value: the first restored value of a name wins, so a
/// tenant's own stored secrets, restored first, take precedence over the legacy `default`
/// bucket restored after them.
pub proof fn law_first_restored_value_wins(
    cache: Seq<(Seq<char>, Seq<char>)>,
    rows: Seq<(Seq<char>, Option<Seq<char>>)>,
    k: Seq<char>,
)
    requires
        secret_lookup(cache, k) is Some,
    ensures
        secret_lookup(restore_rows(cache, rows), k) == secret_lookup(cache, k),
    decreases rows.len(),
{
    if rows.len() > 0 {
        law_first_restored_value_wins(cache, rows.drop_last(), k);
        let init = restore_rows(cache, rows.drop_last());
        let (rk, rv) = rows.last();
        if let Some(value) = rv {
            lemma_lookup_push(init, (rk, value), k);
        }
    }
}

/// The shared platform secrets, each name cached once.
pub struct PlatformSecrets {
    entries: Vec<(String, String)>,
}

impl View for PlatformSecrets {
    type V = Seq<(Seq<char>, Seq<char>)>;

    closed spec fn view(&self) -> Self::V {
        pair_views(self.entries@)
    }
}

impl PlatformSecrets {
    /// No secrets.
    pub fn new() -> (r: PlatformSecrets)
        ensures
            r@ == Seq::<(Seq<char>, Seq<char>)>::empty(),
    {
        let r = PlatformSecrets { entries: Vec::new() };
        assert(r@ =~= Seq::<(Seq<char>, Seq<char>)>::empty());
        r
    }

    fn position(&self, key: &str) -> (r: Option<usize>)
        ensures
            match r {
                Some(i) => i < self@.len() && self@[i as int].0 == key@ && forall|j: int|
                    0 <= j < i ==> self@[j].0 != key@,
                None => forall|j: int| 0 <= j < self@.len() ==> self@[j].0 != key@,
            },
    {
        let mut i: usize = 0;
        while i < self.entries.len()
            invariant
                i <= self.entries@.len(),
                self.entries@.len() == self@.len(),
                forall|j: int| 0 <= j < i ==> self@[j].0 != key@,
            decreases self.entries@.len() - i,
        {
            if str_eq(self.entries[i].0.as_str(), key) {
                return Some(i);
            }
            i = i + 1;
        }
        None
    }

    proof fn lemma_lookup_position(s: Seq<(Seq<char>, Seq<char>)>, k: Seq<char>, i: int)
        requires
            0 <= i < s.len(),
            s[i].0 == k,
            forall|j: int| 0 <= j < i ==> s[j].0 != k,
        ensures
            secret_lookup(s, k) == Some(s[i].1),
        decreases s.len(),
    {
        if i > 0 {
            let t = s.drop_first();
            assert forall|j: int| 0 <= j < i - 1 implies t[j].0 != k by {
                assert(t[j] == s[j + 1]);
            }
            Self::lemma_lookup_position(t, k, i - 1);
        }
    }

    proof fn lemma_lookup_absent(s: Seq<(Seq<char>, Seq<char>)>, k: Seq<char>)
        requires
            forall|j: int| 0 <= j < s.len() ==> s[j].0 != k,
        ensures
            secret_lookup(s, k) is None,
        decreases s.len(),
    {
        if s.len() > 0 {
            let t = s.drop_first();
            assert forall|j: int| 0 <= j < t.len() implies t[j].0 != k by {
                assert(t[j] == s[j + 1]);
            }
            Self::lemma_lookup_absent(t, k);
        }
    }

    /// The secret cached under `key`.
    pub fn get(&self, key: &str) -> (r: Option<&str>)
        ensures
            match r {
                Some(v) => secret_lookup(self@, key@) == Some(v@),
                None => secret_lookup(self@, key@) is None,
            },
    {
        match self.position(key) {
            Some(i) => {
                proof {
                    Self::lemma_lookup_position(self@, key@, i as int);
                }
                Some(self.entries[i].1.as_str())
            },
            None => {
                proof {
                    Self::lemma_lookup_absent(self@, key@);
                }
                None
            },
        }
    }

    /// Restores a stored secret: cached unless the name already has a value; whether it was.
    pub fn restore(&mut self, key: &str, value: &str) -> (restored: bool)
        ensures
            restored == (secret_lookup(old(self)@, key@) is None),
            final(self)@ == if restored {
                old(self)@.push((key@, value@))
            } else {
                old(self)@
            },
    {
        match self.position(key) {
            Some(i) => {
                proof {
                    Self::lemma_lookup_position(self@, key@, i as int);
                }
                false
            },
            None => {
                proof {
                    Self::lemma_lookup_absent(self@, key@);
                }
                let ghost before = self@;
                self.entries.push((owned(key), owned(value)));
                assert(self@ =~= before.push((key@, value@)));
                true
            },
        }
    }

    /// Caches a secret from the configuration, replacing a restored value.
    pub fn cache(&mut self, key: &str, value: &str)
        ensures
            secret_lookup(final(self)@, key@) == Some(value@),
            forall|k: Seq<char>| k != key@ ==> secret_lookup(final(self)@, k) == secret_lookup(
                old(self)@,
                k,
            ),
    {
        let ghost before = self@;
        match self.position(key) {
            Some(i) => {
                self.entries.set(i, (owned(key), owned(value)));
                proof {
                    assert(self@ =~= before.update(i as int, (before[i as int].0, value@)));
                    assert forall|k: Seq<char>| true implies secret_lookup(self@, k) == if k == key@ {
                        Some(value@)
                    } else {
                        secret_lookup(before, k)
                    } by {
                        lemma_lookup_update(before, i as int, value@, k);
                    }
                }
            },
            None => {
                self.entries.push((owned(key), owned(value)));
                proof {
                    Self::lemma_lookup_absent(before, key@);
                    assert(self@ =~= before.push((key@, value@)));
                    assert forall|k: Seq<char>| true implies secret_lookup(self@, k) == if k == key@ {
                        Some(value@)
                    } else {
                        secret_lookup(before, k)
                    } by {
                        lemma_lookup_push(before, (key@, value@), k);
                    }
                }
            },
        }
    }

    /// The cached secrets, in order.
    pub fn entries(&self) -> (r: &Vec<(String, String)>)
        ensures
            pair_views(r@) == self@,
    {
        &self.entries
    }
}

/// The value of the first row named `k` that could be decrypted.
pub open spec fn first_decrypted(rows: Seq<(Seq<char>, Option<Seq<char>>)>, k: Seq<char>) -> Option<
    Seq<char>,
>
    decreases rows.len(),
{
    if rows.len() == 0 {
        None
    } else {
        match first_decrypted(rows.drop_last(), k) {
            Some(v) => Some(v),
            None => if rows.last().0 == k {
                rows.last().1
            } else {
                None
            },
        }
    }
}

/// A name that has no cached value takes the value of its first stored row that could be
/// decrypted; later rows of that name are ignored, and it stays absent where none could be.
pub proof fn law_new_secret_takes_first_decrypted_row(
    cache: Seq<(Seq<char>, Seq<char>)>,
    rows: Seq<(Seq<char>, Option<Seq<char>>)>,
    k: Seq<char>,
)
    requires
        secret_lookup(cache, k) is None,
    ensures
        secret_lookup(restore_rows(cache, rows), k) == first_decrypted(rows, k),
    decreases rows.len(),
{
    if rows.len() > 0 {
        law_new_secret_takes_first_decrypted_row(cache, rows.drop_last(), k);
        let init = restore_rows(cache, rows.drop_last());
        let (rk, rv) = rows.last();
        if let Some(value) = rv {
            lemma_lookup_push(init, (rk, value), k);
        }
    }
}

/// Restores stored rows in order (a row's value is `None` where it could not be decrypted);
/// how many were cached.
pub fn restore_secrets(cache: &mut PlatformSecrets, rows: &Vec<(String, Option<String>)>) -> (r: usize)
    ensures
        final(cache)@ == restore_rows(old(cache)@, row_views(rows@)),
        r == final(cache)@.len() - old(cache)@.len(),
{
    let mut restored: usize = 0;
    let mut i: usize = 0;
    while i < rows.len()
        invariant
            i <= rows@.len(),
            restored <= i,
            restored == cache@.len() - old(cache)@.len(),
            cache@ == restore_rows(old(cache)@, row_views(rows@.take(i as int))),
        decreases rows@.len() - i,
    {
        proof {
            let t = row_views(rows@.take(i + 1));
            assert(t.drop_last() =~= row_views(rows@.take(i as int)));
            assert(t.last() == row_views(rows@)[i as int]);
        }
        match &rows[i].1 {
            Some(value) => {
                if cache.restore(rows[i].0.as_str(), value.as_str()) {
                    restored = restored + 1;
                }
            },
            None => {},
        }
        i = i + 1;
    }
    assert(rows@.take(rows@.len() as int) =~= rows@);
    restored
}

} // verus!
