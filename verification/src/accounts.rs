//! The deployment's local accounts, keyed by normalized email.

use vstd::prelude::*;

use crate::text::str_eq;

verus! {

/// One local account.
pub struct LocalAccount {
    pub email: String,
    pub password_hash: String,
    pub created_at: usize,
}

/// The abstract value of an account: its email, password hash and creation time.
pub open spec fn account_view(a: LocalAccount) -> (Seq<char>, Seq<char>, usize) {
    (a.email@, a.password_hash@, a.created_at)
}

/// The map that a list of keyed accounts denotes; a later entry overrides an earlier one.
pub open spec fn entries_map(s: Seq<(String, LocalAccount)>) -> Map<
    Seq<char>,
    (Seq<char>, Seq<char>, usize),
>
    decreases s.len(),
{
    if s.len() == 0 {
        Map::empty()
    } else {
        entries_map(s.drop_last()).insert(s.last().0@, account_view(s.last().1))
    }
}

/// Whether no two entries share a key.
pub open spec fn keys_distinct(s: Seq<(String, LocalAccount)>) -> bool {
    forall|i: int, j: int| 0 <= i < j < s.len() ==> s[i].0@ != s[j].0@
}

proof fn lemma_entries_map_at(s: Seq<(String, LocalAccount)>, i: int)
    requires
        keys_distinct(s),
        0 <= i < s.len(),
    ensures
        entries_map(s).contains_key(s[i].0@),
        entries_map(s)[s[i].0@] == account_view(s[i].1),
    decreases s.len(),
{
    if i < s.len() - 1 {
        let t = s.drop_last();
        assert(t[i] == s[i]);
        lemma_entries_map_at(t, i);
        assert(s.last().0@ != s[i].0@);
    }
}

proof fn lemma_entries_map_absent(s: Seq<(String, LocalAccount)>, k: Seq<char>)
    requires
        forall|i: int| 0 <= i < s.len() ==> s[i].0@ != k,
    ensures
        !entries_map(s).contains_key(k),
    decreases s.len(),
{
    if s.len() > 0 {
        let t = s.drop_last();
        assert forall|i: int| 0 <= i < t.len() implies t[i].0@ != k by {
            assert(t[i] == s[i]);
        }
        lemma_entries_map_absent(t, k);
        assert(s.last() == s[s.len() - 1]);
    }
}

proof fn lemma_entries_map_keys(s: Seq<(String, LocalAccount)>, k: Seq<char>)
    requires
        entries_map(s).contains_key(k),
    ensures
        exists|i: int| 0 <= i < s.len() && s[i].0@ == k,
    decreases s.len(),
{
    if s.len() > 0 && s.last().0@ != k {
        let t = s.drop_last();
        lemma_entries_map_keys(t, k);
        let i = choose|i: int| 0 <= i < t.len() && t[i].0@ == k;
        assert(s[i] == t[i]);
    } else if s.len() > 0 {
        assert(s[s.len() - 1].0@ == k);
    }
}

proof fn lemma_entries_map_update(
    s: Seq<(String, LocalAccount)>,
    i: int,
    e: (String, LocalAccount),
)
    requires
        keys_distinct(s),
        0 <= i < s.len(),
        e.0@ == s[i].0@,
    ensures
        keys_distinct(s.update(i, e)),
        entries_map(s.update(i, e)) == entries_map(s).insert(e.0@, account_view(e.1)),
{
    let u = s.update(i, e);
    assert(keys_distinct(u)) by {
        assert forall|a: int, b: int| 0 <= a < b < u.len() implies u[a].0@ != u[b].0@ by {
            assert(s[a].0@ != s[b].0@);
        }
    }
    let lhs = entries_map(u);
    let rhs = entries_map(s).insert(e.0@, account_view(e.1));
    assert forall|k: Seq<char>| lhs.contains_key(k) <==> rhs.contains_key(k) by {
        if lhs.contains_key(k) {
            lemma_entries_map_keys(u, k);
            let j = choose|j: int| 0 <= j < u.len() && u[j].0@ == k;
            if j != i {
                lemma_entries_map_at(s, j);
            }
        }
        if rhs.contains_key(k) {
            if k == e.0@ {
                lemma_entries_map_at(u, i);
            } else {
                lemma_entries_map_keys(s, k);
                let j = choose|j: int| 0 <= j < s.len() && s[j].0@ == k;
                lemma_entries_map_at(u, j);
            }
        }
    }
    assert forall|k: Seq<char>| #[trigger] lhs.contains_key(k) implies lhs[k] == rhs[k] by {
        lemma_entries_map_keys(u, k);
        let j = choose|j: int| 0 <= j < u.len() && u[j].0@ == k;
        lemma_entries_map_at(u, j);
        if j != i {
            lemma_entries_map_at(s, j);
        }
    }
    assert(lhs =~= rhs);
}

/// The local accounts of a deployment; at most one account per key.
pub struct Accounts {
    entries: Vec<(String, LocalAccount)>,
}

impl View for Accounts {
    type V = Map<Seq<char>, (Seq<char>, Seq<char>, usize)>;

    closed spec fn view(&self) -> Self::V {
        entries_map(self.entries@)
    }
}

impl Accounts {
    #[verifier::type_invariant]
    spec fn wf(self) -> bool {
        keys_distinct(self.entries@)
    }

    /// No accounts.
    pub fn new() -> (r: Accounts)
        ensures
            r@ == Map::<Seq<char>, (Seq<char>, Seq<char>, usize)>::empty(),
    {
        Accounts { entries: Vec::new() }
    }

    /// The keyed accounts, each key once, for serialization.
    pub fn entries(&self) -> (r: &Vec<(String, LocalAccount)>)
        ensures
            keys_distinct(r@),
            entries_map(r@) == self@,
    {
        proof {
            use_type_invariant(self);
        }
        &self.entries
    }

    /// Whether no account exists.
    pub fn is_empty(&self) -> (r: bool)
        ensures
            r == (self@ == Map::<Seq<char>, (Seq<char>, Seq<char>, usize)>::empty()),
    {
        proof {
            use_type_invariant(self);
            if self.entries@.len() > 0 {
                lemma_entries_map_at(self.entries@, self.entries@.len() - 1);
            } else {
                assert(self@ =~= Map::<Seq<char>, (Seq<char>, Seq<char>, usize)>::empty());
            }
        }
        self.entries.len() == 0
    }

    fn position(&self, key: &str) -> (r: Option<usize>)
        ensures
            match r {
                Some(i) => i < self.entries@.len() && self.entries@[i as int].0@ == key@,
                None => forall|i: int|
                    0 <= i < self.entries@.len() ==> self.entries@[i].0@ != key@,
            },
    {
        let mut i: usize = 0;
        while i < self.entries.len()
            invariant
                i <= self.entries@.len(),
                forall|j: int| 0 <= j < i ==> self.entries@[j].0@ != key@,
            decreases self.entries@.len() - i,
        {
            if str_eq(self.entries[i].0.as_str(), key) {
                return Some(i);
            }
            i = i + 1;
        }
        None
    }

    /// The account stored under `key`, as `BTreeMap::get` finds it.
    pub fn get(&self, key: &str) -> (r: Option<&LocalAccount>)
        ensures
            match r {
                Some(a) => self@.contains_key(key@) && self@[key@] == account_view(*a),
                None => !self@.contains_key(key@),
            },
    {
        proof {
            use_type_invariant(self);
        }
        match self.position(key) {
            Some(i) => {
                proof {
                    lemma_entries_map_at(self.entries@, i as int);
                }
                Some(&self.entries[i].1)
            },
            None => {
                proof {
                    lemma_entries_map_absent(self.entries@, key@);
                }
                None
            },
        }
    }

    /// Stores `account` under `key`, replacing any account already there, as `BTreeMap::insert`.
    pub fn insert(&mut self, key: String, account: LocalAccount)
        ensures
            final(self)@ == old(self)@.insert(key@, account_view(account)),
    {
        proof {
            use_type_invariant(&*self);
        }
        match self.position(key.as_str()) {
            Some(i) => {
                proof {
                    lemma_entries_map_update(self.entries@, i as int, (key, account));
                }
                let mut entries: Vec<(String, LocalAccount)> = Vec::new();
                std::mem::swap(&mut entries, &mut self.entries);
                entries.set(i, (key, account));
                self.entries = entries;
            },
            None => {
                let ghost old_entries = self.entries@;
                let mut entries: Vec<(String, LocalAccount)> = Vec::new();
                std::mem::swap(&mut entries, &mut self.entries);
                entries.push((key, account));
                proof {
                    assert forall|a: int, b: int| 0 <= a < b < entries@.len() implies entries@[a].0@
                        != entries@[b].0@ by {
                        if b < old_entries.len() {
                            assert(old_entries[a].0@ != old_entries[b].0@);
                        }
                    }
                }
                self.entries = entries;
                proof {
                    assert(self.entries@.drop_last() =~= old_entries);
                    assert(self.entries@.last() == (key, account));
                }
            },
        }
    }

    /// Replaces the password hash of the account under `key`; false when there is none.
    pub fn set_password_hash(&mut self, key: &str, password_hash: String) -> (r: bool)
        ensures
            r == old(self)@.contains_key(key@),
            r ==> final(self)@ == old(self)@.insert(
                key@,
                (old(self)@[key@].0, password_hash@, old(self)@[key@].2),
            ),
            !r ==> final(self)@ == old(self)@,
    {
        proof {
            use_type_invariant(&*self);
        }
        match self.position(key) {
            Some(i) => {
                proof {
                    lemma_entries_map_at(self.entries@, i as int);
                }
                let entry_key = self.entries[i].0.clone();
                let email = self.entries[i].1.email.clone();
                let created_at = self.entries[i].1.created_at;
                let account = LocalAccount { email, password_hash, created_at };
                proof {
                    lemma_entries_map_update(self.entries@, i as int, (entry_key, account));
                }
                let mut entries: Vec<(String, LocalAccount)> = Vec::new();
                std::mem::swap(&mut entries, &mut self.entries);
                entries.set(i, (entry_key, account));
                self.entries = entries;
                true
            },
            None => {
                proof {
                    lemma_entries_map_absent(self.entries@, key@);
                }
                false
            },
        }
    }
}

} // verus!
