//! The name-to-value environment: a store with unique keys, modelled as a
//! map from names to expression models.  The order of the entries is the
//! order of first insertion, which the trace rendering follows.

use vstd::prelude::*;
use vstd::string::StringExecFns;
use crate::expression::{ExprModel, Expression};

verus! {

/// The mathematical model of an environment.
pub type EnvModel = Map<Seq<char>, ExprModel>;

/// One rendered entry list as a model: name paired with stored value.
pub type EntriesModel = Seq<(Seq<char>, ExprModel)>;

/// The map described by an entry list; a later entry for a name overrides
/// an earlier one (with unique keys none does).
pub open spec fn env_map_of(entries: EntriesModel) -> EnvModel
    decreases entries.len(),
{
    if entries.len() == 0 {
        Map::empty()
    } else {
        env_map_of(entries.drop_last()).insert(entries.last().0, entries.last().1)
    }
}

/// No two entries share a name.
pub open spec fn unique_keys(entries: EntriesModel) -> bool {
    forall|i: int, j: int|
        0 <= i < j < entries.len() ==> (#[trigger] entries[i]).0 != (#[trigger] entries[j]).0
}

/// The entry list after binding `name` to `value`: the existing entry for
/// `name` is overwritten in place, otherwise the binding is appended.
pub open spec fn entries_insert(entries: EntriesModel, name: Seq<char>, value: ExprModel)
    -> EntriesModel
{
    if exists|i: int| 0 <= i < entries.len() && (#[trigger] entries[i]).0 == name {
        let i = choose|i: int| 0 <= i < entries.len() && (#[trigger] entries[i]).0 == name;
        entries.update(i, (name, value))
    } else {
        entries.push((name, value))
    }
}

/// The mutable name-to-value store consulted by variable lookup and
/// replaced wholesale when an assignment commits.
pub struct Environment {
    entries: Vec<(String, Expression)>,
}

impl Environment {
    /// The stored bindings in insertion order.
    pub closed spec fn entries(self) -> EntriesModel {
        self.entries@.map_values(|p: (String, Expression)| (p.0@, p.1@))
    }

    /// Validity: names are unique, so the entry list and the map agree.
    pub open spec fn wf(self) -> bool {
        unique_keys(self.entries())
    }
}

impl View for Environment {
    type V = EnvModel;

    open spec fn view(&self) -> EnvModel {
        env_map_of(self.entries())
    }
}

/// An entry with name `k` at position `i` of a unique-key list is the one
/// the map yields for `k`.
pub proof fn lemma_env_map_entry(entries: EntriesModel, i: int)
    requires
        unique_keys(entries),
        0 <= i < entries.len(),
    ensures
        env_map_of(entries).dom().contains(entries[i].0),
        env_map_of(entries)[entries[i].0] == entries[i].1,
    decreases entries.len(),
{
    if i < entries.len() - 1 {
        lemma_env_map_entry(entries.drop_last(), i);
    }
}

/// A name under no entry is not in the map.
pub proof fn lemma_env_map_absent(entries: EntriesModel, k: Seq<char>)
    requires
        forall|i: int| 0 <= i < entries.len() ==> (#[trigger] entries[i]).0 != k,
    ensures
        !env_map_of(entries).dom().contains(k),
    decreases entries.len(),
{
    if entries.len() > 0 {
        lemma_env_map_absent(entries.drop_last(), k);
    }
}

/// Overwriting the entry that holds `k` turns the map into its insert.
proof fn lemma_env_map_update(entries: EntriesModel, j: int, k: Seq<char>, v: ExprModel)
    requires
        unique_keys(entries),
        0 <= j < entries.len(),
        entries[j].0 == k,
    ensures
        env_map_of(entries.update(j, (k, v))) == env_map_of(entries).insert(k, v),
        unique_keys(entries.update(j, (k, v))),
    decreases entries.len(),
{
    let updated = entries.update(j, (k, v));
    assert(forall|i: int| 0 <= i < entries.len() && i != j ==> updated[i] == entries[i]);
    if j == entries.len() - 1 {
        assert(updated.drop_last() =~= entries.drop_last());
        assert(env_map_of(updated)
            == env_map_of(entries.drop_last()).insert(k, v));
        assert(env_map_of(entries).insert(k, v)
            == env_map_of(entries.drop_last()).insert(k, entries[j].1).insert(k, v));
        assert(env_map_of(entries.drop_last()).insert(k, entries[j].1).insert(k, v)
            =~= env_map_of(entries.drop_last()).insert(k, v));
    } else {
        lemma_env_map_update(entries.drop_last(), j, k, v);
        assert(updated.drop_last() =~= entries.drop_last().update(j, (k, v)));
        let last = entries.last();
        assert(updated.last() == last);
        assert(env_map_of(updated)
            == env_map_of(entries.drop_last()).insert(k, v).insert(last.0, last.1));
        // The overwritten name differs from the last entry's name.
        assert(last.0 != k);
        assert(env_map_of(entries.drop_last()).insert(k, v).insert(last.0, last.1)
            =~= env_map_of(entries.drop_last()).insert(last.0, last.1).insert(k, v));
    }
}

impl Environment {
    /// An empty environment.
    pub fn new() -> (r: Environment)
        ensures
            r.wf(),
            r@ == Map::<Seq<char>, ExprModel>::empty(),
            r.entries() == Seq::<(Seq<char>, ExprModel)>::empty(),
    {
        let r = Environment { entries: Vec::new() };
        proof {
            assert(r.entries() =~= Seq::<(Seq<char>, ExprModel)>::empty());
        }
        r
    }

    /// The value stored under `name`, if any.
    pub fn lookup(&self, name: &String) -> (r: Option<&Expression>)
        requires
            self.wf(),
        ensures
            match r {
                Some(v) => self@.dom().contains(name@) && v@ == self@[name@],
                None => !self@.dom().contains(name@),
            },
    {
        let n = self.entries.len();
        let mut i: usize = 0;
        while i < n
            invariant
                n == self.entries.len(),
                i <= n,
                self.wf(),
                forall|j: int| 0 <= j < i ==> (#[trigger] self.entries()[j]).0 != name@,
            decreases n - i,
        {
            if self.entries[i].0 == *name {
                proof {
                    assert(self.entries()[i as int].0 == name@);
                    lemma_env_map_entry(self.entries(), i as int);
                }
                return Some(&self.entries[i].1);
            }
            proof {
                assert(self.entries()[i as int].0 == self.entries@[i as int].0@);
            }
            i += 1;
        }
        proof {
            lemma_env_map_absent(self.entries(), name@);
        }
        None
    }

    /// Bind `name` to `value`, overwriting any existing binding for it.
    pub fn insert(&mut self, name: String, value: Expression)
        requires
            old(self).wf(),
        ensures
            final(self).wf(),
            final(self)@ == old(self)@.insert(name@, value@),
            final(self).entries() == entries_insert(old(self).entries(), name@, value@),
    {
        let n = self.entries.len();
        let mut i: usize = 0;
        while i < n
            invariant
                n == self.entries.len(),
                i <= n,
                self.wf(),
                self.entries() == old(self).entries(),
                forall|j: int| 0 <= j < i ==> (#[trigger] self.entries()[j]).0 != name@,
            decreases n - i,
        {
            if self.entries[i].0 == name {
                proof {
                    assert(old(self).entries()[i as int].0 == name@);
                }
                self.entries[i] = (name, value);
                proof {
                    assert(self.entries() =~= old(self).entries().update(i as int, (name@, value@)));
                    lemma_env_map_update(old(self).entries(), i as int, name@, value@);
                    let w = choose|w: int|
                        0 <= w < old(self).entries().len() && (#[trigger] old(self).entries()[w]).0 == name@;
                    assert(w == i as int);
                }
                return;
            }
            proof {
                assert(self.entries()[i as int].0 == self.entries@[i as int].0@);
            }
            i += 1;
        }
        self.entries.push((name, value));
        proof {
            assert(self.entries() =~= old(self).entries().push((name@, value@)));
            assert(self.entries().drop_last() =~= old(self).entries());
            assert(forall|j: int| 0 <= j < old(self).entries().len()
                ==> (#[trigger] old(self).entries()[j]).0 != name@);
        }
    }

    /// The bindings from position `i` on, rendered `name: value` and
    /// separated by commas.
    fn render_tail(&self, i: usize) -> (s: String)
        ensures
            s@ == crate::display::render_entries_from(self.entries(), i as int),
        decreases self.entries@.len() - i,
    {
        if i >= self.entries.len() {
            String::new()
        } else {
            let pair = &self.entries[i];
            proof {
                assert(self.entries()[i as int] == (pair.0@, pair.1@));
            }
            let mut s = pair.0.clone();
            s.append(": ");
            s.append(pair.1.to_display_string().as_str());
            if i + 1 < self.entries.len() {
                s.append(", ");
                s.append(self.render_tail(i + 1).as_str());
            }
            s
        }
    }

    /// The environment rendered as `{name: value, ...}`, entries in
    /// insertion order.
    pub fn render(&self) -> (s: String)
        ensures
            s@ == crate::display::render_env(self.entries()),
    {
        let mut s = String::from_str("{");
        s.append(self.render_tail(0).as_str());
        s.append("}");
        s
    }

    /// An independent copy with the same bindings in the same order.
    pub fn duplicate(&self) -> (r: Environment)
        ensures
            r.entries() == self.entries(),
            r@ == self@,
            r.wf() == self.wf(),
    {
        let n = self.entries.len();
        let mut copied: Vec<(String, Expression)> = Vec::new();
        let mut i: usize = 0;
        while i < n
            invariant
                n == self.entries.len(),
                i <= n,
                copied@.len() == i,
                forall|j: int| 0 <= j < i
                    ==> ((#[trigger] copied@[j]).0@, copied@[j].1@)
                        == (self.entries@[j].0@, self.entries@[j].1@),
            decreases n - i,
        {
            let pair = &self.entries[i];
            let name = pair.0.clone();
            let value = pair.1.deep_copy();
            copied.push((name, value));
            i += 1;
        }
        let r = Environment { entries: copied };
        proof {
            assert(r.entries() =~= self.entries());
        }
        r
    }
}

} // verus!
