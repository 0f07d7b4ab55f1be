//! Per-application output routing: which device each application is sent to, by
//! application name, and its JSON form on disk.

use std::collections::BTreeMap;
use vstd::prelude::*;

verus! {

/// Entries of an application-name-to-device-id table.
pub type RouteEntries = Seq<(Seq<char>, Seq<char>)>;

/// No two entries name the same application.
pub open spec fn keys_distinct(es: RouteEntries) -> bool {
    forall|i: int, j: int| 0 <= i < es.len() && 0 <= j < es.len() && i != j ==> es[i].0 != es[j].0
}

/// The table that the entries make, a later entry overriding an earlier one of the same
/// name.
pub open spec fn entries_map(es: RouteEntries) -> Map<Seq<char>, Seq<char>>
    decreases es.len(),
{
    if es.len() == 0 {
        Map::empty()
    } else {
        entries_map(es.drop_last()).insert(es.last().0, es.last().1)
    }
}

/// The entries that `serde_json` reads from `text` as a JSON object of strings, in the
/// order of their names; `None` where `text` is no such object.
pub uninterp spec fn routing_json_entries(text: Seq<char>) -> Option<RouteEntries>;

/// The pretty-printed JSON object that `serde_json` writes for a table of distinct names.
pub uninterp spec fn routing_json_text(es: RouteEntries) -> Seq<char>;

/// Reading `text` back as a JSON object of strings gives the table `table`.
pub open spec fn reads_back_as(text: Seq<char>, table: Map<Seq<char>, Seq<char>>) -> bool {
    match routing_json_entries(text) {
        Some(es) => entries_map(es) == table,
        None => false,
    }
}

/// Reads a JSON object of strings with `serde_json::from_str`.
///
/// Claims of `serde_json::from_str` into a `BTreeMap<String, String>`: the result is a
/// function of the text alone (`routing_json_entries`), and the names that it holds are
/// distinct, as the keys of a map are. What the function accepts as JSON is not stated.
#[verifier::external_body]
fn parse_routing_json(text: &str) -> (res: Option<Vec<(String, String)>>)
    ensures
        res.deep_view() == routing_json_entries(text@),
        res matches Some(es) ==> keys_distinct(es.deep_view()),
{
    serde_json::from_str::<BTreeMap<String, String>>(text).ok().map(|m| m.into_iter().collect())
}

/// Writes a table as pretty-printed JSON with `serde_json::to_string_pretty`.
///
/// Claims of `serde_json::to_string_pretty` on a `BTreeMap<&String, &String>`: it does
/// not fail (its documentation names map keys that are not strings, and `Serialize`
/// impls that fail, as the only causes of failure), and its text is a function of the
/// entries alone (`routing_json_text`), and `serde_json::from_str` reads that text back
/// as the same table (the writer escapes every string it writes, and the reader
/// unescapes it). The text itself is not stated.
#[verifier::external_body]
fn render_routing_json(entries: &Vec<(String, String)>) -> (res: Option<String>)
    requires
        keys_distinct(entries.deep_view()),
    ensures
        res.deep_view() == Some(routing_json_text(entries.deep_view())),
        res is Some && reads_back_as(res.unwrap()@, entries_map(entries.deep_view())),
{
    let map: BTreeMap<&String, &String> = entries.iter().map(|e| (&e.0, &e.1)).collect();
    serde_json::to_string_pretty(&map).ok()
}

proof fn lemma_entries_map_present(es: RouteEntries, i: int)
    requires
        keys_distinct(es),
        0 <= i < es.len(),
    ensures
        entries_map(es).contains_key(es[i].0),
        entries_map(es)[es[i].0] == es[i].1,
    decreases es.len(),
{
    let last = es.len() - 1;
    if i != last {
        let t = es.drop_last();
        assert(keys_distinct(t)) by {
            assert forall|a: int, b: int| 0 <= a < t.len() && 0 <= b < t.len() && a != b implies t[a].0 != t[b].0 by {
                assert(t[a] == es[a] && t[b] == es[b]);
            }
        }
        assert(t[i] == es[i]);
        lemma_entries_map_present(t, i);
        assert(es[last].0 != es[i].0);
    }
}

proof fn lemma_entries_map_absent(es: RouteEntries, k: Seq<char>)
    requires
        forall|i: int| 0 <= i < es.len() ==> es[i].0 != k,
    ensures
        !entries_map(es).contains_key(k),
    decreases es.len(),
{
    if es.len() > 0 {
        let t = es.drop_last();
        assert forall|i: int| 0 <= i < t.len() implies t[i].0 != k by {
            assert(t[i] == es[i]);
        }
        lemma_entries_map_absent(t, k);
        assert(es[es.len() - 1].0 != k);
    }
}

/// For entries with distinct names, the table holds exactly those names, each with the
/// device of its entry.
pub proof fn lemma_entries_map_shape(es: RouteEntries)
    requires
        keys_distinct(es),
    ensures
        forall|k: Seq<char>| #[trigger] entries_map(es).contains_key(k) <==> exists|i: int| 0 <= i < es.len() && es[i].0 == k,
        forall|i: int| 0 <= i < es.len() ==> #[trigger] entries_map(es)[es[i].0] == es[i].1,
{
    assert forall|k: Seq<char>| #[trigger] entries_map(es).contains_key(k) implies exists|i: int| 0 <= i < es.len() && es[i].0 == k by {
        if !(exists|i: int| 0 <= i < es.len() && es[i].0 == k) {
            lemma_entries_map_absent(es, k);
        }
    }
    assert forall|k: Seq<char>| (exists|i: int| 0 <= i < es.len() && es[i].0 == k) implies #[trigger] entries_map(es).contains_key(k) by {
        let i = choose|i: int| 0 <= i < es.len() && es[i].0 == k;
        lemma_entries_map_present(es, i);
    }
    assert forall|i: int| 0 <= i < es.len() implies #[trigger] entries_map(es)[es[i].0] == es[i].1 by {
        lemma_entries_map_present(es, i);
    }
}

/// Which output device each application is routed to, by application name.
pub struct RoutingConfig {
    entries: Vec<(String, String)>,
}

impl View for RoutingConfig {
    type V = Map<Seq<char>, Seq<char>>;

    closed spec fn view(&self) -> Map<Seq<char>, Seq<char>> {
        entries_map(self.entries.deep_view())
    }
}

impl RoutingConfig {
    #[verifier::type_invariant]
    spec fn names_distinct(self) -> bool {
        keys_distinct(self.entries.deep_view())
    }

    /// The entries of the table, in the order in which it keeps them.
    pub closed spec fn entry_seq(&self) -> RouteEntries {
        self.entries.deep_view()
    }

    /// An empty table.
    pub fn new() -> (c: Self)
        ensures
            c@ == Map::<Seq<char>, Seq<char>>::empty(),
    {
        let c = RoutingConfig { entries: Vec::new() };
        assert(c.entries.deep_view() =~= Seq::<(Seq<char>, Seq<char>)>::empty());
        c
    }

    fn find(&self, name: &String) -> (r: Option<usize>)
        ensures
            match r {
                Some(i) => i < self.entries.len() && self.entries.deep_view()[i as int].0 == name@,
                None => forall|i: int| 0 <= i < self.entries.len() ==> #[trigger] self.entries.deep_view()[i].0 != name@,
            },
    {
        let mut i: usize = 0;
        while i < self.entries.len()
            invariant
                i <= self.entries.len(),
                forall|j: int| 0 <= j < i ==> #[trigger] self.entries.deep_view()[j].0 != name@,
            decreases self.entries.len() - i,
        {
            assert(self.entries.deep_view()[i as int].0 == self.entries@[i as int].0@);
            if self.entries[i].0 == *name {
                return Some(i);
            }
            i += 1;
        }
        None
    }

    /// The device that `name` is routed to.
    pub fn get(&self, name: &str) -> (r: Option<String>)
        ensures
            r.deep_view() == (if self@.contains_key(name@) {
                Some(self@[name@])
            } else {
                None::<Seq<char>>
            }),
    {
        proof {
            use_type_invariant(self);
            lemma_entries_map_shape(self.entries.deep_view());
        }
        let key = String::from_str(name);
        match self.find(&key) {
            Some(i) => {
                let v = self.entries[i].1.clone();
                assert(self.entries.deep_view()[i as int].1 == v@);
                Some(v)
            },
            None => None,
        }
    }

    /// Routes `name` to `device_id`, in place of any earlier device.
    pub fn insert(&mut self, name: String, device_id: String)
        ensures
            final(self)@ == old(self)@.insert(name@, device_id@),
    {
        proof {
            use_type_invariant(&*self);
        }
        let ghost old_es = self.entries.deep_view();
        let ghost kv = (name@, device_id@);
        proof {
            lemma_entries_map_shape(old_es);
        }
        match self.find(&name) {
            Some(i) => {
                let mut entries: Vec<(String, String)> = Vec::new();
                std::mem::swap(&mut entries, &mut self.entries);
                entries.set(i, (name, device_id));
                let ghost new_es = entries.deep_view();
                assert(new_es =~= old_es.update(i as int, kv));
                assert(keys_distinct(new_es));
                proof {
                    lemma_entries_map_shape(new_es);
                    assert forall|k: Seq<char>| entries_map(new_es).contains_key(k) <==> entries_map(old_es).insert(kv.0, kv.1).contains_key(k) by {
                        if entries_map(old_es).contains_key(k) {
                            let j = choose|j: int| 0 <= j < old_es.len() && old_es[j].0 == k;
                            assert(new_es[j].0 == k);
                        }
                        if entries_map(new_es).contains_key(k) {
                            let j = choose|j: int| 0 <= j < new_es.len() && new_es[j].0 == k;
                            assert(old_es[j].0 == k);
                        }
                    }
                    assert forall|k: Seq<char>| entries_map(new_es).contains_key(k) implies entries_map(new_es)[k] == entries_map(old_es).insert(kv.0, kv.1)[k] by {
                        let j = choose|j: int| 0 <= j < new_es.len() && new_es[j].0 == k;
                        assert(entries_map(new_es)[new_es[j].0] == new_es[j].1);
                        if j != i {
                            assert(entries_map(old_es)[old_es[j].0] == old_es[j].1);
                        }
                    }
                    assert(entries_map(new_es) =~= entries_map(old_es).insert(kv.0, kv.1));
                }
                self.entries = entries;
            },
            None => {
                let mut entries: Vec<(String, String)> = Vec::new();
                std::mem::swap(&mut entries, &mut self.entries);
                entries.push((name, device_id));
                let ghost new_es = entries.deep_view();
                assert(new_es =~= old_es.push(kv));
                assert(new_es.drop_last() =~= old_es);
                self.entries = entries;
            },
        }
    }

    /// The table that `entries` make, a later entry overriding an earlier one of the same
    /// name.
    pub fn from_entries(entries: &Vec<(String, String)>) -> (c: Self)
        ensures
            c@ == entries_map(entries.deep_view()),
    {
        let mut c = RoutingConfig::new();
        let mut i: usize = 0;
        while i < entries.len()
            invariant
                i <= entries.len(),
                c@ == entries_map(entries.deep_view().take(i as int)),
            decreases entries.len() - i,
        {
            let name = entries[i].0.clone();
            let device = entries[i].1.clone();
            c.insert(name, device);
            assert(entries.deep_view().take(i + 1).drop_last() =~= entries.deep_view().take(i as int));
            i += 1;
        }
        assert(entries.deep_view().take(entries.len() as int) =~= entries.deep_view());
        c
    }

    /// The table's entries, each name once.
    pub fn to_entries(&self) -> (es: Vec<(String, String)>)
        ensures
            es.deep_view() == self.entry_seq(),
            keys_distinct(es.deep_view()),
            entries_map(es.deep_view()) == self@,
    {
        proof {
            use_type_invariant(self);
        }
        let mut es: Vec<(String, String)> = Vec::new();
        let mut i: usize = 0;
        while i < self.entries.len()
            invariant
                i <= self.entries.len(),
                es.deep_view() =~= self.entries.deep_view().take(i as int),
            decreases self.entries.len() - i,
        {
            let name = self.entries[i].0.clone();
            let device = self.entries[i].1.clone();
            let ghost before = es.deep_view();
            es.push((name, device));
            assert(self.entries.deep_view()[i as int] == (name@, device@));
            assert(es.deep_view() =~= before.push((name@, device@)));
            assert(self.entries.deep_view().take(i + 1) =~= self.entries.deep_view().take(i as int).push((name@, device@)));
            i += 1;
        }
        assert(es.deep_view() =~= self.entries.deep_view());
        es
    }

    /// Reads a table from the JSON text of a routing file. Text that is no JSON object of
    /// strings gives `None`.
    pub fn from_json(text: &str) -> (c: Option<Self>)
        ensures
            match routing_json_entries(text@) {
                Some(es) => c matches Some(c) && c@ == entries_map(es),
                None => c is None,
            },
    {
        match parse_routing_json(text) {
            Some(es) => Some(RoutingConfig::from_entries(&es)),
            None => None,
        }
    }

    /// The JSON text of the table, as the routing file holds it.
    pub fn to_json(&self) -> (text: String)
        ensures
            text@ == routing_json_text(self.entry_seq()),
            reads_back_as(text@, self@),
    {
        proof {
            use_type_invariant(self);
        }
        let r = render_routing_json(&self.entries);
        match r {
            Some(t) => t,
            None => {
                assert(false);
                String::new()
            },
        }
    }
}

} // verus!
