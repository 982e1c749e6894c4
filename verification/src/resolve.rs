use vstd::prelude::*;
use crate::error::SchemaError;
use crate::json::{JsonValue, lookup, parse_u32_digits, str_eq, take_field};
use crate::parse::{id_opt, string_views, text_opt};

verus! {

/// One resolved project: a configured name and the ID the remote catalog
/// gives it.
#[derive(Debug)]
pub struct ProjectEntry {
    pub name: String,
    pub id: u32,
}

pub open spec fn distinct_names(es: Seq<ProjectEntry>) -> bool {
    forall|i: int, j: int| 0 <= i < j < es.len() ==> es[i].name@ != es[j].name@
}

/// The mapping that a list of entries denotes, later entries winning.
pub open spec fn map_of(es: Seq<ProjectEntry>) -> Map<Seq<char>, int>
    decreases es.len(),
{
    if es.len() == 0 {
        Map::empty()
    } else {
        map_of(es.drop_last()).insert(es.last().name@, es.last().id as int)
    }
}

pub open spec fn exists_name(es: Seq<ProjectEntry>, k: Seq<char>) -> bool {
    exists|i: int| 0 <= i < es.len() && es[i].name@ == k
}

proof fn lemma_map_of_dom(es: Seq<ProjectEntry>)
    ensures
        forall|k: Seq<char>| #[trigger] map_of(es).contains_key(k) <==> exists_name(es, k),
    decreases es.len(),
{
    if es.len() > 0 {
        lemma_map_of_dom(es.drop_last());
        assert(map_of(es) == map_of(es.drop_last()).insert(es.last().name@, es.last().id as int));
        assert forall|k: Seq<char>| #[trigger] map_of(es).contains_key(k) <==> exists_name(
            es,
            k,
        ) by {
            if k == es.last().name@ {
                assert(map_of(es).contains_key(k));
                assert(es[es.len() - 1].name@ == k);
            } else {
                if exists_name(es, k) {
                    let i = choose|i: int| 0 <= i < es.len() && es[i].name@ == k;
                    assert(es.drop_last()[i] == es[i]);
                }
                if exists_name(es.drop_last(), k) {
                    let i = choose|i: int| 0 <= i < es.drop_last().len() && es.drop_last()[i].name@
                        == k;
                    assert(es[i].name@ == k);
                }
            }
        }
    }
}

proof fn lemma_map_of_get(es: Seq<ProjectEntry>, j: int)
    requires
        distinct_names(es),
        0 <= j < es.len(),
    ensures
        map_of(es).contains_key(es[j].name@),
        map_of(es)[es[j].name@] == es[j].id as int,
    decreases es.len(),
{
    if j < es.len() - 1 {
        assert(es.drop_last()[j] == es[j]);
        lemma_map_of_get(es.drop_last(), j);
    }
}

proof fn lemma_map_of_remove(es: Seq<ProjectEntry>, j: int)
    requires
        distinct_names(es),
        0 <= j < es.len(),
    ensures
        map_of(es.remove(j)) == map_of(es).remove(es[j].name@),
        distinct_names(es.remove(j)),
    decreases es.len(),
{
    let n = es[j].name@;
    lemma_map_of_dom(es.drop_last());
    if j == es.len() - 1 {
        assert(es.remove(j) =~= es.drop_last());
        assert(!exists_name(es.drop_last(), n));
        assert(map_of(es.drop_last()).remove(n) =~= map_of(es.drop_last()));
        assert(map_of(es).remove(n) =~= map_of(es.drop_last()).remove(n));
    } else {
        assert(es.remove(j).drop_last() =~= es.drop_last().remove(j));
        assert(es.remove(j).last() == es.last());
        lemma_map_of_remove(es.drop_last(), j);
        assert(es.drop_last()[j] == es[j]);
        assert(es.last().name@ != n);
        assert(map_of(es.drop_last()).remove(n).insert(es.last().name@, es.last().id as int)
            =~= map_of(es.drop_last()).insert(es.last().name@, es.last().id as int).remove(n));
    }
}

/// A mapping from configured project names to remote project IDs, with
/// each name held at most once.
#[derive(Debug)]
pub struct ProjectMap {
    pub entries: Vec<ProjectEntry>,
}

impl View for ProjectMap {
    type V = Map<Seq<char>, int>;

    open spec fn view(&self) -> Map<Seq<char>, int> {
        map_of(self.entries@)
    }
}

impl ProjectMap {
    pub open spec fn wf(&self) -> bool {
        distinct_names(self.entries@)
    }

    pub fn new() -> (r: ProjectMap)
        ensures
            r.wf(),
            r@ == Map::<Seq<char>, int>::empty(),
    {
        ProjectMap { entries: Vec::new() }
    }

    /// Records one resolution; a later insertion for the same name wins.
    pub fn insert(&mut self, name: String, id: u32)
        requires
            old(self).wf(),
        ensures
            final(self).wf(),
            final(self)@ == old(self)@.insert(name@, id as int),
    {
        let ghost es0 = self.entries@;
        let mut i: usize = 0;
        #[verifier::loop_isolation(false)]
        while i < self.entries.len()
            invariant
                0 <= i <= self.entries@.len(),
                self.entries@ == es0,
                forall|j: int| 0 <= j < i ==> es0[j].name@ != name@,
            decreases self.entries@.len() - i,
        {
            let en: &String = &self.entries[i].name;
            if str_eq(en.as_str(), name.as_str()) {
                let ghost j: int = i as int;
                let _ = self.entries.remove(i);
                self.entries.push(ProjectEntry { name, id });
                proof {
                    lemma_map_of_remove(es0, j);
                    assert(self.entries@.drop_last() =~= es0.remove(j));
                    assert(map_of(self.entries@) =~= map_of(es0).insert(
                        es0[j].name@,
                        id as int,
                    ));
                    assert forall|a: int, b: int|
                        0 <= a < b < self.entries@.len() implies self.entries@[a].name@
                        != self.entries@[b].name@ by {
                        let removed = es0.remove(j);
                        assert(self.entries@[a] == removed[a]);
                        assert(removed[a] == if a < j {
                            es0[a]
                        } else {
                            es0[a + 1]
                        });
                        if b < self.entries@.len() - 1 {
                            assert(self.entries@[b] == removed[b]);
                        }
                    }
                }
                return;
            }
            i += 1;
        }
        self.entries.push(ProjectEntry { name, id });
        proof {
            assert(self.entries@.drop_last() =~= es0);
        }
    }

    /// The resolved ID of a configured name, if the catalog matched it.
    pub fn get(&self, name: &str) -> (r: Option<u32>)
        requires
            self.wf(),
        ensures
            match r {
                Some(id) => self@.contains_key(name@) && self@[name@] == id as int,
                None => !self@.contains_key(name@),
            },
    {
        let mut i: usize = 0;
        #[verifier::loop_isolation(false)]
        while i < self.entries.len()
            invariant
                0 <= i <= self.entries@.len(),
                forall|j: int| 0 <= j < i ==> self.entries@[j].name@ != name@,
            decreases self.entries@.len() - i,
        {
            let en: &String = &self.entries[i].name;
            if str_eq(en.as_str(), name) {
                proof {
                    lemma_map_of_get(self.entries@, i as int);
                }
                return Some(self.entries[i].id);
            }
            i += 1;
        }
        proof {
            lemma_map_of_dom(self.entries@);
        }
        None
    }

    /// How many configured names resolved.
    pub fn len(&self) -> (r: usize)
        ensures
            r == self.entries@.len(),
    {
        self.entries.len()
    }
}

/// One catalog row's title and ID, when the row is an object whose `title`
/// is a string and whose `id` is a non-negative integer; any other row
/// fails to parse and is skipped, never aborting the fetch.
pub open spec fn catalog_row_of(v: JsonValue) -> Option<(Seq<char>, int)> {
    match v {
        JsonValue::Object(ms) => {
            let t = text_opt(lookup(ms@, "title"@));
            let i = id_opt(lookup(ms@, "id"@));
            if t is Some && i is Some {
                Some((t->0, i->0))
            } else {
                None
            }
        },
        _ => None,
    }
}

/// A row's contribution to the resolution: its title and ID, but only when
/// the title is one of the configured names.
pub open spec fn project_match_of(v: JsonValue, names: Seq<Seq<char>>) -> Option<
    (Seq<char>, int),
> {
    match catalog_row_of(v) {
        Some((t, i)) => if names.contains(t) {
            Some((t, i))
        } else {
            None
        },
        None => None,
    }
}

/// The mapping that a catalog's rows resolve to, in row order, a later
/// row with the same title winning.
pub open spec fn resolve_rows(rows: Seq<JsonValue>, names: Seq<Seq<char>>) -> Map<Seq<char>, int>
    decreases rows.len(),
{
    if rows.len() == 0 {
        Map::empty()
    } else {
        let prev = resolve_rows(rows.drop_last(), names);
        match project_match_of(rows.last(), names) {
            Some((t, i)) => prev.insert(t, i),
            None => prev,
        }
    }
}

/// Whether one of the configured names equals the given title.
pub fn names_contain(names: &Vec<String>, title: &str) -> (r: bool)
    ensures
        r == string_views(names@).contains(title@),
{
    let mut i: usize = 0;
    #[verifier::loop_isolation(false)]
    while i < names.len()
        invariant
            0 <= i <= names@.len(),
            forall|j: int| 0 <= j < i ==> names@[j]@ != title@,
        decreases names@.len() - i,
    {
        let n: &String = &names[i];
        if str_eq(n.as_str(), title) {
            proof {
                assert(string_views(names@)[i as int] == title@);
            }
            return true;
        }
        i += 1;
    }
    proof {
        assert forall|j: int| 0 <= j < string_views(names@).len() implies string_views(names@)[j]
            != title@ by {
            assert(string_views(names@)[j] == names@[j]@);
        }
    }
    false
}

/// Reads one catalog row and matches it against the configured names, as
/// the resolution does.
pub fn get_project_info(v: JsonValue, names: &Vec<String>) -> (r: Option<(String, u32)>)
    ensures
        match r {
            Some(p) => project_match_of(v, string_views(names@)) == Some((p.0@, p.1 as int)),
            None => project_match_of(v, string_views(names@)) is None,
        },
{
    match v {
        JsonValue::Object(ms) => {
            let ghost all = ms@;
            let (tv, ms) = take_field(ms, "title");
            let (iv, _) = take_field(ms, "id");
            proof {
                reveal_strlit("title");
                reveal_strlit("id");
                assert("title"@.len() == 5);
                assert("id"@.len() == 2);
                assert(tv == lookup(all, "title"@));
                assert(iv == lookup(all, "id"@));
            }
            let title = match tv {
                Some(JsonValue::Text(s)) => s,
                _ => {
                    return None;
                },
            };
            if !names_contain(names, title.as_str()) {
                return None;
            }
            let id = match iv {
                Some(JsonValue::Number(s)) => match parse_u32_digits(s.as_str()) {
                    Some(n) => n,
                    None => {
                        return None;
                    },
                },
                _ => {
                    return None;
                },
            };
            Some((title, id))
        },
        _ => None,
    }
}

/// The catalog rows of the projects response, when it has the shape the
/// remote system promises: an object with a `results` array.
pub open spec fn catalog_results_of(v: JsonValue) -> Option<Seq<JsonValue>> {
    match v {
        JsonValue::Object(ms) => match lookup(ms@, "results"@) {
            Some(JsonValue::Array(vs)) => Some(vs@),
            _ => None,
        },
        _ => None,
    }
}

/// Resolves the configured project names against the remote catalog.
///
/// Fails, fatally for the run, exactly when the response is not an object
/// with a `results` array. A malformed row, or one whose title no
/// configured name matches, is skipped without an error; a configured name
/// no row matches is simply absent from the result.
pub fn resolve_projects(catalog: JsonValue, names: &Vec<String>) -> (r: Result<
    ProjectMap,
    SchemaError,
>)
    ensures
        r is Ok <==> catalog_results_of(catalog) is Some,
        r matches Ok(m) ==> m.wf() && m@ == resolve_rows(
            catalog_results_of(catalog)->0,
            string_views(names@),
        ),
        r matches Err(e) ==> e == SchemaError::Catalog,
{
    let rows = match catalog {
        JsonValue::Object(ms) => {
            let (rv, _) = take_field(ms, "results");
            proof {
                reveal_strlit("results");
            }
            match rv {
                Some(JsonValue::Array(vs)) => vs,
                _ => {
                    return Err(SchemaError::Catalog);
                },
            }
        },
        _ => {
            return Err(SchemaError::Catalog);
        },
    };
    let ghost orig = rows@;
    let ghost ns = string_views(names@);
    let mut rest = rows;
    let mut m = ProjectMap::new();
    let ghost mut done = Seq::<JsonValue>::empty();
    #[verifier::loop_isolation(false)]
    while rest.len() > 0
        invariant
            orig == done + rest@,
            m.wf(),
            m@ == resolve_rows(done, ns),
        decreases rest.len(),
    {
        let ghost rest_before = rest@;
        let x = rest.remove(0);
        proof {
            assert(rest_before.drop_first() =~= rest@);
        }
        match get_project_info(x, names) {
            Some(p) => {
                m.insert(p.0, p.1);
            },
            None => {
            },
        }
        proof {
            let done_next = done.push(x);
            assert(done_next.drop_last() =~= done);
            assert(done_next.last() == x);
            assert(orig =~= done_next + rest@);
        }
        proof {
            done = done.push(x);
        }
    }
    proof {
        assert(done =~= orig);
    }
    Ok(m)
}

/// Law: a configured name that no catalog row carries as its title is
/// absent from the resolved mapping, and its absence raises no error.
pub proof fn lemma_unmatched_name_excluded(rows: Seq<JsonValue>, names: Seq<Seq<char>>, n: Seq<
    char,
>)
    requires
        forall|i: int| 0 <= i < rows.len() ==> match catalog_row_of(#[trigger] rows[i]) {
            Some(p) => p.0 != n,
            None => true,
        },
    ensures
        !resolve_rows(rows, names).contains_key(n),
    decreases rows.len(),
{
    if rows.len() > 0 {
        assert(rows[rows.len() - 1] == rows.last());
        lemma_unmatched_name_excluded(rows.drop_last(), names, n);
    }
}

/// Law: the resolved mapping holds only configured names; a name that is
/// not configured is never resolved, whatever the catalog holds.
pub proof fn lemma_only_configured_names(rows: Seq<JsonValue>, names: Seq<Seq<char>>, n: Seq<
    char,
>)
    requires
        !names.contains(n),
    ensures
        !resolve_rows(rows, names).contains_key(n),
    decreases rows.len(),
{
    if rows.len() > 0 {
        lemma_only_configured_names(rows.drop_last(), names, n);
    }
}

} // verus!
