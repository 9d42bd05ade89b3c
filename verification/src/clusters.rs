//! Cluster names referenced by the router and load-balancer filter
//! entries of a filter chain, read from their YAML configuration.

use vstd::prelude::*;

use crate::text::str_eq;
use crate::yaml::{YamlValue, yaml_as_sequence, yaml_as_str, yaml_get};

verus! {

/// One filter of a filter chain: its type and its YAML configuration.
pub struct FilterEntry {
    /// The filter's type, such as `router` or `load_balancer`.
    pub filter_type: String,
    /// The filter's configuration.
    pub config: YamlValue,
}

/// The texts of a list of strings.
pub open spec fn texts(v: Seq<String>) -> Seq<Seq<char>> {
    v.map_values(|s: String| s@)
}

/// The name under `name_key` of item `j` of the list under `list_key` in
/// `config`, when all of these are present and the name is a string.
pub open spec fn listed_name(config: YamlValue, list_key: Seq<char>, name_key: Seq<char>, j: int) -> Option<
    Seq<char>,
> {
    match yaml_get(config, list_key) {
        Some(list) => match yaml_as_sequence(list) {
            Some(items) => if 0 <= j < items.len() {
                match yaml_get(items[j], name_key) {
                    Some(name) => yaml_as_str(name),
                    None => None,
                }
            } else {
                None
            },
            None => None,
        },
        None => None,
    }
}

/// The name at item `j` of entry `i`, when entry `i` has type `filter_type`.
pub open spec fn name_at(
    entries: Seq<FilterEntry>,
    filter_type: Seq<char>,
    list_key: Seq<char>,
    name_key: Seq<char>,
    i: int,
    j: int,
) -> Option<Seq<char>> {
    if 0 <= i < entries.len() && entries[i].filter_type@ == filter_type {
        listed_name(entries[i].config, list_key, name_key, j)
    } else {
        None
    }
}

/// Every name listed by entries of type `filter_type`.
pub open spec fn names_in(
    entries: Seq<FilterEntry>,
    filter_type: Seq<char>,
    list_key: Seq<char>,
    name_key: Seq<char>,
) -> Set<Seq<char>> {
    Set::new(
        |n: Seq<char>|
            exists|i: int, j: int| #[trigger] name_at(entries, filter_type, list_key, name_key, i, j) == Some(n),
    )
}

/// The names listed before item `j` of entry `i`.
pub open spec fn names_before(
    entries: Seq<FilterEntry>,
    filter_type: Seq<char>,
    list_key: Seq<char>,
    name_key: Seq<char>,
    i: int,
    j: int,
) -> Set<Seq<char>> {
    Set::new(
        |n: Seq<char>|
            exists|a: int, b: int|
                (a < i || (a == i && b < j)) && #[trigger] name_at(entries, filter_type, list_key, name_key, a, b)
                    == Some(n),
    )
}

/// The cluster names that router entries route to.
pub open spec fn router_clusters(entries: Seq<FilterEntry>) -> Set<Seq<char>> {
    names_in(entries, "router"@, "routes"@, "cluster"@)
}

/// The cluster names that load-balancer entries define.
pub open spec fn lb_clusters(entries: Seq<FilterEntry>) -> Set<Seq<char>> {
    names_in(entries, "load_balancer"@, "clusters"@, "name"@)
}

/// Add `name` to `names` unless it is there already.
fn insert_unique(names: &mut Vec<String>, name: &str)
    requires
        texts(old(names)@).no_duplicates(),
    ensures
        texts(final(names)@).no_duplicates(),
        forall|n: Seq<char>| texts(final(names)@).contains(n) <==> (texts(old(names)@).contains(n) || n == name@),
{
    let mut k: usize = 0;
    while k < names.len()
        invariant
            k <= names@.len(),
            texts(names@).no_duplicates(),
            forall|x: int| 0 <= x < k ==> names@[x]@ != name@,
        decreases names@.len() - k,
    {
        if str_eq(names[k].as_str(), name) {
            proof {
                assert(texts(names@)[k as int] == name@);
                assert forall|n: Seq<char>| texts(names@).contains(n) <==> (texts(names@).contains(n) || n == name@) by {}
            }
            return;
        }
        k = k + 1;
    }
    let ghost before = names@;
    names.push(name.to_owned());
    proof {
        assert(texts(names@) =~= texts(before).push(name@));
        assert forall|x: int| 0 <= x < texts(before).len() implies texts(before)[x] != name@ by {
            assert(before[x]@ != name@);
        }
        assert forall|n: Seq<char>| texts(names@).contains(n) <==> (texts(before).contains(n) || n == name@) by {
            if texts(names@).contains(n) {
                let x = choose|x: int| 0 <= x < texts(names@).len() && texts(names@)[x] == n;
                if x < texts(before).len() {
                    assert(texts(before)[x] == n);
                }
            }
            if texts(before).contains(n) {
                let x = choose|x: int| 0 <= x < texts(before).len() && texts(before)[x] == n;
                assert(texts(names@)[x] == n);
            }
            if n == name@ {
                assert(texts(names@)[texts(before).len() as int] == n);
            }
        }
    }
}

/// Names listed under `name_key` by the items of the list `list_key` in
/// every entry of type `filter_type`, each once.
fn extract_names(entries: &[FilterEntry], filter_type: &str, list_key: &str, name_key: &str) -> (r: Vec<
    String,
>)
    ensures
        texts(r@).no_duplicates(),
        texts(r@).to_set() == names_in(entries@, filter_type@, list_key@, name_key@),
{
    let ghost ft = filter_type@;
    let ghost lk = list_key@;
    let ghost nk = name_key@;
    let mut names: Vec<String> = Vec::new();
    let mut i: usize = 0;
    proof {
        assert(texts(names@).to_set() =~= names_before(entries@, ft, lk, nk, 0, 0));
    }
    while i < entries.len()
        invariant
            ft == filter_type@,
            lk == list_key@,
            nk == name_key@,
            i <= entries@.len(),
            texts(names@).no_duplicates(),
            texts(names@).to_set() == names_before(entries@, ft, lk, nk, i as int, 0),
        decreases entries@.len() - i,
    {
        let entry = &entries[i];
        assert(*entry == entries@[i as int]);
        let ghost before = names_before(entries@, ft, lk, nk, i as int, 0);
        let mut listed: Option<&Vec<YamlValue>> = None;
        if str_eq(entry.filter_type.as_str(), filter_type) {
            if let Some(list) = entry.config.get(list_key) {
                listed = list.as_sequence();
                proof {
                    if listed is None {
                        assert forall|b: int| #[trigger] name_at(entries@, ft, lk, nk, i as int, b) is None by {
                            assert(yaml_get(entries@[i as int].config, lk) == Some(*list));
                        }
                    }
                }
            } else {
                proof {
                    assert forall|b: int| #[trigger] name_at(entries@, ft, lk, nk, i as int, b) is None by {
                        assert(yaml_get(entries@[i as int].config, lk) is None);
                    }
                }
            }
        } else {
            proof {
                assert forall|b: int| #[trigger] name_at(entries@, ft, lk, nk, i as int, b) is None by {
                    assert(entries@[i as int].filter_type@ != ft);
                }
            }
        }
        assert(listed matches Some(items) ==> entry.filter_type@ == ft && (yaml_get(entry.config, lk) matches Some(
            list,
        ) && yaml_as_sequence(list) == Some(items@)));
        assert(listed is None ==> forall|b: int| #[trigger] name_at(entries@, ft, lk, nk, i as int, b) is None);
        proof {
            if listed is None {
                assert(names_before(entries@, ft, lk, nk, i + 1, 0) =~= before) by {
                    assert forall|n: Seq<char>| #[trigger]
                        names_before(entries@, ft, lk, nk, i + 1, 0).contains(n) implies before.contains(n) by {
                        let (a, b) = choose|a: int, b: int|
                            (a < i + 1 || (a == i + 1 && b < 0)) && #[trigger] name_at(entries@, ft, lk, nk, a, b)
                                == Some(n);
                        if a == i {
                            assert(name_at(entries@, ft, lk, nk, i as int, b) is None);
                        }
                        assert(a < i);
                    }
                    assert forall|n: Seq<char>| #[trigger] before.contains(n) implies names_before(
                        entries@,
                        ft,
                        lk,
                        nk,
                        i + 1,
                        0,
                    ).contains(n) by {
                        let (a, b) = choose|a: int, b: int|
                            (a < i || (a == i && b < 0)) && #[trigger] name_at(entries@, ft, lk, nk, a, b) == Some(n);
                        assert(name_at(entries@, ft, lk, nk, a, b) == Some(n));
                    }
                }
            }
        }
        if let Some(items) = listed {
            let mut j: usize = 0;
            proof {
                assert(names_before(entries@, ft, lk, nk, i as int, 0) =~= names_before(
                    entries@,
                    ft,
                    lk,
                    nk,
                    i as int,
                    0,
                ));
            }
            while j < items.len()
                invariant
                    ft == filter_type@,
                    lk == list_key@,
                    nk == name_key@,
                    i < entries@.len(),
                    entries@[i as int] == *entry,
                    entry.filter_type@ == ft,
                    yaml_get(entry.config, lk) matches Some(list) && yaml_as_sequence(list) == Some(items@),
                    j <= items@.len(),
                    texts(names@).no_duplicates(),
                    texts(names@).to_set() == names_before(entries@, ft, lk, nk, i as int, j as int),
                decreases items@.len() - j,
            {
                let ghost prev = texts(names@).to_set();
                let mut found: Option<&str> = None;
                if let Some(v) = items[j].get(name_key) {
                    found = v.as_str();
                }
                let ghost at = name_at(entries@, ft, lk, nk, i as int, j as int);
                assert(at == if found is Some {
                    Some(found->0@)
                } else {
                    None::<Seq<char>>
                });
                if let Some(name) = found {
                    insert_unique(&mut names, name);
                }
                proof {
                    let next = names_before(entries@, ft, lk, nk, i as int, j + 1);
                    let cur = names_before(entries@, ft, lk, nk, i as int, j as int);
                    assert forall|n: Seq<char>| #[trigger] next.contains(n) <==> (cur.contains(n) || at == Some(n)) by {
                        if next.contains(n) {
                            let (a, b) = choose|a: int, b: int|
                                (a < i || (a == i && b < j + 1)) && #[trigger] name_at(entries@, ft, lk, nk, a, b)
                                    == Some(n);
                            if !(a == i && b == j) {
                                assert(cur.contains(n));
                            }
                        }
                        if cur.contains(n) {
                            let (a, b) = choose|a: int, b: int|
                                (a < i || (a == i && b < j)) && #[trigger] name_at(entries@, ft, lk, nk, a, b)
                                    == Some(n);
                            assert(name_at(entries@, ft, lk, nk, a, b) == Some(n));
                        }
                        if at == Some(n) {
                            assert(name_at(entries@, ft, lk, nk, i as int, j as int) == Some(n));
                        }
                    }
                    assert forall|n: Seq<char>| texts(names@).to_set().contains(n) <==> next.contains(n) by {
                        assert(texts(names@).to_set().contains(n) == texts(names@).contains(n));
                        assert(prev.contains(n) == cur.contains(n));
                    }
                    assert(texts(names@).to_set() =~= next);
                }
                j = j + 1;
            }
            proof {
                let done = names_before(entries@, ft, lk, nk, i as int, j as int);
                assert(names_before(entries@, ft, lk, nk, i + 1, 0) =~= done) by {
                    assert forall|n: Seq<char>| #[trigger]
                        names_before(entries@, ft, lk, nk, i + 1, 0).contains(n) implies done.contains(n) by {
                        let (a, b) = choose|a: int, b: int|
                            (a < i + 1 || (a == i + 1 && b < 0)) && #[trigger] name_at(entries@, ft, lk, nk, a, b)
                                == Some(n);
                        if a == i {
                            assert(b < j);
                        }
                        assert(name_at(entries@, ft, lk, nk, a, b) == Some(n));
                    }
                    assert forall|n: Seq<char>| #[trigger] done.contains(n) implies names_before(
                        entries@,
                        ft,
                        lk,
                        nk,
                        i + 1,
                        0,
                    ).contains(n) by {
                        let (a, b) = choose|a: int, b: int|
                            (a < i || (a == i && b < j)) && #[trigger] name_at(entries@, ft, lk, nk, a, b) == Some(n);
                        assert(name_at(entries@, ft, lk, nk, a, b) == Some(n));
                    }
                }
            }
        }
        i = i + 1;
    }
    proof {
        assert(names_before(entries@, ft, lk, nk, i as int, 0) =~= names_in(entries@, ft, lk, nk)) by {
            assert forall|n: Seq<char>| #[trigger] names_in(entries@, ft, lk, nk).contains(n) implies names_before(
                entries@,
                ft,
                lk,
                nk,
                i as int,
                0,
            ).contains(n) by {
                let (a, b) = choose|a: int, b: int| #[trigger] name_at(entries@, ft, lk, nk, a, b) == Some(n);
                assert(name_at(entries@, ft, lk, nk, a, b) == Some(n));
            }
            assert forall|n: Seq<char>| #[trigger] names_before(entries@, ft, lk, nk, i as int, 0).contains(n) implies names_in(
                entries@,
                ft,
                lk,
                nk,
            ).contains(n) by {
                let (a, b) = choose|a: int, b: int|
                    (a < i || (a == i && b < 0)) && #[trigger] name_at(entries@, ft, lk, nk, a, b) == Some(n);
                assert(name_at(entries@, ft, lk, nk, a, b) == Some(n));
            }
        }
    }
    names
}

/// Extract cluster names from router filter entries' YAML config: the
/// `cluster` of every item of `routes`.
pub fn extract_router_clusters(entries: &[FilterEntry]) -> (r: Vec<String>)
    ensures
        texts(r@).no_duplicates(),
        texts(r@).to_set() == router_clusters(entries@),
{
    extract_names(entries, "router", "routes", "cluster")
}

/// Extract cluster names from `load_balancer` filter entries' YAML config:
/// the `name` of every item of `clusters`.
pub fn extract_lb_clusters(entries: &[FilterEntry]) -> (r: Vec<String>)
    ensures
        texts(r@).no_duplicates(),
        texts(r@).to_set() == lb_clusters(entries@),
{
    extract_names(entries, "load_balancer", "clusters", "name")
}

} // verus!
