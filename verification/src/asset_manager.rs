//! The asset directory: owns every known asset, indexed by path, and keeps
//! the alias index that maps each scripted-character name to at most one
//! path at a time.
//!
//! Inserting an asset whose alternate names collide with an existing alias
//! overwrites the mapping; removing an asset only clears an alias entry that
//! still points at the asset being removed, so a stale overwrite-then-remove
//! race cannot drop another asset's alias.

use vstd::prelude::*;
use crate::asset::{Asset, AssetDependency};

verus! {

/// The alias names an asset claims through its alternate names.
pub open spec fn sc_names(deps: Seq<AssetDependency>) -> Set<Seq<char>> {
    Set::new(
        |n: Seq<char>|
            exists|i: int|
                0 <= i < deps.len() && ((#[trigger] deps[i]) matches
                    AssetDependency::ScriptedCharacter(m) && m@ == n),
    )
}

pub struct AssetManager {
    assets: Vec<(String, Asset)>,
    scripted_character_paths: Vec<(String, String)>,
}

/// The map an association list stands for; a later entry wins, though the
/// directory keeps its keys unique.
pub open spec fn map_of<V>(s: Seq<(String, V)>) -> Map<Seq<char>, V>
    decreases s.len(),
{
    if s.len() == 0 {
        Map::empty()
    } else {
        map_of(s.drop_last()).insert(s.last().0@, s.last().1)
    }
}

pub open spec fn unique_keys<V>(s: Seq<(String, V)>) -> bool {
    forall|i: int, j: int| 0 <= i < j < s.len() ==> (#[trigger] s[i].0@) != (#[trigger] s[j].0@)
}

proof fn lemma_map_of_index<V>(s: Seq<(String, V)>, i: int)
    requires
        unique_keys(s),
        0 <= i < s.len(),
    ensures
        map_of(s).contains_key(s[i].0@),
        map_of(s)[s[i].0@] == s[i].1,
    decreases s.len(),
{
    if i == s.len() - 1 {
        assert(s.last() == s[i]);
    } else {
        assert(unique_keys(s.drop_last())) by {
            assert(forall|a: int, b: int|
                0 <= a < b < s.drop_last().len() ==> s.drop_last()[a] == s[a] && s.drop_last()[b]
                    == s[b]);
        };
        lemma_map_of_index(s.drop_last(), i);
        assert(s.drop_last()[i] == s[i]);
        assert(s[i].0@ != s.last().0@);
    }
}

proof fn lemma_map_of_absent<V>(s: Seq<(String, V)>, k: Seq<char>)
    requires
        forall|i: int| 0 <= i < s.len() ==> (#[trigger] s[i].0@) != k,
    ensures
        !map_of(s).contains_key(k),
    decreases s.len(),
{
    if s.len() > 0 {
        assert(forall|i: int|
            0 <= i < s.drop_last().len() ==> (#[trigger] s.drop_last()[i]) == s[i]);
        lemma_map_of_absent(s.drop_last(), k);
    }
}

proof fn lemma_map_of_push<V>(s: Seq<(String, V)>, key: String, v: V)
    ensures
        map_of(s.push((key, v))) == map_of(s).insert(key@, v),
{
    assert(s.push((key, v)).drop_last() =~= s);
    assert(s.push((key, v)).last() == (key, v));
}

proof fn lemma_map_of_remove<V>(s: Seq<(String, V)>, i: int)
    requires
        unique_keys(s),
        0 <= i < s.len(),
    ensures
        map_of(s.remove(i)) == map_of(s).remove(s[i].0@),
    decreases s.len(),
{
    let t = s.remove(i);
    if i == s.len() - 1 {
        assert(t =~= s.drop_last());
        assert(!map_of(s.drop_last()).contains_key(s[i].0@)) by {
            assert(forall|j: int|
                0 <= j < s.drop_last().len() ==> (#[trigger] s.drop_last()[j].0@) != s[i].0@);
            lemma_map_of_absent(s.drop_last(), s[i].0@);
        };
        assert(map_of(s.drop_last()) =~= map_of(s).remove(s[i].0@));
    } else {
        assert(unique_keys(s.drop_last())) by {
            assert(forall|a: int, b: int|
                0 <= a < b < s.drop_last().len() ==> s.drop_last()[a] == s[a] && s.drop_last()[b]
                    == s[b]);
        };
        assert(t.drop_last() =~= s.drop_last().remove(i));
        assert(t.last() == s.last());
        lemma_map_of_remove(s.drop_last(), i);
        assert(s.drop_last()[i] == s[i]);
        assert(s[i].0@ != s.last().0@);
        assert(map_of(t) =~= map_of(s).remove(s[i].0@)) by {
            assert(map_of(t) == map_of(s.drop_last()).remove(s[i].0@).insert(
                s.last().0@,
                s.last().1,
            ));
        };
    }
}

/// The alias entries an insertion under `path` writes, in order.
pub open spec fn alias_of(deps: Seq<AssetDependency>, path: Seq<char>) -> Map<Seq<char>, Seq<char>>
    decreases deps.len(),
{
    if deps.len() == 0 {
        Map::empty()
    } else {
        match deps.last() {
            AssetDependency::ScriptedCharacter(m) => alias_of(deps.drop_last(), path).insert(
                m@,
                path,
            ),
            AssetDependency::AssetPath(_) => alias_of(deps.drop_last(), path),
        }
    }
}

/// What the alias index looks like after a removal under `path`: an entry of
/// a removed name is dropped exactly when it still points at `path`.
pub open spec fn scrub(
    m: Map<Seq<char>, Seq<char>>,
    deps: Seq<AssetDependency>,
    path: Seq<char>,
) -> Map<Seq<char>, Seq<char>>
    decreases deps.len(),
{
    if deps.len() == 0 {
        m
    } else {
        let m1 = scrub(m, deps.drop_last(), path);
        match deps.last() {
            AssetDependency::ScriptedCharacter(name) => {
                if m1.contains_key(name@) && m1[name@] == path {
                    m1.remove(name@)
                } else {
                    m1
                }
            },
            AssetDependency::AssetPath(_) => m1,
        }
    }
}

/// `alias_of` holds exactly the scripted-character names, each mapped to
/// `path`.
pub proof fn lemma_alias_of(deps: Seq<AssetDependency>, path: Seq<char>, n: Seq<char>)
    ensures
        alias_of(deps, path).contains_key(n) <==> sc_names(deps).contains(n),
        alias_of(deps, path).contains_key(n) ==> alias_of(deps, path)[n] == path,
    decreases deps.len(),
{
    if deps.len() == 0 {
        if sc_names(deps).contains(n) {
            let w = choose|w: int|
                0 <= w < deps.len() && ((#[trigger] deps[w]) matches
                    AssetDependency::ScriptedCharacter(m) && m@ == n);
        }
    } else {
        let front = deps.drop_last();
        lemma_alias_of(front, path, n);
        if sc_names(deps).contains(n) {
            let w = choose|w: int|
                0 <= w < deps.len() && ((#[trigger] deps[w]) matches
                    AssetDependency::ScriptedCharacter(m) && m@ == n);
            if w < deps.len() - 1 {
                assert(front[w] == deps[w]);
                assert(sc_names(front).contains(n));
            }
        }
        if sc_names(front).contains(n) {
            let w = choose|w: int|
                0 <= w < front.len() && ((#[trigger] front[w]) matches
                    AssetDependency::ScriptedCharacter(m) && m@ == n);
            assert(deps[w] == front[w]);
            assert(sc_names(deps).contains(n));
        }
        match deps.last() {
            AssetDependency::ScriptedCharacter(m) => {
                if m@ == n {
                    assert((deps[deps.len() - 1]) matches AssetDependency::ScriptedCharacter(m3)
                        && m3@ == n);
                    assert(sc_names(deps).contains(n));
                }
            },
            AssetDependency::AssetPath(_) => {},
        }
    }
}

/// Scrubbing drops exactly those of the removed asset's names that still
/// point at `path`; every other entry is untouched.
pub proof fn lemma_scrub(
    m: Map<Seq<char>, Seq<char>>,
    deps: Seq<AssetDependency>,
    path: Seq<char>,
    n: Seq<char>,
)
    ensures
        sc_names(deps).contains(n) && m.contains_key(n) && m[n] == path ==> !scrub(
            m,
            deps,
            path,
        ).contains_key(n),
        !(sc_names(deps).contains(n) && m.contains_key(n) && m[n] == path) ==> (scrub(
            m,
            deps,
            path,
        ).contains_key(n) == m.contains_key(n) && (m.contains_key(n) ==> scrub(m, deps, path)[n]
            == m[n])),
    decreases deps.len(),
{
    if deps.len() == 0 {
        if sc_names(deps).contains(n) {
            let w = choose|w: int|
                0 <= w < deps.len() && ((#[trigger] deps[w]) matches
                    AssetDependency::ScriptedCharacter(m2) && m2@ == n);
        }
    } else {
        let front = deps.drop_last();
        lemma_scrub(m, front, path, n);
        assert(forall|w: int| 0 <= w < front.len() ==> (#[trigger] front[w]) == deps[w]);
        if sc_names(front).contains(n) {
            let w = choose|w: int|
                0 <= w < front.len() && ((#[trigger] front[w]) matches
                    AssetDependency::ScriptedCharacter(m2) && m2@ == n);
            assert(sc_names(deps).contains(n));
        }
        match deps.last() {
            AssetDependency::ScriptedCharacter(m2) => {
                lemma_scrub(m, front, path, m2@);
                if m2@ == n {
                    assert((deps[deps.len() - 1]) matches AssetDependency::ScriptedCharacter(m3)
                        && m3@ == n);
                    assert(sc_names(deps).contains(n));
                }
            },
            AssetDependency::AssetPath(_) => {},
        }
        if sc_names(deps).contains(n) && !sc_names(front).contains(n) {
            let w = choose|w: int|
                0 <= w < deps.len() && ((#[trigger] deps[w]) matches
                    AssetDependency::ScriptedCharacter(m2) && m2@ == n);
            if w < deps.len() - 1 {
                assert(front[w] == deps[w]);
                assert(sc_names(front).contains(n));
            }
            assert(w == deps.len() - 1);
        }
    }
}

/// Alias overwrite: after an asset claiming name `n` is stored under `path`,
/// a lookup of `n` resolves to `path`, whatever path held the alias before.
/// Combined with `set_asset`'s contract this covers any earlier holder.
pub proof fn lemma_alias_overwrite(
    aliases: Map<Seq<char>, Seq<char>>,
    deps: Seq<AssetDependency>,
    path: Seq<char>,
    n: Seq<char>,
)
    requires
        sc_names(deps).contains(n),
    ensures
        aliases.union_prefer_right(alias_of(deps, path)).contains_key(n),
        aliases.union_prefer_right(alias_of(deps, path))[n] == path,
{
    lemma_alias_of(deps, path, n);
}

/// Alias removal guard: removing an asset leaves alone every alias that no
/// longer points at it, in particular one another asset has since claimed.
/// Combined with `remove_asset`'s contract this is the overwrite-then-remove
/// race guard.
pub proof fn lemma_alias_removal_guard(
    aliases: Map<Seq<char>, Seq<char>>,
    deps: Seq<AssetDependency>,
    path: Seq<char>,
    n: Seq<char>,
)
    requires
        aliases.contains_key(n),
        aliases[n] != path,
    ensures
        scrub(aliases, deps, path).contains_key(n),
        scrub(aliases, deps, path)[n] == aliases[n],
{
    lemma_scrub(aliases, deps, path, n);
}

/// Removal clears exactly the removed asset's names that still point at it.
pub proof fn lemma_alias_removed(
    aliases: Map<Seq<char>, Seq<char>>,
    deps: Seq<AssetDependency>,
    path: Seq<char>,
    n: Seq<char>,
)
    requires
        sc_names(deps).contains(n),
        aliases.contains_key(n),
        aliases[n] == path,
    ensures
        !scrub(aliases, deps, path).contains_key(n),
{
    lemma_scrub(aliases, deps, path, n);
}

impl AssetManager {
    /// Keys are unique in both indices.
    pub closed spec fn wf(self) -> bool {
        unique_keys(self.assets@) && unique_keys(self.scripted_character_paths@)
    }

    /// The directory: every known asset by path.
    pub closed spec fn assets_map(self) -> Map<Seq<char>, Asset> {
        map_of(self.assets@)
    }

    /// The alias index: each scripted-character name maps to at most one path.
    pub closed spec fn alias_map(self) -> Map<Seq<char>, Seq<char>> {
        map_of(self.scripted_character_paths@).map_values(|p: String| p@)
    }

    pub fn new() -> (r: AssetManager)
        ensures
            r.wf(),
            r.assets_map() == Map::<Seq<char>, Asset>::empty(),
            r.alias_map() == Map::<Seq<char>, Seq<char>>::empty(),
    {
        let r = AssetManager { assets: Vec::new(), scripted_character_paths: Vec::new() };
        proof {
            assert(r.alias_map() =~= Map::<Seq<char>, Seq<char>>::empty());
        }
        r
    }

    fn find_asset_index(&self, path: &String) -> (r: Option<usize>)
        ensures
            match r {
                Some(i) => i < self.assets@.len() && self.assets@[i as int].0@ == path@,
                None => forall|i: int|
                    0 <= i < self.assets@.len() ==> (#[trigger] self.assets@[i].0@) != path@,
            },
    {
        let mut i: usize = 0;
        while i < self.assets.len()
            invariant
                i <= self.assets@.len(),
                forall|j: int| 0 <= j < i ==> (#[trigger] self.assets@[j].0@) != path@,
            decreases self.assets@.len() - i,
        {
            if self.assets[i].0 == *path {
                return Some(i);
            }
            i = i + 1;
        }
        None
    }

    fn find_alias_index(&self, name: &String) -> (r: Option<usize>)
        ensures
            match r {
                Some(i) => i < self.scripted_character_paths@.len()
                    && self.scripted_character_paths@[i as int].0@ == name@,
                None => forall|i: int|
                    0 <= i < self.scripted_character_paths@.len() ==> (
                    #[trigger] self.scripted_character_paths@[i].0@) != name@,
            },
    {
        let mut i: usize = 0;
        while i < self.scripted_character_paths.len()
            invariant
                i <= self.scripted_character_paths@.len(),
                forall|j: int|
                    0 <= j < i ==> (#[trigger] self.scripted_character_paths@[j].0@) != name@,
            decreases self.scripted_character_paths@.len() - i,
        {
            if self.scripted_character_paths[i].0 == *name {
                return Some(i);
            }
            i = i + 1;
        }
        None
    }

    pub fn get_asset(&self, path: &String) -> (r: Option<&Asset>)
        requires
            self.wf(),
        ensures
            match r {
                Some(a) => self.assets_map().contains_key(path@) && *a == self.assets_map()[path@],
                None => !self.assets_map().contains_key(path@),
            },
    {
        match self.find_asset_index(path) {
            Some(i) => {
                proof {
                    lemma_map_of_index(self.assets@, i as int);
                }
                Some(&self.assets[i].1)
            },
            None => {
                proof {
                    lemma_map_of_absent(self.assets@, path@);
                }
                None
            },
        }
    }

    /// Point `name` at `path` in the alias index, overwriting any holder.
    fn set_alias(&mut self, name: String, path: String)
        requires
            old(self).wf(),
        ensures
            final(self).wf(),
            final(self).assets@ == old(self).assets@,
            final(self).alias_map() == old(self).alias_map().insert(name@, path@),
    {
        let ghost before = self.scripted_character_paths@;
        match self.find_alias_index(&name) {
            Some(i) => {
                proof {
                    lemma_map_of_remove(before, i as int);
                }
                self.scripted_character_paths.remove(i);
                proof {
                    assert(unique_keys(self.scripted_character_paths@)) by {
                        assert(forall|a: int, b: int|
                            0 <= a < b < self.scripted_character_paths@.len() ==> exists|c: int, d: int|
                                0 <= c < d < before.len()
                                    && (#[trigger] self.scripted_character_paths@[a]) == before[c]
                                    && (#[trigger] self.scripted_character_paths@[b]) == before[d]);
                    };
                    assert(forall|j: int|
                        0 <= j < self.scripted_character_paths@.len() ==> (
                        #[trigger] self.scripted_character_paths@[j].0@) != name@);
                }
            },
            None => {},
        }
        let ghost mid = self.scripted_character_paths@;
        proof {
            lemma_map_of_push(mid, name, path);
        }
        self.scripted_character_paths.push((name, path));
        proof {
            assert(unique_keys(self.scripted_character_paths@)) by {
                assert(forall|j: int| 0 <= j < mid.len() ==> (#[trigger] mid[j].0@) != name@);
                assert(forall|a: int, b: int|
                    0 <= a < b < self.scripted_character_paths@.len() && b < mid.len() ==> (
                    #[trigger] self.scripted_character_paths@[a]) == mid[a] && (
                    #[trigger] self.scripted_character_paths@[b]) == mid[b]);
            };
            assert(final(self).alias_map() =~= old(self).alias_map().insert(name@, path@));
        }
    }

    fn remove_alias_entry(&mut self, name: &String)
        requires
            old(self).wf(),
        ensures
            final(self).wf(),
            final(self).assets@ == old(self).assets@,
            final(self).alias_map() == old(self).alias_map().remove(name@),
    {
        let ghost before = self.scripted_character_paths@;
        match self.find_alias_index(name) {
            Some(i) => {
                proof {
                    lemma_map_of_remove(before, i as int);
                }
                self.scripted_character_paths.remove(i);
                proof {
                    assert(unique_keys(self.scripted_character_paths@)) by {
                        assert(forall|a: int, b: int|
                            0 <= a < b < self.scripted_character_paths@.len() ==> exists|c: int, d: int|
                                0 <= c < d < before.len()
                                    && (#[trigger] self.scripted_character_paths@[a]) == before[c]
                                    && (#[trigger] self.scripted_character_paths@[b]) == before[d]);
                    };
                    assert(final(self).alias_map() =~= old(self).alias_map().remove(name@));
                }
            },
            None => {
                proof {
                    lemma_map_of_absent(before, name@);
                    assert(final(self).alias_map() =~= old(self).alias_map().remove(name@));
                }
            },
        }
    }

    /// Store `asset` under `path`. Every scripted-character alternate name of
    /// the asset now aliases `path`, overwriting any previous holder; other
    /// aliases are untouched.
    pub fn set_asset(&mut self, path: String, asset: Asset)
        requires
            old(self).wf(),
        ensures
            final(self).wf(),
            final(self).assets_map() == old(self).assets_map().insert(path@, asset),
            final(self).alias_map() == old(self).alias_map().union_prefer_right(
                alias_of(asset.alternate_names@, path@),
            ),
    {
        let ghost deps = asset.alternate_names@;
        let n_names = asset.alternate_names.len();
        let mut i: usize = 0;
        while i < n_names
            invariant
                self.wf(),
                n_names == deps.len(),
                deps == asset.alternate_names@,
                i <= n_names,
                self.assets@ == old(self).assets@,
                self.alias_map() == old(self).alias_map().union_prefer_right(
                    alias_of(deps.take(i as int), path@),
                ),
            decreases n_names - i,
        {
            proof {
                assert(deps.take(i as int + 1).drop_last() =~= deps.take(i as int));
                assert(deps.take(i as int + 1).last() == deps[i as int]);
            }
            match &asset.alternate_names[i] {
                AssetDependency::ScriptedCharacter(name) => {
                    let name_c = name.clone();
                    let path_c = path.clone();
                    self.set_alias(name_c, path_c);
                    proof {
                        assert(self.alias_map() =~= old(self).alias_map().union_prefer_right(
                            alias_of(deps.take(i as int + 1), path@),
                        ));
                    }
                },
                AssetDependency::AssetPath(_) => {
                    proof {
                        assert(alias_of(deps.take(i as int + 1), path@) == alias_of(
                            deps.take(i as int),
                            path@,
                        ));
                    }
                },
            }
            i = i + 1;
        }
        proof {
            assert(deps.take(n_names as int) =~= deps);
        }
        let ghost before = self.assets@;
        match self.find_asset_index(&path) {
            Some(j) => {
                proof {
                    lemma_map_of_remove(before, j as int);
                }
                self.assets.remove(j);
                proof {
                    assert(unique_keys(self.assets@)) by {
                        assert(forall|a: int, b: int|
                            0 <= a < b < self.assets@.len() ==> exists|c: int, d: int|
                                0 <= c < d < before.len() && (#[trigger] self.assets@[a])
                                    == before[c] && (#[trigger] self.assets@[b]) == before[d]);
                    };
                    assert(forall|j2: int|
                        0 <= j2 < self.assets@.len() ==> (#[trigger] self.assets@[j2].0@) != path@);
                }
            },
            None => {},
        }
        let ghost mid = self.assets@;
        proof {
            lemma_map_of_push(mid, path, asset);
        }
        self.assets.push((path, asset));
        proof {
            assert(unique_keys(self.assets@)) by {
                assert(forall|j2: int| 0 <= j2 < mid.len() ==> (#[trigger] mid[j2].0@) != path@);
                assert(forall|a: int, b: int|
                    0 <= a < b < self.assets@.len() && b < mid.len() ==> (
                    #[trigger] self.assets@[a]) == mid[a] && (#[trigger] self.assets@[b])
                        == mid[b]);
            };
            assert(final(self).assets_map() =~= old(self).assets_map().insert(path@, asset));
        }
    }

    /// Drop the asset at `path`, if present. An alias entry is cleared only
    /// if it still points at `path`: a name since claimed by another asset
    /// keeps its newer mapping.
    pub fn remove_asset(&mut self, path: &String)
        requires
            old(self).wf(),
        ensures
            final(self).wf(),
            final(self).assets_map() == old(self).assets_map().remove(path@),
            !old(self).assets_map().contains_key(path@) ==> final(self).alias_map() == old(self).alias_map(),
            old(self).assets_map().contains_key(path@) ==> final(self).alias_map() == scrub(
                old(self).alias_map(),
                old(self).assets_map()[path@].alternate_names@,
                path@,
            ),
    {
        let ghost before = self.assets@;
        let idx = match self.find_asset_index(path) {
            Some(i) => i,
            None => {
                proof {
                    lemma_map_of_absent(before, path@);
                    assert(final(self).assets_map() =~= old(self).assets_map().remove(path@));
                }
                return ;
            },
        };
        proof {
            lemma_map_of_index(before, idx as int);
            lemma_map_of_remove(before, idx as int);
        }
        let entry = self.assets.remove(idx);
        let asset = entry.1;
        proof {
            assert(unique_keys(self.assets@)) by {
                assert(forall|a: int, b: int|
                    0 <= a < b < self.assets@.len() ==> exists|c: int, d: int|
                        0 <= c < d < before.len() && (#[trigger] self.assets@[a]) == before[c] && (
                        #[trigger] self.assets@[b]) == before[d]);
            };
        }
        let ghost base_alias = self.alias_map();
        let ghost deps = asset.alternate_names@;
        let n_names = asset.alternate_names.len();
        let mut i: usize = 0;
        while i < n_names
            invariant
                self.wf(),
                n_names == deps.len(),
                deps == asset.alternate_names@,
                i <= n_names,
                map_of(self.assets@) == old(self).assets_map().remove(path@),
                self.alias_map() == scrub(base_alias, deps.take(i as int), path@),
            decreases n_names - i,
        {
            proof {
                assert(deps.take(i as int + 1).drop_last() =~= deps.take(i as int));
                assert(deps.take(i as int + 1).last() == deps[i as int]);
            }
            match &asset.alternate_names[i] {
                AssetDependency::ScriptedCharacter(name) => {
                    let mut clear = false;
                    match self.find_alias_index(name) {
                        Some(j) => {
                            proof {
                                lemma_map_of_index(self.scripted_character_paths@, j as int);
                            }
                            if self.scripted_character_paths[j].1 == *path {
                                clear = true;
                            }
                            proof {
                                assert(self.alias_map().contains_key(name@));
                                assert(self.alias_map()[name@]
                                    == self.scripted_character_paths@[j as int].1@);
                            }
                        },
                        None => {
                            proof {
                                lemma_map_of_absent(self.scripted_character_paths@, name@);
                                assert(!self.alias_map().contains_key(name@));
                            }
                        },
                    }
                    if clear {
                        self.remove_alias_entry(name);
                    }
                },
                AssetDependency::AssetPath(_) => {},
            }
            i = i + 1;
        }
        proof {
            assert(deps.take(n_names as int) =~= deps);
            assert(old(self).assets_map()[path@] == asset);
        }
    }
}

// ---------------------------------------------------------------------------
// Dependency chain flattening
// ---------------------------------------------------------------------------

/// Where a dependency reference points: a direct path as itself, an alias
/// through the alias index.
pub open spec fn spec_resolve(m: AssetManager, d: AssetDependency) -> Option<Seq<char>> {
    match d {
        AssetDependency::AssetPath(p) => Some(p@),
        AssetDependency::ScriptedCharacter(nm) => if m.alias_map().contains_key(nm@) {
            Some(m.alias_map()[nm@])
        } else {
            Option::None
        },
    }
}

/// `p` occurs in the chain.
pub open spec fn in_chain(chain: Seq<String>, p: Seq<char>) -> bool {
    exists|j: int| 0 <= j < chain.len() && (#[trigger] chain[j]@) == p
}

/// The chain holds no path twice and only paths of known assets.
pub open spec fn chain_ok(m: AssetManager, chain: Seq<String>) -> bool {
    &&& forall|i: int, j: int|
        0 <= i < j < chain.len() ==> (#[trigger] chain[i]@) != (#[trigger] chain[j]@)
    &&& forall|i: int| 0 <= i < chain.len() ==> m.assets_map().contains_key(#[trigger] chain[i]@)
}

/// Every resolvable, present dependency of every chain element is itself in
/// the chain, or still on the traversal stack.
pub open spec fn closed_except(m: AssetManager, chain: Seq<String>, ip: Seq<String>) -> bool {
    forall|i: int, k: int|
        0 <= i < chain.len() && 0 <= k < m.assets_map()[chain[i]@].dependencies@.len()
            ==> match spec_resolve(m, #[trigger] m.assets_map()[#[trigger] chain[i]@].dependencies@[k]) {
            Some(p) => m.assets_map().contains_key(p) ==> in_chain(chain, p) || in_chain(ip, p),
            Option::None => true,
        }
}

/// Dependency-closed outright: nothing pending.
pub open spec fn chain_closed(m: AssetManager, chain: Seq<String>) -> bool {
    closed_except(m, chain, Seq::empty())
}

/// `b` is reachable from `a` along resolvable, present dependency edges in
/// at most `fuel` steps.
pub open spec fn reaches(m: AssetManager, a: Seq<char>, b: Seq<char>, fuel: nat) -> bool
    decreases fuel,
{
    a == b || (fuel > 0 && m.assets_map().contains_key(a) && exists|k: int|
        0 <= k < m.assets_map()[a].dependencies@.len() && (match spec_resolve(
            m,
            #[trigger] m.assets_map()[a].dependencies@[k],
        ) {
            Some(p) => m.assets_map().contains_key(p) && reaches(m, p, b, (fuel - 1) as nat),
            Option::None => false,
        }))
}

/// Dependency flattening is complete: a dependency-closed chain that holds
/// the root holds every asset reachable from it. Together with `chain_ok`
/// (no duplicates) this says the chain holds each reachable asset exactly
/// once.
pub proof fn lemma_chain_reaches(
    m: AssetManager,
    chain: Seq<String>,
    root: Seq<char>,
    p: Seq<char>,
    fuel: nat,
)
    requires
        chain_closed(m, chain),
        in_chain(chain, root),
        reaches(m, root, p, fuel),
        m.assets_map().contains_key(p),
    ensures
        in_chain(chain, p),
    decreases fuel,
{
    if root == p {
    } else {
        let k = choose|k: int|
            0 <= k < m.assets_map()[root].dependencies@.len() && (match spec_resolve(
                m,
                #[trigger] m.assets_map()[root].dependencies@[k],
            ) {
                Some(q) => m.assets_map().contains_key(q) && reaches(m, q, p, (fuel - 1) as nat),
                Option::None => false,
            });
        let j = choose|j: int| 0 <= j < chain.len() && (#[trigger] chain[j]@) == root;
        let q = spec_resolve(m, m.assets_map()[root].dependencies@[k]).unwrap();
        assert(in_chain(chain, q) || in_chain(Seq::<String>::empty(), q));
        assert(in_chain(chain, q));
        lemma_chain_reaches(m, chain, q, p, (fuel - 1) as nat);
    }
}

impl AssetManager {
    /// Resolve one dependency reference to a concrete path, if any.
    pub fn resolve_dependency_path(&self, dependency: &AssetDependency) -> (r: Option<String>)
        requires
            self.wf(),
        ensures
            match r {
                Some(s) => spec_resolve(*self, *dependency) == Some(s@),
                Option::None => spec_resolve(*self, *dependency) is None,
            },
    {
        match dependency {
            AssetDependency::AssetPath(p) => Some(p.clone()),
            AssetDependency::ScriptedCharacter(nm) => {
                match self.find_alias_index(nm) {
                    Some(j) => {
                        proof {
                            lemma_map_of_index(self.scripted_character_paths@, j as int);
                        }
                        Some(self.scripted_character_paths[j].1.clone())
                    },
                    Option::None => {
                        proof {
                            lemma_map_of_absent(self.scripted_character_paths@, nm@);
                        }
                        Option::None
                    },
                }
            },
        }
    }

    fn list_contains(list: &Vec<String>, p: &String) -> (r: bool)
        ensures
            r == in_chain(list@, p@),
    {
        let mut i: usize = 0;
        while i < list.len()
            invariant
                i <= list@.len(),
                forall|j: int| 0 <= j < i ==> (#[trigger] list@[j]@) != p@,
            decreases list@.len() - i,
        {
            if list[i] == *p {
                return true;
            }
            i = i + 1;
        }
        false
    }

    /// Depth-first flattening: resolve and recurse into each dependency not
    /// yet emitted, then append the asset's own path. An in-progress marker
    /// breaks dependency cycles instead of recursing without bound; an
    /// unresolvable or unknown dependency is skipped, never an error.
    pub fn build_flattened_dependency_chain_with_recursion(
        &self,
        asset_path: &String,
        chain: &mut Vec<String>,
        in_progress: &mut Vec<String>,
    )
        requires
            self.wf(),
            chain_ok(*self, old(chain)@),
            chain_ok(*self, old(in_progress)@),
            closed_except(*self, old(chain)@, old(in_progress)@),
        ensures
            final(in_progress)@ == old(in_progress)@,
            final(chain)@.len() >= old(chain)@.len(),
            forall|j: int|
                0 <= j < old(chain)@.len() ==> (#[trigger] final(chain)@[j]) == old(chain)@[j],
            forall|j: int|
                old(chain)@.len() <= j < final(chain)@.len() ==> !in_chain(
                    old(in_progress)@,
                    (#[trigger] final(chain)@[j])@,
                ),
            chain_ok(*self, final(chain)@),
            closed_except(*self, final(chain)@, old(in_progress)@),
            self.assets_map().contains_key(asset_path@) && !in_chain(old(in_progress)@, asset_path@)
                ==> in_chain(final(chain)@, asset_path@),
            !self.assets_map().contains_key(asset_path@) ==> final(chain)@ == old(chain)@,
        decreases self.assets_map().dom().difference(ip_views(in_progress@)).len(),
    {
        proof {
            lemma_map_of_dom_finite(self.assets@);
        }
        if Self::list_contains(in_progress, asset_path) {
            return ;
        }
        if Self::list_contains(chain, asset_path) {
            return ;
        }
        let asset = match self.get_asset(asset_path) {
            Some(a) => a,
            Option::None => {
                return ;
            },
        };
        proof {
            assert(forall|j: int|
                0 <= j < in_progress@.len() ==> (#[trigger] in_progress@[j]@) != asset_path@);
        }
        let ghost ip0 = in_progress@;
        let ghost measure0 = self.assets_map().dom().difference(ip_views(ip0)).len();
        in_progress.push(asset_path.clone());
        proof {
            let ip1 = in_progress@;
            assert(ip1 == ip0.push(*asset_path));
            assert(chain_ok(*self, ip1)) by {
                assert(forall|j: int| 0 <= j < ip0.len() ==> (#[trigger] ip1[j]) == ip0[j]);
                assert(ip1[ip1.len() - 1]@ == asset_path@);
                assert(forall|i: int, j: int|
                    0 <= i < j < ip1.len() ==> (#[trigger] ip1[i]@) != (#[trigger] ip1[j]@)) by {
                    assert(forall|i: int|
                        0 <= i < ip0.len() ==> (#[trigger] ip1[i]@) == ip0[i]@);
                };
            };
            lemma_closed_grow_ip(*self, chain@, ip0, ip1);
            assert forall|x: Seq<char>|
                ip_views(ip1).contains(x) implies ip_views(ip0).contains(x) || x
                == asset_path@ by {
                lemma_in_chain_push(ip0, *asset_path, x);
            }
            assert forall|x: Seq<char>|
                ip_views(ip0).contains(x) || x == asset_path@ implies ip_views(ip1).contains(
                x,
            ) by {
                lemma_in_chain_push(ip0, *asset_path, x);
            }
            assert(ip_views(ip1) =~= ip_views(ip0).insert(asset_path@));
            assert(self.assets_map().dom().contains(asset_path@));
            assert(!ip_views(ip0).contains(asset_path@));
            self.assets_map().dom().lemma_set_insert_diff_decreases(
                ip_views(ip0),
                asset_path@,
            );
            assert(self.assets_map().dom().difference(ip_views(ip1)).len() < measure0);
        }
        let n_deps = asset.dependencies.len();
        let ghost chain_start = chain@;
        let mut k: usize = 0;
        while k < n_deps
            invariant
                self.wf(),
                n_deps == asset.dependencies@.len(),
                k <= n_deps,
                self.assets_map().contains_key(asset_path@),
                *asset == self.assets_map()[asset_path@],
                in_progress@ == ip0.push(*asset_path),
                ip0 == old(in_progress)@,
                chain_ok(*self, in_progress@),
                chain_ok(*self, chain@),
                closed_except(*self, chain@, in_progress@),
                chain@.len() >= chain_start.len(),
                chain_start == old(chain)@,
                forall|j: int|
                    0 <= j < chain_start.len() ==> (#[trigger] chain@[j]) == chain_start[j],
                forall|j: int|
                    chain_start.len() <= j < chain@.len() ==> !in_chain(
                        in_progress@,
                        (#[trigger] chain@[j])@,
                    ),
                !in_chain(chain_start, asset_path@),
                forall|k2: int|
                    0 <= k2 < k ==> match spec_resolve(*self, #[trigger] asset.dependencies@[k2]) {
                        Some(p) => self.assets_map().contains_key(p) ==> in_chain(chain@, p)
                            || in_chain(in_progress@, p),
                        Option::None => true,
                    },
                self.assets_map().dom().difference(ip_views(in_progress@)).len() < measure0,
                measure0 == self.assets_map().dom().difference(ip_views(old(in_progress)@)).len(),
            decreases n_deps - k,
        {
            let dep = &asset.dependencies[k];
            let ghost chain_before = chain@;
            let resolved = self.resolve_dependency_path(dep);
            match resolved {
                Some(dep_path) => {
                    self.build_flattened_dependency_chain_with_recursion(
                        &dep_path,
                        chain,
                        in_progress,
                    );
                    proof {
                        assert forall|j: int|
                            0 <= j < chain_start.len() implies (#[trigger] chain@[j])
                            == chain_start[j] by {
                            assert(chain@[j] == chain_before[j]);
                        }
                        assert forall|j: int|
                            chain_start.len() <= j < chain@.len() implies !in_chain(
                            in_progress@,
                            (#[trigger] chain@[j])@,
                        ) by {
                            if j < chain_before.len() {
                                assert(chain@[j] == chain_before[j]);
                            } else {
                                assert(!in_chain(ip0.push(*asset_path), chain@[j]@));
                            }
                        }
                        assert forall|k2: int|
                            0 <= k2 < k + 1 implies match spec_resolve(
                            *self,
                            #[trigger] asset.dependencies@[k2],
                        ) {
                            Some(p) => self.assets_map().contains_key(p) ==> in_chain(chain@, p)
                                || in_chain(in_progress@, p),
                            Option::None => true,
                        } by {
                            if k2 < k {
                                match spec_resolve(*self, asset.dependencies@[k2]) {
                                    Some(p) => {
                                        if self.assets_map().contains_key(p) && !in_chain(
                                            in_progress@,
                                            p,
                                        ) {
                                            assert(in_chain(chain_before, p));
                                            let j = choose|j: int|
                                                0 <= j < chain_before.len() && (
                                                #[trigger] chain_before[j]@) == p;
                                            assert(chain@[j]@ == p);
                                        }
                                    },
                                    Option::None => {},
                                }
                            } else {
                                assert(spec_resolve(*self, asset.dependencies@[k2]) == Some(
                                    dep_path@,
                                ));
                            }
                        }
                    }
                },
                Option::None => {},
            }
            k = k + 1;
        }
        proof {
            assert(forall|j: int| 0 <= j < chain@.len() ==> (#[trigger] chain@[j]@) != asset_path@)
                by {
                assert forall|j: int| 0 <= j < chain@.len() implies (#[trigger] chain@[j]@)
                    != asset_path@ by {
                    if j < chain_start.len() {
                        assert(chain@[j] == chain_start[j]);
                        if chain@[j]@ == asset_path@ {
                            assert(in_chain(chain_start, asset_path@));
                        }
                    } else {
                        assert(!in_chain(in_progress@, chain@[j]@));
                        if chain@[j]@ == asset_path@ {
                            lemma_in_chain_push(ip0, *asset_path, asset_path@);
                        }
                    }
                }
            };
        }
        let ghost chain_mid = chain@;
        chain.push(asset_path.clone());
        in_progress.pop();
        proof {
            assert(final(in_progress)@ =~= ip0);
            let c1 = chain@;
            assert(c1 == chain_mid.push(*asset_path));
            assert(c1.last()@ == asset_path@);
            assert(chain_ok(*self, c1)) by {
                assert(forall|j: int| 0 <= j < chain_mid.len() ==> (#[trigger] c1[j])
                    == chain_mid[j]);
                assert(c1[c1.len() - 1]@ == asset_path@);
                assert(forall|i: int, j: int|
                    0 <= i < j < c1.len() ==> (#[trigger] c1[i]@) != (#[trigger] c1[j]@)) by {
                    assert(forall|i: int|
                        0 <= i < chain_mid.len() ==> (#[trigger] c1[i]@) == chain_mid[i]@);
                };
            };
            lemma_closed_after_append(*self, chain_mid, c1, ip0, asset_path@);
            assert(in_chain(c1, asset_path@)) by {
                assert(c1[c1.len() - 1]@ == asset_path@);
            };
            assert forall|j: int|
                chain_start.len() <= j < c1.len() implies !in_chain(ip0, (#[trigger] c1[j])@) by {
                if j < chain_mid.len() {
                    assert(c1[j] == chain_mid[j]);
                    assert(!in_chain(ip0.push(*asset_path), chain_mid[j]@));
                    if in_chain(ip0, chain_mid[j]@) {
                        lemma_in_chain_push(ip0, *asset_path, chain_mid[j]@);
                    }
                } else {
                    assert(c1[j]@ == asset_path@);
                    assert(!in_chain(ip0, asset_path@));
                }
            }
        }
    }

    /// The dependency-before-dependent flattening of the graph rooted at
    /// `asset_path`: duplicate-free, every element a known asset, and
    /// dependency-closed, so it holds every reachable asset exactly once
    /// (`lemma_chain_reaches`). An unknown root yields an empty chain.
    pub fn get_flattened_dependency_chain(&self, asset_path: &String) -> (chain: Vec<String>)
        requires
            self.wf(),
        ensures
            chain_ok(*self, chain@),
            chain_closed(*self, chain@),
            self.assets_map().contains_key(asset_path@) ==> in_chain(chain@, asset_path@),
            !self.assets_map().contains_key(asset_path@) ==> chain@.len() == 0,
    {
        let mut chain: Vec<String> = Vec::new();
        let mut in_progress: Vec<String> = Vec::new();
        let ghost pre = chain@;
        self.build_flattened_dependency_chain_with_recursion(
            asset_path,
            &mut chain,
            &mut in_progress,
        );
        chain
    }
}

/// The paths a traversal stack holds.
pub open spec fn ip_views(ip: Seq<String>) -> Set<Seq<char>> {
    Set::new(|p: Seq<char>| in_chain(ip, p))
}

/// Pushing onto a list adds exactly its own path to the held set.
proof fn lemma_in_chain_push(ip: Seq<String>, s: String, x: Seq<char>)
    ensures
        in_chain(ip.push(s), x) <==> (in_chain(ip, x) || s@ == x),
{
    if in_chain(ip.push(s), x) {
        let j = choose|j: int| 0 <= j < ip.push(s).len() && (#[trigger] ip.push(s)[j]@) == x;
        if j < ip.len() {
            assert(ip[j]@ == x);
        } else {
            assert(ip.push(s)[j] == s);
        }
    }
    if in_chain(ip, x) {
        let j = choose|j: int| 0 <= j < ip.len() && (#[trigger] ip[j]@) == x;
        assert(ip.push(s)[j]@ == x);
    }
    if s@ == x {
        assert(ip.push(s)[ip.len() as int]@ == x);
    }
}

/// The directory's key set is finite.
proof fn lemma_map_of_dom_finite<V>(s: Seq<(String, V)>)
    ensures
        map_of(s).dom().finite(),
    decreases s.len(),
{
    if s.len() == 0 {
    } else {
        lemma_map_of_dom_finite(s.drop_last());
    }
}

/// A dependency already settled stays settled when the chain grows at the
/// end and the stack is unchanged.
proof fn lemma_closed_grow_ip(m: AssetManager, chain: Seq<String>, ip0: Seq<String>, ip1: Seq<String>)
    requires
        closed_except(m, chain, ip0),
        ip1.len() == ip0.len() + 1,
        forall|j: int| 0 <= j < ip0.len() ==> (#[trigger] ip1[j]) == ip0[j],
    ensures
        closed_except(m, chain, ip1),
{
    assert forall|i: int, k: int|
        0 <= i < chain.len() && 0 <= k < m.assets_map()[chain[i]@].dependencies@.len() implies match spec_resolve(
        m,
        #[trigger] m.assets_map()[#[trigger] chain[i]@].dependencies@[k],
    ) {
        Some(p) => m.assets_map().contains_key(p) ==> in_chain(chain, p) || in_chain(ip1, p),
        Option::None => true,
    } by {
        match spec_resolve(m, m.assets_map()[chain[i]@].dependencies@[k]) {
            Some(p) => {
                if m.assets_map().contains_key(p) && !in_chain(chain, p) {
                    assert(in_chain(ip0, p));
                    let j = choose|j: int| 0 <= j < ip0.len() && (#[trigger] ip0[j]@) == p;
                    assert(ip1[j]@ == p);
                }
            },
            Option::None => {},
        }
    }
}

/// Appending a settled element keeps the chain closed relative to the
/// caller's stack: every dependency pending on the element itself is now in
/// the chain.
proof fn lemma_closed_after_append(
    m: AssetManager,
    c0: Seq<String>,
    c1: Seq<String>,
    ip: Seq<String>,
    path: Seq<char>,
)
    requires
        c1.len() == c0.len() + 1,
        forall|j: int| 0 <= j < c0.len() ==> (#[trigger] c1[j]) == c0[j],
        c1.last()@ == path,
        m.assets_map().contains_key(path),
        closed_except(m, c0, ip.push(c1.last())),
        forall|k: int|
            m.assets_map().contains_key(path) && 0 <= k < m.assets_map()[path].dependencies@.len()
                ==> match spec_resolve(m, #[trigger] m.assets_map()[path].dependencies@[k]) {
                Some(p) => m.assets_map().contains_key(p) ==> in_chain(c0, p) || in_chain(
                    ip.push(c1.last()),
                    p,
                ),
                Option::None => true,
            },
    ensures
        closed_except(m, c1, ip),
{
    assert forall|i: int, k: int|
        0 <= i < c1.len() && 0 <= k < m.assets_map()[c1[i]@].dependencies@.len() implies match spec_resolve(
        m,
        #[trigger] m.assets_map()[#[trigger] c1[i]@].dependencies@[k],
    ) {
        Some(p) => m.assets_map().contains_key(p) ==> in_chain(c1, p) || in_chain(ip, p),
        Option::None => true,
    } by {
        match spec_resolve(m, m.assets_map()[c1[i]@].dependencies@[k]) {
            Some(p) => {
                if m.assets_map().contains_key(p) {
                    if i < c0.len() {
                        assert(c1[i] == c0[i]);
                        assert(c0[i]@ == c1[i]@);
                        assert(m.assets_map()[c0[i]@].dependencies@[k] == m.assets_map()[
                            c1[i]@
                        ].dependencies@[k]);
                        assert(in_chain(c0, p) || in_chain(ip.push(c1.last()), p));
                    } else {
                        assert(c1[i]@ == path);
                        assert(m.assets_map()[path].dependencies@[k] == m.assets_map()[
                            c1[i]@
                        ].dependencies@[k]);
                        assert(in_chain(c0, p) || in_chain(ip.push(c1.last()), p));
                    }
                    if in_chain(c0, p) {
                        let j = choose|j: int| 0 <= j < c0.len() && (#[trigger] c0[j]@) == p;
                        assert(c1[j]@ == p);
                        assert(in_chain(c1, p));
                    } else {
                        assert(in_chain(ip.push(c1.last()), p));
                        lemma_in_chain_push(ip, c1.last(), p);
                        if p == c1.last()@ {
                            assert(c1[c1.len() - 1]@ == p);
                            assert(in_chain(c1, p));
                        }
                    }
                }
            },
            Option::None => {},
        }
    }
}

} // verus!
