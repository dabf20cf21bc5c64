//! Per-region bookkeeping: an area owns its map and caches which players and
//! bots are connected to it. Thin by design; world simulation lives outside
//! this core.

use vstd::prelude::*;

verus! {

/// The map an area plays on; this core only reads and renames it.
pub struct AreaMap {
    name: String,
}

impl AreaMap {
    pub fn new(name: String) -> (r: AreaMap)
        ensures
            r.spec_name() == name@,
    {
        AreaMap { name }
    }

    pub closed spec fn spec_name(self) -> Seq<char> {
        self.name@
    }

    pub fn get_name(&self) -> (r: &String)
        ensures
            r@ == self.spec_name(),
    {
        &self.name
    }

    pub fn set_name(&mut self, name: String)
        ensures
            final(self).spec_name() == name@,
    {
        self.name = name;
    }
}

/// First index of `x` in `s` from `from` on, or -1.
pub open spec fn find_first(s: Seq<String>, x: Seq<char>, from: int) -> int
    decreases s.len() - from,
{
    if from < 0 || from >= s.len() {
        -1
    } else if s[from]@ == x {
        from
    } else {
        find_first(s, x, from + 1)
    }
}

pub struct Area {
    id: String,
    map: AreaMap,
    connected_players: Vec<String>,
    connected_bots: Vec<String>,
}

impl Area {
    pub closed spec fn spec_id(self) -> Seq<char> {
        self.id@
    }

    pub closed spec fn spec_map(self) -> AreaMap {
        self.map
    }

    pub closed spec fn spec_players(self) -> Seq<String> {
        self.connected_players@
    }

    pub closed spec fn spec_bots(self) -> Seq<String> {
        self.connected_bots@
    }

    /// A new area takes its identifier from its map's name and starts with
    /// no connected players or bots.
    pub fn new(map: AreaMap) -> (r: Area)
        ensures
            r.spec_id() == map.spec_name(),
            r.spec_players() == Seq::<String>::empty(),
            r.spec_bots() == Seq::<String>::empty(),
            r.spec_map() == map,
    {
        let id = map.get_name().clone();
        Area { id, map, connected_players: Vec::new(), connected_bots: Vec::new() }
    }

    pub fn get_id(&self) -> (r: &String)
        ensures
            r@ == self.spec_id(),
    {
        &self.id
    }

    pub fn get_map(&mut self) -> (r: &mut AreaMap)
        ensures
            *r == old(self).spec_map(),
            final(self).spec_map() == *final(r),
            final(self).spec_id() == old(self).spec_id(),
            final(self).spec_players() == old(self).spec_players(),
            final(self).spec_bots() == old(self).spec_bots(),
    {
        &mut self.map
    }

    pub fn get_connected_players(&self) -> (r: &Vec<String>)
        ensures
            r@ == self.spec_players(),
    {
        &self.connected_players
    }

    pub fn add_player(&mut self, player_id: String)
        ensures
            final(self).spec_players() == old(self).spec_players().push(player_id),
            final(self).spec_bots() == old(self).spec_bots(),
            final(self).spec_id() == old(self).spec_id(),
    {
        self.connected_players.push(player_id);
    }

    /// Drop the first occurrence of `player_id`, if connected.
    pub fn remove_player(&mut self, player_id: &String)
        ensures
            final(self).spec_bots() == old(self).spec_bots(),
            final(self).spec_id() == old(self).spec_id(),
            ({
                let s = old(self).spec_players();
                let i = find_first(s, player_id@, 0);
                if i >= 0 {
                    final(self).spec_players() == s.remove(i)
                } else {
                    final(self).spec_players() == s
                }
            }),
    {
        let ghost s = self.connected_players@;
        let mut i: usize = 0;
        while i < self.connected_players.len()
            invariant
                s == self.connected_players@,
                s == old(self).spec_players(),
                self.spec_bots() == old(self).spec_bots(),
                self.spec_id() == old(self).spec_id(),
                i <= s.len(),
                find_first(s, player_id@, 0) == find_first(s, player_id@, i as int),
            decreases s.len() - i,
        {
            if self.connected_players[i] == *player_id {
                proof {
                    assert(find_first(s, player_id@, i as int) == i as int);
                }
                self.connected_players.remove(i);
                return ;
            }
            i = i + 1;
        }
        proof {
            assert(find_first(s, player_id@, i as int) == -1);
        }
    }

    pub fn get_connected_bots(&self) -> (r: &Vec<String>)
        ensures
            r@ == self.spec_bots(),
    {
        &self.connected_bots
    }

    pub fn add_bot(&mut self, bot_id: String)
        ensures
            final(self).spec_bots() == old(self).spec_bots().push(bot_id),
            final(self).spec_players() == old(self).spec_players(),
            final(self).spec_id() == old(self).spec_id(),
    {
        self.connected_bots.push(bot_id);
    }

    /// Drop the first occurrence of `bot_id`, if connected.
    pub fn remove_bot(&mut self, bot_id: &String)
        ensures
            final(self).spec_players() == old(self).spec_players(),
            final(self).spec_id() == old(self).spec_id(),
            ({
                let s = old(self).spec_bots();
                let i = find_first(s, bot_id@, 0);
                if i >= 0 {
                    final(self).spec_bots() == s.remove(i)
                } else {
                    final(self).spec_bots() == s
                }
            }),
    {
        let ghost s = self.connected_bots@;
        let mut i: usize = 0;
        while i < self.connected_bots.len()
            invariant
                s == self.connected_bots@,
                s == old(self).spec_bots(),
                self.spec_players() == old(self).spec_players(),
                self.spec_id() == old(self).spec_id(),
                i <= s.len(),
                find_first(s, bot_id@, 0) == find_first(s, bot_id@, i as int),
            decreases s.len() - i,
        {
            if self.connected_bots[i] == *bot_id {
                proof {
                    assert(find_first(s, bot_id@, i as int) == i as int);
                }
                self.connected_bots.remove(i);
                return ;
            }
            i = i + 1;
        }
        proof {
            assert(find_first(s, bot_id@, i as int) == -1);
        }
    }
}

} // verus!
