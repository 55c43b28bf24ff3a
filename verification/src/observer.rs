//! What the observer decides when it starts its shard consumers: which
//! shards there are, and which recovered games go to which shard.

use vstd::prelude::*;

verus! {

/// The observer service.
pub struct FloObserver;

/// Why the observer could not start.
#[derive(Clone, Copy, Debug, PartialEq, Eq, Structural)]
pub enum Error {
    /// The stream did not list its shards.
    NoShards,
}

/// A shard of the event stream, as the stream lists it.
#[derive(Debug)]
pub struct Shard {
    pub shard_id: String,
}

/// A game whose state survived in the cache, and the shard it was read from.
#[derive(Debug)]
pub struct GameState {
    pub id: i32,
    pub shard_id: String,
}

/// The ids of the listed shards, in order.
pub open spec fn shard_ids_of(shards: Seq<Shard>) -> Seq<Seq<char>> {
    shards.map_values(|s: Shard| s.shard_id@)
}

/// Views of a run of ids, in the same order.
pub open spec fn ids_view(ids: Seq<String>) -> Seq<Seq<char>> {
    ids.map_values(|s: String| s@)
}

/// The games of `games` that belong to `shard`, if `mine` is set, or to any
/// other shard, if it is not; in the same order.
pub open spec fn games_by_shard(games: Seq<GameState>, shard: Seq<char>, mine: bool) -> Seq<GameState>
    decreases games.len(),
{
    if games.len() == 0 {
        games
    } else {
        let rest = games_by_shard(games.drop_last(), shard, mine);
        if (games.last().shard_id@ == shard) == mine {
            rest.push(games.last())
        } else {
            rest
        }
    }
}

impl FloObserver {
    /// The shards to consume, from what the stream answered when asked for
    /// its shards.
    pub fn shard_ids(shards: Option<Vec<Shard>>) -> (r: Result<Vec<String>, Error>)
        ensures
            match shards {
                Some(list) => r matches Ok(ids) && ids_view(ids@) == shard_ids_of(list@),
                None => r == Err::<Vec<String>, Error>(Error::NoShards),
            },
    {
        match shards {
            Some(list) => {
                let mut ids: Vec<String> = Vec::new();
                let ghost all = list@;
                assert(ids_view(ids@) =~= shard_ids_of(all.take(0)));
                for shard in iter: list
                    invariant
                        iter.seq() == all,
                        ids_view(ids@) == shard_ids_of(all.take(iter.index() as int)),
                {
                    let ghost before = ids@;
                    let ghost i = iter.index() as int;
                    ids.push(shard.shard_id);
                    proof {
                        assert(all.take(i + 1) =~= all.take(i).push(all[i]));
                        assert(ids_view(ids@) =~= ids_view(before).push(all[i].shard_id@));
                        assert(shard_ids_of(all.take(i + 1)) =~= shard_ids_of(all.take(i)).push(all[i].shard_id@));
                    }
                }
                assert(all.take(all.len() as int) =~= all);
                Ok(ids)
            },
            None => Err(Error::NoShards),
        }
    }

    /// Takes the games of one shard out of the recovered games: what comes
    /// back are the games of that shard, what stays are the others, both in
    /// the order they had.
    pub fn take_recovered_games(shard_id: &String, games: &mut Vec<GameState>) -> (mine: Vec<GameState>)
        ensures
            mine@ == games_by_shard(old(games)@, shard_id@, true),
            final(games)@ == games_by_shard(old(games)@, shard_id@, false),
    {
        let mut pool: Vec<GameState> = Vec::new();
        std::mem::swap(&mut pool, games);
        let ghost all = pool@;
        let mut mine: Vec<GameState> = Vec::new();
        assert(all.take(0) =~= Seq::<GameState>::empty());
        for game in iter: pool
            invariant
                iter.seq() == all,
                mine@ == games_by_shard(all.take(iter.index() as int), shard_id@, true),
                games@ == games_by_shard(all.take(iter.index() as int), shard_id@, false),
        {
            let ghost i = iter.index() as int;
            proof {
                assert(all.take(i + 1).drop_last() =~= all.take(i));
                assert(all.take(i + 1).last() == all[i]);
            }
            if game.shard_id == *shard_id {
                mine.push(game);
            } else {
                games.push(game);
            }
        }
        assert(all.take(all.len() as int) =~= all);
        mine
    }
}

} // verus!
