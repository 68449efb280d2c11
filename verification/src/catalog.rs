//! Assembling the library listing from the rows of the anime/series/episode
//! join: rows are grouped by anime, and each anime's rows by series.
use indexmap::IndexMap;
use vstd::prelude::*;

use crate::ordered_map::{
    group_by_key, has_key, in_order, insert_entry, keys_distinct, keys_in_order, lemma_group_by_key,
    lemma_group_by_key_keeps_pairs, lemma_group_keys_in_order, lemma_values_with_key_in_order,
    values_in_order_per_key, values_with_key,
};
use crate::stored::{
    stored_series_entries, stored_series_group_mut, stored_series_index_of, stored_series_insert,
    stored_series_map_new, Anime, Episode,
};

verus! {

/// One row of the join of an anime, one of its series and one episode of
/// that series.
#[derive(Debug, Clone, PartialEq, Eq)]
pub struct JoinedRow {
    pub id: u128,
    pub sn: u32,
    pub cover: String,
    pub name: String,
    pub create_at: i128,
    pub update_at: i128,
    pub series_name: String,
    pub episode_id: u128,
    pub episode_sn: u32,
    pub episode_cover: String,
    pub cover_id: Option<u128>,
    pub episode_episode: u32,
    pub episode_create_at: i128,
    pub episode_update_at: i128,
}

impl JoinedRow {
    /// A field-for-field copy.
    pub fn copy(&self) -> (r: JoinedRow)
        ensures
            r == *self,
    {
        JoinedRow {
            id: self.id,
            sn: self.sn,
            cover: self.cover.clone(),
            name: self.name.clone(),
            create_at: self.create_at,
            update_at: self.update_at,
            series_name: self.series_name.clone(),
            episode_id: self.episode_id,
            episode_sn: self.episode_sn,
            episode_cover: self.episode_cover.clone(),
            cover_id: self.cover_id,
            episode_episode: self.episode_episode,
            episode_create_at: self.episode_create_at,
            episode_update_at: self.episode_update_at,
        }
    }
}

/// The stored episode that a joined row carries.
pub open spec fn joined_episode(r: JoinedRow) -> Episode {
    Episode {
        id: r.episode_id,
        sn: r.episode_sn,
        cover: r.episode_cover,
        cover_id: r.cover_id,
        episode: r.episode_episode,
        create_at: r.episode_create_at,
        update_at: r.episode_update_at,
    }
}

/// A listed episode carries the episode fields of its row, each from the
/// column of the same meaning.
pub proof fn law_joined_episode_fields(r: JoinedRow)
    ensures
        joined_episode(r).id == r.episode_id,
        joined_episode(r).sn == r.episode_sn,
        joined_episode(r).cover == r.episode_cover,
        joined_episode(r).cover_id == r.cover_id,
        joined_episode(r).episode == r.episode_episode,
        joined_episode(r).create_at == r.episode_create_at,
        joined_episode(r).update_at == r.episode_update_at,
{
}

/// The rows grouped by anime id.
pub open spec fn anime_groups(rows: Seq<JoinedRow>) -> Seq<(u128, Seq<JoinedRow>)> {
    group_by_key(rows.map_values(|r: JoinedRow| (r.id, r)))
}

/// The series of one anime's rows: episodes grouped by series name.
pub open spec fn series_groups(rows: Seq<JoinedRow>) -> Seq<(Seq<char>, Seq<Episode>)> {
    group_by_key(rows.map_values(|r: JoinedRow| (r.series_name@, joined_episode(r))))
}

/// `a` is the anime listed for the group `g` of rows: its own fields are
/// those of the group's first row, its series are the group's series.
pub open spec fn anime_of_group(a: Anime, g: (u128, Seq<JoinedRow>)) -> bool {
    let first = g.1[0];
    &&& a.id == g.0
    &&& a.sn == first.sn
    &&& a.cover == first.cover
    &&& a.cover_id == first.cover_id
    &&& a.name == first.name
    &&& a.create_at == first.create_at
    &&& a.update_at == first.update_at
    &&& stored_series_entries(a.series) == series_groups(g.1)
}

/// The listing keeps every joined row exactly once: the rows of each listed
/// anime are, in order, exactly the rows with its id, and the anime of every
/// row is listed.
pub proof fn law_listing_keeps_every_row(rows: Seq<JoinedRow>)
    ensures
        forall|i: int|
            0 <= i < anime_groups(rows).len() ==> #[trigger] anime_groups(rows)[i].1 == values_with_key(
                rows.map_values(|r: JoinedRow| (r.id, r)),
                anime_groups(rows)[i].0,
            ),
        forall|j: int| 0 <= j < rows.len() ==> has_key(anime_groups(rows), #[trigger] rows[j].id),
{
    let pairs = rows.map_values(|r: JoinedRow| (r.id, r));
    lemma_group_by_key_keeps_pairs(pairs);
    assert forall|j: int| 0 <= j < rows.len() implies has_key(anime_groups(rows), #[trigger] rows[j].id) by {
        assert(pairs[j].0 == rows[j].id);
    }
}

/// Within an anime, the series keep every episode exactly once: each series
/// holds, in order, exactly the episodes of the rows with its name, and the
/// series of every row is listed.
pub proof fn law_series_keep_every_episode(rows: Seq<JoinedRow>)
    ensures
        forall|i: int|
            0 <= i < series_groups(rows).len() ==> #[trigger] series_groups(rows)[i].1 == values_with_key(
                rows.map_values(|r: JoinedRow| (r.series_name@, joined_episode(r))),
                series_groups(rows)[i].0,
            ),
        forall|j: int| 0 <= j < rows.len() ==> has_key(series_groups(rows), #[trigger] rows[j].series_name@),
{
    let pairs = rows.map_values(|r: JoinedRow| (r.series_name@, joined_episode(r)));
    lemma_group_by_key_keeps_pairs(pairs);
    assert forall|j: int| 0 <= j < rows.len() implies has_key(
        series_groups(rows),
        #[trigger] rows[j].series_name@,
    ) by {
        assert(pairs[j].0 == rows[j].series_name@);
    }
}

/// `a` comes before `b` in code point order (which is also the order of
/// their UTF-8 bytes).
pub open spec fn name_lt(a: Seq<char>, b: Seq<char>) -> bool
    decreases a.len(),
{
    if b.len() == 0 {
        false
    } else if a.len() == 0 {
        true
    } else if a[0] != b[0] {
        (a[0] as u32) < (b[0] as u32)
    } else {
        name_lt(a.drop_first(), b.drop_first())
    }
}

/// No name comes before itself.
pub proof fn lemma_name_lt_irreflexive(a: Seq<char>)
    ensures
        !name_lt(a, a),
    decreases a.len(),
{
    if a.len() > 0 {
        lemma_name_lt_irreflexive(a.drop_first());
    }
}

/// Row `a` may come before row `b` in the order of the listing query: by
/// anime id (hyphenated UUID text, which orders as the 128-bit id), then
/// series name, then episode number.
pub open spec fn row_before(a: JoinedRow, b: JoinedRow) -> bool {
    ||| a.id < b.id
    ||| a.id == b.id && name_lt(a.series_name@, b.series_name@)
    ||| a.id == b.id && a.series_name@ == b.series_name@ && a.episode_episode <= b.episode_episode
}

/// The rows are in the order of the listing query.
pub open spec fn rows_in_listing_order(rows: Seq<JoinedRow>) -> bool {
    forall|i: int, j: int| 0 <= i < j < rows.len() ==> row_before(#[trigger] rows[i], #[trigger] rows[j])
}

/// The anime ids ascend.
pub open spec fn ids_ascending(groups: Seq<(u128, Seq<JoinedRow>)>) -> bool {
    forall|i: int, j: int| 0 <= i < j < groups.len() ==> #[trigger] groups[i].0 < #[trigger] groups[j].0
}

/// The series names ascend, and no series is empty.
pub open spec fn series_ascending(series: Seq<(Seq<char>, Seq<Episode>)>) -> bool {
    &&& forall|i: int, j: int|
        0 <= i < j < series.len() ==> name_lt(#[trigger] series[i].0, #[trigger] series[j].0)
    &&& forall|i: int| 0 <= i < series.len() ==> #[trigger] series[i].1.len() > 0
}

/// The episode numbers do not descend.
pub open spec fn episodes_ascending(eps: Seq<Episode>) -> bool {
    forall|i: int, j: int| 0 <= i < j < eps.len() ==> #[trigger] eps[i].episode <= #[trigger] eps[j].episode
}

/// Rows in the order of the listing query give a listing in that order: the
/// anime by ascending id, each with at least one series, its series by
/// ascending name, each series' episodes by episode number.
pub proof fn law_sorted_rows_give_sorted_listing(rows: Seq<JoinedRow>)
    requires
        rows_in_listing_order(rows),
    ensures
        ids_ascending(anime_groups(rows)),
        forall|a: int|
            0 <= a < anime_groups(rows).len() ==> series_ascending(
                #[trigger] series_groups(anime_groups(rows)[a].1),
            ) && series_groups(anime_groups(rows)[a].1).len() > 0,
        forall|a: int, s: int|
            0 <= a < anime_groups(rows).len() && 0 <= s < series_groups(anime_groups(rows)[a].1).len()
                ==> episodes_ascending(#[trigger] series_groups(anime_groups(rows)[a].1)[s].1),
{
    let pairs = rows.map_values(|r: JoinedRow| (r.id, r));
    let groups = anime_groups(rows);
    let id_le = |x: u128, y: u128| x <= y;
    assert(keys_in_order(pairs, id_le)) by {
        assert forall|i: int, j: int| 0 <= i < j < pairs.len() implies id_le(
            #[trigger] pairs[i].0,
            #[trigger] pairs[j].0,
        ) by {
            assert(row_before(rows[i], rows[j]));
        }
    }
    lemma_group_keys_in_order(pairs, id_le);
    lemma_group_by_key(pairs);
    lemma_group_by_key_keeps_pairs(pairs);
    assert forall|i: int, j: int| 0 <= i < j < groups.len() implies #[trigger] groups[i].0
        < #[trigger] groups[j].0 by {
        assert(id_le(groups[i].0, groups[j].0));
    }
    let name_le = |x: Seq<char>, y: Seq<char>| name_lt(x, y) || x == y;
    let row_le = |x: JoinedRow, y: JoinedRow|
        name_le(x.series_name@, y.series_name@) && (x.series_name@ == y.series_name@
            ==> x.episode_episode <= y.episode_episode);
    let ep_le = |x: Episode, y: Episode| x.episode <= y.episode;
    assert(values_in_order_per_key(pairs, row_le)) by {
        assert forall|i: int, j: int|
            0 <= i < j < pairs.len() && pairs[i].0 == pairs[j].0 implies row_le(
            #[trigger] pairs[i].1,
            #[trigger] pairs[j].1,
        ) by {
            assert(row_before(rows[i], rows[j]));
            lemma_name_lt_irreflexive(rows[i].series_name@);
        }
    }
    assert forall|a: int| 0 <= a < groups.len() implies series_ascending(
        #[trigger] series_groups(groups[a].1),
    ) && series_groups(groups[a].1).len() > 0 && (forall|s: int|
        0 <= s < series_groups(groups[a].1).len() ==> episodes_ascending(
            #[trigger] series_groups(groups[a].1)[s].1,
        )) by {
        let g = groups[a].1;
        lemma_values_with_key_in_order(pairs, groups[a].0, row_le);
        assert(in_order(g, row_le));
        let sp = g.map_values(|r: JoinedRow| (r.series_name@, joined_episode(r)));
        let series = series_groups(g);
        assert(keys_in_order(sp, name_le)) by {
            assert forall|i: int, j: int| 0 <= i < j < sp.len() implies name_le(
                #[trigger] sp[i].0,
                #[trigger] sp[j].0,
            ) by {
                assert(row_le(g[i], g[j]));
            }
        }
        assert(values_in_order_per_key(sp, ep_le)) by {
            assert forall|i: int, j: int|
                0 <= i < j < sp.len() && sp[i].0 == sp[j].0 implies ep_le(
                #[trigger] sp[i].1,
                #[trigger] sp[j].1,
            ) by {
                assert(row_le(g[i], g[j]));
            }
        }
        lemma_group_keys_in_order(sp, name_le);
        lemma_group_by_key(sp);
        lemma_group_by_key_keeps_pairs(sp);
        assert forall|i: int, j: int| 0 <= i < j < series.len() implies name_lt(
            #[trigger] series[i].0,
            #[trigger] series[j].0,
        ) by {
            assert(name_le(series[i].0, series[j].0));
        }
        assert(g.len() > 0);
        assert(has_key(series, sp[0].0));
        assert forall|s: int| 0 <= s < series.len() implies episodes_ascending(
            #[trigger] series[s].1,
        ) by {
            lemma_values_with_key_in_order(sp, series[s].0, ep_le);
            assert(series[s].1 == values_with_key(sp, series[s].0));
        }
    }
}

/// The elements of `v` in reverse order.
fn reversed<V>(v: Vec<V>) -> (r: Vec<V>)
    ensures
        r@.len() == v@.len(),
        forall|k: int| 0 <= k < r@.len() ==> #[trigger] r@[k] == v@[v@.len() - 1 - k],
{
    let ghost all = v@;
    let mut src = v;
    let mut out: Vec<V> = Vec::new();
    while src.len() > 0
        invariant
            src@ == all.take(src@.len() as int),
            out@.len() + src@.len() == all.len(),
            forall|k: int| 0 <= k < out@.len() ==> #[trigger] out@[k] == all[all.len() - 1 - k],
        decreases src@.len(),
    {
        let x = src.pop().unwrap();
        out.push(x);
        assert(src@ =~= all.take(src@.len() as int));
    }
    out
}

/// The groups of a map from anime id to that anime's rows, in order.
pub uninterp spec fn row_groups(m: IndexMap<u128, Vec<JoinedRow>>) -> Seq<(u128, Seq<JoinedRow>)>;

/// An empty map (`IndexMap::new`).
#[verifier::external_body]
fn row_map_new() -> (m: IndexMap<u128, Vec<JoinedRow>>)
    ensures
        row_groups(m) == Seq::<(u128, Seq<JoinedRow>)>::empty(),
{
    IndexMap::new()
}

/// The position of the group of anime `id` (`IndexMap::get_index_of`).
#[verifier::external_body]
fn row_map_index_of(m: &IndexMap<u128, Vec<JoinedRow>>, id: u128) -> (r: Option<usize>)
    ensures
        r matches Some(i) ==> i < row_groups(*m).len() && row_groups(*m)[i as int].0 == id,
        r is None ==> !has_key(row_groups(*m), id),
{
    m.get_index_of(&id)
}

/// The rows of the group at position `i`, to be added to (`IndexMut` for
/// `IndexMap`, which panics only past the last position): the group keeps its
/// id and position and holds the rows as they are left.
#[verifier::external_body]
fn row_map_group_mut(m: &mut IndexMap<u128, Vec<JoinedRow>>, i: usize) -> (g: &mut Vec<JoinedRow>)
    requires
        i < row_groups(*old(m)).len(),
    ensures
        (*g)@ == row_groups(*old(m))[i as int].1,
        row_groups(*final(m)) == row_groups(*old(m)).update(
            i as int,
            (row_groups(*old(m))[i as int].0, (*final(g))@),
        ),
{
    &mut m[i]
}

/// Holds `rows` under `id` (`IndexMap::insert`).
#[verifier::external_body]
fn row_map_insert(m: &mut IndexMap<u128, Vec<JoinedRow>>, id: u128, rows: Vec<JoinedRow>)
    ensures
        row_groups(*final(m)) == insert_entry(row_groups(*old(m)), id, rows@),
{
    m.insert(id, rows);
}

/// The groups, in order (`IndexMap::into_iter`).
#[verifier::external_body]
fn row_map_into_groups(m: IndexMap<u128, Vec<JoinedRow>>) -> (r: Vec<(u128, Vec<JoinedRow>)>)
    ensures
        r@.map_values(|g: (u128, Vec<JoinedRow>)| (g.0, g.1@)) == row_groups(m),
{
    m.into_iter().collect()
}

/// The rows grouped by anime id, in the order the ids first occur
/// (`entry(id).or_default().push(row)` for every row in turn).
fn group_rows(rows: Vec<JoinedRow>) -> (r: Vec<(u128, Vec<JoinedRow>)>)
    ensures
        r@.map_values(|g: (u128, Vec<JoinedRow>)| (g.0, g.1@)) == anime_groups(rows@),
{
    let ghost orig = rows@;
    let ghost all = orig.map_values(|r: JoinedRow| (r.id, r));
    let mut map = row_map_new();
    let mut rest = reversed(rows);
    let ghost mut i: int = 0;
    assert(all.take(0) =~= Seq::<(u128, JoinedRow)>::empty());
    while rest.len() > 0
        invariant
            0 <= i <= orig.len(),
            all == orig.map_values(|r: JoinedRow| (r.id, r)),
            rest@.len() == orig.len() - i,
            forall|k: int| 0 <= k < rest@.len() ==> #[trigger] rest@[k] == orig[orig.len() - 1 - k],
            row_groups(map) == group_by_key(all.take(i)),
        decreases rest@.len(),
    {
        let ghost before = row_groups(map);
        let row = rest.pop().unwrap();
        let id = row.id;
        assert(row == orig[i]);
        assert(all[i] == (id, row));
        assert(all.take(i + 1).drop_last() =~= all.take(i));
        proof {
            lemma_group_by_key(all.take(i));
        }
        match row_map_index_of(&map, id) {
            Some(j) => {
                proof {
                    crate::ordered_map::lemma_key_index(before, id, j as int);
                }
                let g = row_map_group_mut(&mut map, j);
                g.push(row);
                assert(row_groups(map) =~= before.update(j as int, (id, before[j as int].1.push(row))));
            },
            None => {
                let mut g: Vec<JoinedRow> = Vec::new();
                g.push(row);
                row_map_insert(&mut map, id, g);
                assert(row_groups(map) =~= before.push((id, seq![row])));
            },
        }
        proof {
            i = i + 1;
        }
    }
    assert(all.take(orig.len() as int) =~= all);
    row_map_into_groups(map)
}

/// The stored episode that a joined row carries.
fn episode_of_row(r: &JoinedRow) -> (e: Episode)
    ensures
        e == joined_episode(*r),
        e.id == r.episode_id,
        e.sn == r.episode_sn,
        e.cover == r.episode_cover,
        e.cover_id == r.cover_id,
        e.episode == r.episode_episode,
        e.create_at == r.episode_create_at,
        e.update_at == r.episode_update_at,
{
    Episode {
        id: r.episode_id,
        sn: r.episode_sn,
        cover: r.episode_cover.clone(),
        cover_id: r.cover_id,
        episode: r.episode_episode,
        create_at: r.episode_create_at,
        update_at: r.episode_update_at,
    }
}

/// The anime listed for one group of rows.
fn anime_of_rows(id: u128, rows: &Vec<JoinedRow>) -> (a: Anime)
    requires
        rows@.len() > 0,
    ensures
        anime_of_group(a, (id, rows@)),
{
    let ghost all = rows@.map_values(|r: JoinedRow| (r.series_name@, joined_episode(r)));
    let mut series = stored_series_map_new();
    let mut k: usize = 0;
    assert(all.take(0) =~= Seq::<(Seq<char>, Episode)>::empty());
    while k < rows.len()
        invariant
            0 <= k <= rows@.len(),
            all == rows@.map_values(|r: JoinedRow| (r.series_name@, joined_episode(r))),
            stored_series_entries(series) == group_by_key(all.take(k as int)),
        decreases rows@.len() - k,
    {
        let ghost before = stored_series_entries(series);
        let row = &rows[k];
        let name = row.series_name.clone();
        let ep = episode_of_row(row);
        assert(all[k as int] == (name@, ep));
        assert(all.take(k + 1).drop_last() =~= all.take(k as int));
        proof {
            lemma_group_by_key(all.take(k as int));
        }
        match stored_series_index_of(&series, &name) {
            Some(j) => {
                proof {
                    crate::ordered_map::lemma_key_index(before, name@, j as int);
                }
                let g = stored_series_group_mut(&mut series, j);
                g.push(ep);
                assert(stored_series_entries(series) =~= before.update(
                    j as int,
                    (name@, before[j as int].1.push(ep)),
                ));
            },
            None => {
                let ghost nv = name@;
                let mut g: Vec<Episode> = Vec::new();
                g.push(ep);
                stored_series_insert(&mut series, name, g);
                assert(stored_series_entries(series) =~= before.push((nv, seq![ep])));
            },
        }
        k = k + 1;
    }
    assert(all.take(rows@.len() as int) =~= all);
    let first = &rows[0];
    Anime {
        id,
        sn: first.sn,
        cover: first.cover.clone(),
        cover_id: first.cover_id,
        name: first.name.clone(),
        series,
        create_at: first.create_at,
        update_at: first.update_at,
    }
}

/// The library listing of the joined rows: one anime per anime id in the
/// order the ids first occur, each built from its rows by `anime_of_group`.
pub fn list_animes(rows: Vec<JoinedRow>) -> (r: Vec<Anime>)
    ensures
        r@.len() == anime_groups(rows@).len(),
        forall|i: int| 0 <= i < r@.len() ==> anime_of_group(#[trigger] r@[i], anime_groups(rows@)[i]),
{
    let ghost orig = rows@;
    let groups = group_rows(rows);
    let ghost expected = anime_groups(orig);
    proof {
        lemma_group_by_key(orig.map_values(|r: JoinedRow| (r.id, r)));
    }
    let mut out: Vec<Anime> = Vec::new();
    let mut i: usize = 0;
    while i < groups.len()
        invariant
            expected == anime_groups(orig),
            groups@.map_values(|g: (u128, Vec<JoinedRow>)| (g.0, g.1@)) == expected,
            forall|k: int| 0 <= k < expected.len() ==> #[trigger] expected[k].1.len() > 0,
            0 <= i <= groups@.len(),
            out@.len() == i,
            forall|k: int| 0 <= k < i ==> anime_of_group(#[trigger] out@[k], expected[k]),
        decreases groups@.len() - i,
    {
        assert(expected[i as int] == (groups@[i as int].0, groups@[i as int].1@));
        assert(expected[i as int].1.len() > 0);
        let a = anime_of_rows(groups[i].0, &groups[i].1);
        out.push(a);
        i = i + 1;
    }
    out
}

} // verus!
