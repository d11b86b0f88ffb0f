use crate::error::Error;
use crate::result::Result;
use crate::types::VertexKey;
use std::collections::{BTreeMap, BTreeSet};
use vstd::prelude::*;

verus! {

/// The keys of `keys` without repetition, each at the place of its first
/// occurrence.
pub open spec fn unique<K>(keys: Seq<K>) -> Seq<K>
    decreases keys.len(),
{
    if keys.len() == 0 {
        Seq::empty()
    } else {
        let before = unique(keys.drop_last());
        if before.contains(keys.last()) {
            before
        } else {
            before.push(keys.last())
        }
    }
}

/// The first place of `key` in `list`, or the length of `list` where it
/// does not occur.
pub open spec fn first_place<K>(list: Seq<K>, key: K) -> int
    decreases list.len(),
{
    if list.len() == 0 || list[0] == key {
        0
    } else {
        1 + first_place(list.drop_first(), key)
    }
}

/// `first_place` is the one place that holds the key and has none before it.
pub proof fn lemma_first_place<K>(list: Seq<K>, key: K, place: int)
    requires
        0 <= place <= list.len(),
        forall|k: int| 0 <= k < place ==> list[k] != key,
        place < list.len() ==> list[place] == key,
    ensures
        first_place(list, key) == place,
    decreases list.len(),
{
    if list.len() != 0 && list[0] != key {
        let rest = list.drop_first();
        assert forall|k: int| 0 <= k < place - 1 implies rest[k] != key by {
            assert(rest[k] == list[k + 1]);
        }
        lemma_first_place(rest, key, place - 1);
    }
}

/// `first_place` stays within the list and finds the key where it occurs.
pub proof fn lemma_first_place_bounds<K>(list: Seq<K>, key: K)
    ensures
        0 <= first_place(list, key) <= list.len(),
        list.contains(key) <==> first_place(list, key) < list.len(),
        first_place(list, key) < list.len() ==> list[first_place(list, key)] == key,
        forall|k: int| 0 <= k < first_place(list, key) ==> list[k] != key,
    decreases list.len(),
{
    if list.len() != 0 && list[0] != key {
        let rest = list.drop_first();
        lemma_first_place_bounds(rest, key);
        assert forall|k: int| 0 <= k < first_place(list, key) implies list[k] != key by {
            if k > 0 {
                assert(rest[k - 1] == list[k]);
            }
        }
        if list.contains(key) {
            let at = choose|i: int| 0 <= i < list.len() && list[i] == key;
            assert(rest[at - 1] == key);
        }
        if first_place(rest, key) < rest.len() {
            assert(list[first_place(rest, key) + 1] == key);
        }
    } else if list.len() != 0 {
        assert(list[0] == key);
    }
}

/// The three components of a key in a row: the form in which an ordered
/// map holds it.
pub open spec fn triple_of(key: VertexKey) -> (usize, usize, usize) {
    (key[0], key[1], key[2])
}

/// The key with the components of `triple`.
pub open spec fn key_of(triple: (usize, usize, usize)) -> VertexKey {
    [triple.0, triple.1, triple.2]
}

/// Keys and triples stand for each other, one for one.
pub proof fn lemma_key_of_triple(key: VertexKey)
    ensures
        key_of(triple_of(key)) == key,
{
    assert(key_of(triple_of(key)) =~= key);
}

/// Whether triples of integers are ordered as an ordered map needs its keys
/// to be.
pub open spec fn triples_are_ordered() -> bool {
    vstd::laws_cmp::obeys_cmp::<(usize, usize, usize)>()
}

/// Triples of integers are ordered as an ordered map needs them to be.
pub proof fn lemma_triples_are_ordered()
    ensures
        triples_are_ordered(),
{
    broadcast use vstd::laws_cmp::group_laws_cmp;
}

/// The components of `key` in a row.
pub fn triple(key: &VertexKey) -> (r: (usize, usize, usize))
    ensures
        r == triple_of(*key),
{
    (key[0], key[1], key[2])
}

/// The places that `keys` take in `uniques`, key by key.
pub open spec fn places<K>(keys: Seq<K>, uniques: Seq<K>) -> Seq<int> {
    Seq::new(keys.len(), |i: int| first_place(uniques, keys[i]))
}

/// Whether every key of `keys` occurs in `uniques`.
pub open spec fn all_listed<K>(keys: Seq<K>, uniques: Seq<K>) -> bool {
    forall|i: int| 0 <= i < keys.len() ==> uniques.contains(#[trigger] keys[i])
}

/// Removes the repetitions from `vertex_keys`. A key stays where it first
/// occurs, so the order of first appearance is kept.
pub fn unique_vertex_keys(vertex_keys: &[VertexKey]) -> (uniques: Vec<VertexKey>)
    ensures
        uniques@ == unique(vertex_keys@),
{
    let mut uniques: Vec<VertexKey> = Vec::new();
    let mut seen: BTreeSet<(usize, usize, usize)> = BTreeSet::new();
    let mut done: usize = 0;
    proof {
        lemma_triples_are_ordered();
    }
    while done < vertex_keys.len()
        invariant
            done <= vertex_keys@.len(),
            uniques@ == unique(vertex_keys@.take(done as int)),
            triples_are_ordered(),
            forall|key: VertexKey| seen@.contains(triple_of(key)) <==> uniques@.contains(key),
        decreases vertex_keys@.len() - done,
    {
        let key = vertex_keys[done];
        let ghost before = uniques@;
        proof {
            let next = vertex_keys@.take(done + 1);
            assert(next.drop_last() =~= vertex_keys@.take(done as int));
            assert(next.last() == key);
        }
        if seen.insert(triple(&key)) {
            uniques.push(key);
            proof {
                assert forall|other: VertexKey|
                    seen@.contains(triple_of(other)) <==> uniques@.contains(other) by {
                    lemma_key_of_triple(other);
                    lemma_key_of_triple(key);
                    if other == key {
                        assert(uniques@[before.len() as int] == key);
                    } else if before.contains(other) {
                        let at = choose|j: int| 0 <= j < before.len() && before[j] == other;
                        assert(uniques@[at] == other);
                    } else if uniques@.contains(other) {
                        let at = choose|j: int| 0 <= j < uniques@.len() && uniques@[j] == other;
                        assert(before[at] == other);
                    }
                }
            }
        }
        done += 1;
    }
    proof {
        assert(vertex_keys@.take(done as int) == vertex_keys@);
    }
    uniques
}

/// For each key of `vertex_keys` its place in `unique_vertex_keys`, or
/// `InvalidFormat` where one of them is not listed there.
pub fn get_vertex_key_indices(vertex_keys: &[VertexKey], unique_vertex_keys: &[VertexKey]) -> (r:
    Result<Vec<usize>>)
    ensures
        all_listed(vertex_keys@, unique_vertex_keys@) ==> r is Ok && r->Ok_0@.map_values(
            |i: usize| i as int,
        ) == places(vertex_keys@, unique_vertex_keys@),
        !all_listed(vertex_keys@, unique_vertex_keys@) ==> r == Err::<Vec<usize>, Error>(
            Error::InvalidFormat,
        ),
{
    let first_places = first_places(unique_vertex_keys);
    let mut indices: Vec<usize> = Vec::new();
    let mut done: usize = 0;
    proof {
        lemma_triples_are_ordered();
    }
    while done < vertex_keys.len()
        invariant
            done <= vertex_keys@.len(),
            indices@.len() == done,
            triples_are_ordered(),
            holds_first_places(first_places@, unique_vertex_keys@),
            forall|i: int| 0 <= i < done ==> unique_vertex_keys@.contains(#[trigger] vertex_keys@[i]),
            forall|i: int|
                0 <= i < done ==> #[trigger] indices@[i] as int == first_place(
                    unique_vertex_keys@,
                    vertex_keys@[i],
                ),
        decreases vertex_keys@.len() - done,
    {
        let key = triple(&vertex_keys[done]);
        proof {
            lemma_key_of_triple(vertex_keys@[done as int]);
            lemma_first_place_bounds(unique_vertex_keys@, vertex_keys@[done as int]);
        }
        match first_places.get(&key) {
            Some(place) => {
                indices.push(*place);
            },
            None => {
                return Err(Error::InvalidFormat);
            },
        }
        done += 1;
    }
    proof {
        assert(indices@.map_values(|i: usize| i as int) =~= places(
            vertex_keys@,
            unique_vertex_keys@,
        ));
    }
    Ok(indices)
}

/// Whether `map` holds each key of `list`, and no other, with its first
/// place in `list`.
pub open spec fn holds_first_places(map: Map<(usize, usize, usize), usize>, list: Seq<VertexKey>) -> bool {
    forall|triple: (usize, usize, usize)|
        {
            &&& #[trigger] map.contains_key(triple) <==> list.contains(key_of(triple))
            &&& map.contains_key(triple) ==> map[triple] == first_place(list, key_of(triple))
        }
}

/// `first_place` in a list with one more entry: as before for a key that
/// the list held, the new place for the new key.
pub proof fn lemma_first_place_push<K>(list: Seq<K>, last: K, key: K)
    ensures
        list.contains(key) ==> first_place(list.push(last), key) == first_place(list, key),
        !list.contains(key) && last == key ==> first_place(list.push(last), key) == list.len(),
        list.push(last).contains(key) <==> list.contains(key) || last == key,
{
    let longer = list.push(last);
    lemma_first_place_bounds(list, key);
    let place = first_place(list, key);
    if list.contains(key) {
        assert forall|k: int| 0 <= k < place implies longer[k] != key by {
            assert(longer[k] == list[k]);
        }
        assert(longer[place] == list[place]);
        lemma_first_place(longer, key, place);
        assert(longer.contains(key));
    } else if last == key {
        assert forall|k: int| 0 <= k < list.len() implies longer[k] != key by {
            assert(longer[k] == list[k]);
        }
        assert(longer[list.len() as int] == key);
        lemma_first_place(longer, key, list.len() as int);
    } else if longer.contains(key) {
        let at = choose|j: int| 0 <= j < longer.len() && longer[j] == key;
        assert(list[at] == key);
    }
}

/// An ordered map from each key of `list` to its first place in `list`.
pub fn first_places(list: &[VertexKey]) -> (map: BTreeMap<(usize, usize, usize), usize>)
    ensures
        holds_first_places(map@, list@),
{
    let mut map: BTreeMap<(usize, usize, usize), usize> = BTreeMap::new();
    let mut done: usize = 0;
    proof {
        lemma_triples_are_ordered();
        assert(list@.take(0) =~= Seq::empty());
    }
    while done < list.len()
        invariant
            done <= list@.len(),
            triples_are_ordered(),
            holds_first_places(map@, list@.take(done as int)),
        decreases list@.len() - done,
    {
        let key = triple(&list[done]);
        let ghost before = map@;
        let ghost front = list@.take(done as int);
        proof {
            assert(list@.take(done + 1) =~= front.push(list@[done as int]));
            lemma_key_of_triple(list@[done as int]);
        }
        if !map.contains_key(&key) {
            map.insert(key, done);
        }
        proof {
            assert forall|other: (usize, usize, usize)|
                {
                    &&& #[trigger] map@.contains_key(other) <==> list@.take(done + 1).contains(
                        key_of(other),
                    )
                    &&& map@.contains_key(other) ==> map@[other] == first_place(
                        list@.take(done + 1),
                        key_of(other),
                    )
                } by {
                lemma_first_place_push(front, list@[done as int], key_of(other));
                assert(before.contains_key(other) <==> front.contains(key_of(other)));
                if key_of(other) == list@[done as int] {
                    assert(other == key);
                }
            }
        }
        done += 1;
    }
    proof {
        assert(list@.take(done as int) =~= list@);
    }
    map
}

/// Whether the one-based `index` points into a list of `len` entries.
pub open spec fn in_list(index: usize, len: nat) -> bool {
    1 <= index <= len
}

/// Whether each component of `key` points into its list.
pub open spec fn resolvable(key: VertexKey, positions: nat, texture_coordinates: nat, normals: nat) -> bool {
    &&& in_list(key[0], positions)
    &&& in_list(key[1], texture_coordinates)
    &&& in_list(key[2], normals)
}

/// Whether every key of `keys` is resolvable.
pub open spec fn all_resolvable(
    keys: Seq<VertexKey>,
    positions: nat,
    texture_coordinates: nat,
    normals: nat,
) -> bool {
    forall|i: int|
        0 <= i < keys.len() ==> resolvable(
            #[trigger] keys[i],
            positions,
            texture_coordinates,
            normals,
        )
}

/// The vertex that `key` stands for: the position, the texture coordinates
/// and the normal that it points to, in a row.
pub open spec fn vertex_of<S>(
    key: VertexKey,
    positions: Seq<[S; 3]>,
    texture_coordinates: Seq<[S; 2]>,
    normals: Seq<[S; 3]>,
) -> Seq<S> {
    positions[key[0] - 1]@ + texture_coordinates[key[1] - 1]@ + normals[key[2] - 1]@
}

/// The attribute that the one-based `index` points to, or `InvalidFormat`
/// where `index` is zero or beyond the end of the list.
pub fn get_attribute<S, const N: usize>(attributes: &[[S; N]], index: usize) -> (r: Result<&[S; N]>)
    ensures
        in_list(index, attributes@.len()) ==> r == Ok::<&[S; N], Error>(
            &attributes@[index - 1],
        ),
        !in_list(index, attributes@.len()) ==> r == Err::<&[S; N], Error>(Error::InvalidFormat),
{
    if index == 0 {
        Err(Error::InvalidFormat)
    } else {
        crate::slice::get(attributes, index - 1)
    }
}

/// Resolves each key against the three attribute lists. Where any component
/// of any key is zero or beyond the end of its list the result is
/// `InvalidFormat`, and no vertex is returned.
pub fn create_vertices<S: Copy>(
    vertex_keys: &[VertexKey],
    positions: &[[S; 3]],
    texture_coordinates: &[[S; 2]],
    normals: &[[S; 3]],
) -> (r: Result<Vec<[S; 8]>>)
    ensures
        all_resolvable(
            vertex_keys@,
            positions@.len(),
            texture_coordinates@.len(),
            normals@.len(),
        ) ==> r is Ok && r->Ok_0@.len() == vertex_keys@.len() && forall|i: int|
            0 <= i < vertex_keys@.len() ==> (#[trigger] r->Ok_0@[i])@ == vertex_of(
                vertex_keys@[i],
                positions@,
                texture_coordinates@,
                normals@,
            ),
        !all_resolvable(
            vertex_keys@,
            positions@.len(),
            texture_coordinates@.len(),
            normals@.len(),
        ) ==> r == Err::<Vec<[S; 8]>, Error>(Error::InvalidFormat),
{
    let mut vertices: Vec<[S; 8]> = Vec::new();
    let mut done: usize = 0;
    while done < vertex_keys.len()
        invariant
            done <= vertex_keys@.len(),
            vertices@.len() == done,
            forall|i: int|
                0 <= i < done ==> resolvable(
                    #[trigger] vertex_keys@[i],
                    positions@.len(),
                    texture_coordinates@.len(),
                    normals@.len(),
                ),
            forall|i: int|
                0 <= i < done ==> (#[trigger] vertices@[i])@ == vertex_of(
                    vertex_keys@[i],
                    positions@,
                    texture_coordinates@,
                    normals@,
                ),
        decreases vertex_keys@.len() - done,
    {
        let vertex_key = &vertex_keys[done];
        let position = match get_attribute(positions, vertex_key[0]) {
            Ok(position) => position,
            Err(error) => {
                return Err(error);
            },
        };
        let coordinates = match get_attribute(texture_coordinates, vertex_key[1]) {
            Ok(coordinates) => coordinates,
            Err(error) => {
                return Err(error);
            },
        };
        let normal = match get_attribute(normals, vertex_key[2]) {
            Ok(normal) => normal,
            Err(error) => {
                return Err(error);
            },
        };
        let vertex = [
            position[0],
            position[1],
            position[2],
            coordinates[0],
            coordinates[1],
            normal[0],
            normal[1],
            normal[2],
        ];
        proof {
            assert(vertex@ =~= position@ + coordinates@ + normal@);
        }
        vertices.push(vertex);
        done += 1;
    }
    Ok(vertices)
}

/// A key of the list stays listed when the repetitions are removed.
pub proof fn lemma_unique_lists<K>(keys: Seq<K>)
    ensures
        all_listed(keys, unique(keys)),
        forall|key: K| unique(keys).contains(key) ==> keys.contains(key),
    decreases keys.len(),
{
    if keys.len() > 0 {
        let front = keys.drop_last();
        let before = unique(front);
        lemma_unique_lists(front);
        assert forall|i: int| 0 <= i < keys.len() implies unique(keys).contains(
            #[trigger] keys[i],
        ) by {
            if i < keys.len() - 1 {
                assert(front[i] == keys[i]);
                let at = choose|j: int| 0 <= j < before.len() && before[j] == keys[i];
                assert(unique(keys)[at] == keys[i]);
            } else if before.contains(keys.last()) {
            } else {
                assert(unique(keys)[before.len() as int] == keys[i]);
            }
        }
        assert forall|key: K| unique(keys).contains(key) implies keys.contains(key) by {
            let at = choose|j: int| 0 <= j < unique(keys).len() && unique(keys)[j] == key;
            if at < before.len() {
                assert(before[at] == key);
                assert(front.contains(key));
                let back = choose|j: int| 0 <= j < front.len() && front[j] == key;
                assert(keys[back] == key);
            } else {
                assert(keys[keys.len() - 1] == key);
            }
        }
    }
}

/// Builds the two buffers of a mesh from the corners of its faces and the
/// three attribute lists: one vertex for each different key, in the order in
/// which the keys first appear, and for each corner the place of its vertex.
/// Where a key points outside a list the result is `InvalidFormat`.
pub fn assemble<S: Copy>(
    vertex_keys: &[VertexKey],
    positions: &[[S; 3]],
    texture_coordinates: &[[S; 2]],
    normals: &[[S; 3]],
) -> (r: Result<(Vec<[S; 8]>, Vec<usize>)>)
    ensures
        all_resolvable(
            unique(vertex_keys@),
            positions@.len(),
            texture_coordinates@.len(),
            normals@.len(),
        ) ==> r is Ok && r->Ok_0.0@.len() == unique(vertex_keys@).len() && (forall|i: int|
            0 <= i < unique(vertex_keys@).len() ==> (#[trigger] r->Ok_0.0@[i])@ == vertex_of(
                unique(vertex_keys@)[i],
                positions@,
                texture_coordinates@,
                normals@,
            )) && r->Ok_0.1@.map_values(|i: usize| i as int) == places(
            vertex_keys@,
            unique(vertex_keys@),
        ),
        !all_resolvable(
            unique(vertex_keys@),
            positions@.len(),
            texture_coordinates@.len(),
            normals@.len(),
        ) ==> r == Err::<(Vec<[S; 8]>, Vec<usize>), Error>(Error::InvalidFormat),
{
    let unique_vertex_keys = unique_vertex_keys(vertex_keys);
    proof {
        lemma_unique_lists(vertex_keys@);
    }
    let indices = get_vertex_key_indices(vertex_keys, unique_vertex_keys.as_slice())?;
    let vertices = create_vertices(
        unique_vertex_keys.as_slice(),
        positions,
        texture_coordinates,
        normals,
    )?;
    Ok((vertices, indices))
}

} // verus!
