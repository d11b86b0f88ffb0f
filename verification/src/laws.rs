use crate::error::Error;
use crate::number::is_number;
use crate::obj::{
    corner, keyword_of, lines_of, mesh, mesh_of, read_lines, record, Keyword, Lists,
};
use crate::parse::{all_numbers, face_keys};
use crate::text::words;
use crate::types::VertexKey;
use crate::vertices::{lemma_first_place_bounds, lemma_unique_lists, resolvable, unique};
use vstd::prelude::*;

verus! {

/// Whether `line` is a face statement: its first word is `f`.
pub open spec fn is_face(line: Seq<char>) -> bool {
    words(line).len() > 0 && keyword_of(words(line)[0]) == Keyword::Face
}

/// Whether `line` is read at all: it has a first word, and that is one of
/// the four keywords.
pub open spec fn is_statement(line: Seq<char>) -> bool {
    words(line).len() > 0 && keyword_of(words(line)[0]) != Keyword::Other
}

/// The number of face statements among `lines`.
pub open spec fn face_count(lines: Seq<Seq<char>>) -> nat
    decreases lines.len(),
{
    if lines.len() == 0 {
        0
    } else {
        face_count(lines.drop_last()) + if is_face(lines.last()) {
            1nat
        } else {
            0nat
        }
    }
}

/// Lines that are read without error hold three corners for each face
/// statement among them.
pub proof fn lemma_three_keys_per_face(lines: Seq<Seq<char>>)
    requires
        read_lines(lines) is Ok,
    ensures
        read_lines(lines)->Ok_0.vertex_keys.len() == 3 * face_count(lines),
    decreases lines.len(),
{
    if lines.len() > 0 {
        lemma_three_keys_per_face(lines.drop_last());
    }
}

/// The index buffer of a text that is read without error has three indices
/// for each face statement of the text.
pub proof fn lemma_three_indices_per_face(text: Seq<char>)
    requires
        mesh_of(text) is Ok,
    ensures
        mesh_of(text)->Ok_0.1.len() == 3 * face_count(lines_of(text)),
{
    lemma_three_keys_per_face(lines_of(text));
}

/// Every index of the index buffer points into the vertex buffer.
pub proof fn lemma_indices_in_bounds(lists: Lists, i: int)
    requires
        mesh(lists) is Ok,
        0 <= i < mesh(lists)->Ok_0.1.len(),
    ensures
        0 <= mesh(lists)->Ok_0.1[i] < mesh(lists)->Ok_0.0.len(),
{
    let keys = lists.vertex_keys;
    lemma_unique_lists(keys);
    lemma_first_place_bounds(unique(keys), keys[i]);
}

/// Every index of the index buffer of a text points into its vertex buffer.
pub proof fn lemma_text_indices_in_bounds(text: Seq<char>, i: int)
    requires
        mesh_of(text) is Ok,
        0 <= i < mesh_of(text)->Ok_0.1.len(),
    ensures
        0 <= mesh_of(text)->Ok_0.1[i] < mesh_of(text)->Ok_0.0.len(),
{
    lemma_indices_in_bounds(read_lines(lines_of(text))->Ok_0, i);
}

/// Two corners get the same index if and only if their keys are the same,
/// and the vertex at that index is the one that their key stands for.
pub proof fn lemma_same_key_same_index(lists: Lists, i: int, j: int)
    requires
        mesh(lists) is Ok,
        0 <= i < lists.vertex_keys.len(),
        0 <= j < lists.vertex_keys.len(),
    ensures
        mesh(lists)->Ok_0.1[i] == mesh(lists)->Ok_0.1[j] <==> lists.vertex_keys[i]
            == lists.vertex_keys[j],
        mesh(lists)->Ok_0.0[mesh(lists)->Ok_0.1[i]] == corner(lists.vertex_keys[i], lists),
{
    let keys = lists.vertex_keys;
    lemma_unique_lists(keys);
    lemma_first_place_bounds(unique(keys), keys[i]);
    lemma_first_place_bounds(unique(keys), keys[j]);
}

/// No key stands twice among the keys without repetition.
pub proof fn lemma_unique_has_no_repetition<K>(keys: Seq<K>)
    ensures
        unique(keys).no_duplicates(),
    decreases keys.len(),
{
    if keys.len() > 0 {
        lemma_unique_has_no_repetition(keys.drop_last());
    }
}

/// A key with a zero component makes the whole mesh fail with
/// `InvalidFormat`.
pub proof fn lemma_zero_component_fails(lists: Lists, i: int)
    requires
        0 <= i < lists.vertex_keys.len(),
        lists.vertex_keys[i][0] == 0 || lists.vertex_keys[i][1] == 0 || lists.vertex_keys[i][2]
            == 0,
    ensures
        mesh(lists) == Err::<(Seq<Seq<Seq<char>>>, Seq<int>), Error>(Error::InvalidFormat),
{
    lemma_unresolvable_key_fails(lists, i);
}

/// A key with a component beyond the end of its list makes the whole mesh
/// fail with `InvalidFormat`.
pub proof fn lemma_component_beyond_list_fails(lists: Lists, i: int)
    requires
        0 <= i < lists.vertex_keys.len(),
        lists.vertex_keys[i][0] > lists.positions.len() || lists.vertex_keys[i][1]
            > lists.texture_coordinates.len() || lists.vertex_keys[i][2] > lists.normals.len(),
    ensures
        mesh(lists) == Err::<(Seq<Seq<Seq<char>>>, Seq<int>), Error>(Error::InvalidFormat),
{
    lemma_unresolvable_key_fails(lists, i);
}

/// A key that cannot be resolved makes the whole mesh fail, wherever among
/// the corners it stands.
pub proof fn lemma_unresolvable_key_fails(lists: Lists, i: int)
    requires
        0 <= i < lists.vertex_keys.len(),
        !resolvable(
            lists.vertex_keys[i],
            lists.positions.len(),
            lists.texture_coordinates.len(),
            lists.normals.len(),
        ),
    ensures
        mesh(lists) == Err::<(Seq<Seq<Seq<char>>>, Seq<int>), Error>(Error::InvalidFormat),
{
    let keys = lists.vertex_keys;
    lemma_unique_lists(keys);
    let uniques = unique(keys);
    assert(uniques.contains(keys[i]));
    let at = choose|j: int| 0 <= j < uniques.len() && uniques[j] == keys[i];
    assert(!resolvable(
        uniques[at],
        lists.positions.len(),
        lists.texture_coordinates.len(),
        lists.normals.len(),
    ));
}

/// A face statement with more or fewer than three corners fails with
/// `InvalidFormat`.
pub proof fn lemma_face_needs_three_corners(tokens: Seq<Seq<char>>)
    requires
        tokens.len() != 3,
    ensures
        face_keys(tokens) == Err::<[VertexKey; 3], Error>(Error::InvalidFormat),
{
}

/// A line that is no statement changes nothing and never fails.
pub proof fn lemma_other_line_changes_nothing(lists: Lists, line: Seq<char>)
    requires
        !is_statement(line),
    ensures
        record(lists, line) == Ok::<Lists, Error>(lists),
{
}

/// What a text gives does not depend on its lines that are no statements:
/// with such a line taken out, the outcome is the same.
pub proof fn lemma_other_line_may_go(lines: Seq<Seq<char>>, i: int)
    requires
        0 <= i < lines.len(),
        !is_statement(lines[i]),
    ensures
        read_lines(lines.remove(i)) == read_lines(lines),
    decreases lines.len(),
{
    if i == lines.len() - 1 {
        assert(lines.remove(i) =~= lines.drop_last());
    } else {
        lemma_other_line_may_go(lines.drop_last(), i);
        assert(lines.remove(i).drop_last() =~= lines.drop_last().remove(i));
        assert(lines.remove(i).last() == lines.last());
    }
}

/// Whether every row has `arity` entries, each a number in decimal notation.
pub open spec fn rows_of_numbers(list: Seq<Seq<Seq<char>>>, arity: nat) -> bool {
    forall|i: int|
        0 <= i < list.len() ==> (#[trigger] list[i]).len() == arity && all_numbers(list[i])
}

/// Whether the three attribute lists hold numbers only: three for each
/// position and each normal, two for each pair of texture coordinates.
pub open spec fn holds_numbers(lists: Lists) -> bool {
    &&& rows_of_numbers(lists.positions, 3)
    &&& rows_of_numbers(lists.texture_coordinates, 2)
    &&& rows_of_numbers(lists.normals, 3)
}

/// The attributes of lines that are read without error are numbers.
pub proof fn lemma_lines_hold_numbers(lines: Seq<Seq<char>>)
    requires
        read_lines(lines) is Ok,
    ensures
        holds_numbers(read_lines(lines)->Ok_0),
    decreases lines.len(),
{
    if lines.len() > 0 {
        lemma_lines_hold_numbers(lines.drop_last());
    }
}

/// Every vertex of a mesh whose lists hold numbers is eight numbers.
pub proof fn lemma_vertices_hold_numbers(lists: Lists, i: int)
    requires
        holds_numbers(lists),
        mesh(lists) is Ok,
        0 <= i < mesh(lists)->Ok_0.0.len(),
    ensures
        mesh(lists)->Ok_0.0[i].len() == 8,
        all_numbers(mesh(lists)->Ok_0.0[i]),
{
    let key = unique(lists.vertex_keys)[i];
    let position = lists.positions[key[0] - 1];
    let coordinates = lists.texture_coordinates[key[1] - 1];
    let normal = lists.normals[key[2] - 1];
    let vertex = mesh(lists)->Ok_0.0[i];
    assert(vertex == position + coordinates + normal);
    assert forall|j: int| 0 <= j < vertex.len() implies is_number(#[trigger] vertex[j]) by {
        if j < 3 {
            assert(vertex[j] == position[j]);
        } else if j < 5 {
            assert(vertex[j] == coordinates[j - 3]);
        } else {
            assert(vertex[j] == normal[j - 5]);
        }
    }
}

/// Every vertex of the vertex buffer of a text is eight numbers in decimal
/// notation.
pub proof fn lemma_text_vertices_hold_numbers(text: Seq<char>, i: int)
    requires
        mesh_of(text) is Ok,
        0 <= i < mesh_of(text)->Ok_0.0.len(),
    ensures
        mesh_of(text)->Ok_0.0[i].len() == 8,
        all_numbers(mesh_of(text)->Ok_0.0[i]),
{
    lemma_lines_hold_numbers(lines_of(text));
    lemma_vertices_hold_numbers(read_lines(lines_of(text))->Ok_0, i);
}

} // verus!
