use crate::error::Error;
use crate::laws::{lemma_text_indices_in_bounds, lemma_text_vertices_hold_numbers};
use crate::number::is_number;
use crate::parse::{attribute, face, face_keys, normal, position, texture_coordinates};
use crate::result::Result;
use crate::text::{lowercase, lowercased, split, split_at_mark, split_words, texts, words};
use crate::types::{Normal, Number, Position, TextureCoordinates, Token, Vertex, VertexKey};
use crate::vertices::{all_resolvable, assemble, places, unique, vertex_of};
use vstd::prelude::*;
use vstd::slice::slice_to_vec;

verus! {

/// What the statements of a text hold, list by list, each in the order of
/// the text.
pub struct Lists {
    /// The coordinates of each `v` statement.
    pub positions: Seq<Seq<Seq<char>>>,
    /// The coordinates of each `vt` statement.
    pub texture_coordinates: Seq<Seq<Seq<char>>>,
    /// The coordinates of each `vn` statement.
    pub normals: Seq<Seq<Seq<char>>>,
    /// The corners of each `f` statement, three for each.
    pub vertex_keys: Seq<VertexKey>,
}

/// The lists of a text without statements.
pub open spec fn no_lists() -> Lists {
    Lists {
        positions: Seq::empty(),
        texture_coordinates: Seq::empty(),
        normals: Seq::empty(),
        vertex_keys: Seq::empty(),
    }
}

/// The keyword of positions.
pub open spec fn keyword_v() -> Seq<char> {
    seq!['v']
}

/// The keyword of texture coordinates.
pub open spec fn keyword_vt() -> Seq<char> {
    seq!['v', 't']
}

/// The keyword of normals.
pub open spec fn keyword_vn() -> Seq<char> {
    seq!['v', 'n']
}

/// The keyword of faces.
pub open spec fn keyword_f() -> Seq<char> {
    seq!['f']
}

/// The lists after one more line. A line without words or with another
/// first word than the four keywords leaves them as they are. A line with a
/// keyword adds what its other words give, or fails as they do.
pub open spec fn record(lists: Lists, line: Seq<char>) -> Result<Lists> {
    let tokens = words(line);
    if tokens.len() == 0 {
        Ok(lists)
    } else {
        match keyword_of(tokens[0]) {
            Keyword::Position => match attribute(tokens.skip(1), 3) {
                Ok(row) => Ok(Lists { positions: lists.positions.push(row), ..lists }),
                Err(error) => Err(error),
            },
            Keyword::TextureCoordinates => match attribute(tokens.skip(1), 2) {
                Ok(row) => Ok(
                    Lists { texture_coordinates: lists.texture_coordinates.push(row), ..lists },
                ),
                Err(error) => Err(error),
            },
            Keyword::Normal => match attribute(tokens.skip(1), 3) {
                Ok(row) => Ok(Lists { normals: lists.normals.push(row), ..lists }),
                Err(error) => Err(error),
            },
            Keyword::Face => match face_keys(tokens.skip(1)) {
                Ok(keys) => Ok(Lists { vertex_keys: lists.vertex_keys + keys@, ..lists }),
                Err(error) => Err(error),
            },
            Keyword::Other => Ok(lists),
        }
    }
}

/// The lists after all of `lines`, or the error of the first line that fails.
pub open spec fn read_lines(lines: Seq<Seq<char>>) -> Result<Lists>
    decreases lines.len(),
{
    if lines.len() == 0 {
        Ok(no_lists())
    } else {
        match read_lines(lines.drop_last()) {
            Ok(lists) => record(lists, lines.last()),
            Err(error) => Err(error),
        }
    }
}

/// The lines of a text: what stands between its line feeds.
pub open spec fn lines_of(text: Seq<char>) -> Seq<Seq<char>> {
    split(text, '\n')
}

/// The texts of a list of attributes.
pub open spec fn rows<const N: usize>(list: Seq<[Token; N]>) -> Seq<Seq<Seq<char>>> {
    list.map_values(|row: [Token; N]| texts(row@))
}

/// The statements of a text, list by list.
pub struct Statements<'a> {
    /// The coordinates of each `v` statement.
    pub positions: Vec<Position<'a>>,
    /// The coordinates of each `vt` statement.
    pub texture_coordinates: Vec<TextureCoordinates<'a>>,
    /// The coordinates of each `vn` statement.
    pub normals: Vec<Normal<'a>>,
    /// The corners of each `f` statement, three for each.
    pub vertex_keys: Vec<VertexKey>,
}

impl<'a> View for Statements<'a> {
    type V = Lists;

    open spec fn view(&self) -> Lists {
        Lists {
            positions: rows(self.positions@),
            texture_coordinates: rows(self.texture_coordinates@),
            normals: rows(self.normals@),
            vertex_keys: self.vertex_keys@,
        }
    }
}

/// Which of the statements a line is.
#[derive(Clone, Copy, Debug, PartialEq, Eq, Structural)]
pub enum Keyword {
    /// `v`
    Position,
    /// `vt`
    TextureCoordinates,
    /// `vn`
    Normal,
    /// `f`
    Face,
    /// Any other first word.
    Other,
}

/// The statement that the first word of a line announces.
pub open spec fn keyword_of(word: Seq<char>) -> Keyword {
    if word == keyword_v() {
        Keyword::Position
    } else if word == keyword_vt() {
        Keyword::TextureCoordinates
    } else if word == keyword_vn() {
        Keyword::Normal
    } else if word == keyword_f() {
        Keyword::Face
    } else {
        Keyword::Other
    }
}

/// Tells the four keywords from all other words.
pub fn classify(word: Token) -> (keyword: Keyword)
    ensures
        keyword == keyword_of(word@),
{
    proof {
        assert(forall|s: Seq<char>| s.len() == 1 && s[0] == 'v' ==> s =~= keyword_v());
        assert(forall|s: Seq<char>| s.len() == 1 && s[0] == 'f' ==> s =~= keyword_f());
        assert(forall|s: Seq<char>|
            s.len() == 2 && s[0] == 'v' && s[1] == 't' ==> s =~= keyword_vt());
        assert(forall|s: Seq<char>|
            s.len() == 2 && s[0] == 'v' && s[1] == 'n' ==> s =~= keyword_vn());
    }
    if word.len() == 1 {
        if word[0] == 'v' {
            Keyword::Position
        } else if word[0] == 'f' {
            Keyword::Face
        } else {
            Keyword::Other
        }
    } else if word.len() == 2 && word[0] == 'v' {
        if word[1] == 't' {
            Keyword::TextureCoordinates
        } else if word[1] == 'n' {
            Keyword::Normal
        } else {
            Keyword::Other
        }
    } else {
        Keyword::Other
    }
}

impl<'a> Statements<'a> {
    /// No statements.
    pub fn new() -> (statements: Self)
        ensures
            statements@ == no_lists(),
    {
        let statements = Statements {
            positions: Vec::new(),
            texture_coordinates: Vec::new(),
            normals: Vec::new(),
            vertex_keys: Vec::new(),
        };
        proof {
            assert(statements@.positions =~= Seq::empty());
            assert(statements@.texture_coordinates =~= Seq::empty());
            assert(statements@.normals =~= Seq::empty());
        }
        statements
    }

    /// Takes in one more line. Where the line fails, the statements stay
    /// as they were.
    pub fn record(&mut self, line: &'a [char]) -> (r: Result<()>)
        ensures
            r is Ok ==> record(old(self)@, line@) == Ok::<Lists, Error>(final(self)@),
            r is Err ==> record(old(self)@, line@) == Err::<Lists, Error>(r->Err_0)
                && *final(self) == *old(self),
    {
        let tokens = split_words(line);
        if tokens.len() == 0 {
            return Ok(());
        }
        let key = tokens[0];
        let payload = vstd::slice::slice_subrange(tokens.as_slice(), 1, tokens.len());
        proof {
            assert(texts(tokens@)[0] == key@);
            assert(texts(payload@) =~= texts(tokens@).skip(1));
        }
        match classify(key) {
            Keyword::Position => {
                let row = position(payload)?;
                proof {
                    assert(rows(self.positions@.push(row)) =~= rows(self.positions@).push(
                        texts(row@),
                    ));
                }
                self.positions.push(row);
            },
            Keyword::TextureCoordinates => {
                let row = texture_coordinates(payload)?;
                proof {
                    assert(rows(self.texture_coordinates@.push(row)) =~= rows(
                        self.texture_coordinates@,
                    ).push(texts(row@)));
                }
                self.texture_coordinates.push(row);
            },
            Keyword::Normal => {
                let row = normal(payload)?;
                proof {
                    assert(rows(self.normals@.push(row)) =~= rows(self.normals@).push(
                        texts(row@),
                    ));
                }
                self.normals.push(row);
            },
            Keyword::Face => {
                let keys = face(payload)?;
                proof {
                    assert(self.vertex_keys@.push(keys[0]).push(keys[1]).push(keys[2])
                        =~= self.vertex_keys@ + keys@);
                }
                self.vertex_keys.push(keys[0]);
                self.vertex_keys.push(keys[1]);
                self.vertex_keys.push(keys[2]);
            },
            Keyword::Other => {},
        }
        Ok(())
    }
}

/// Reads the statements of `text` line by line and stops at the first line
/// that fails.
pub fn read<'a>(text: &'a [char]) -> (r: Result<Statements<'a>>)
    ensures
        r is Ok ==> read_lines(lines_of(text@)) == Ok::<Lists, Error>(r->Ok_0@),
        r is Err ==> read_lines(lines_of(text@)) == Err::<Lists, Error>(r->Err_0),
{
    let lines = split_at_mark(text, '\n');
    let mut statements = Statements::new();
    let mut done: usize = 0;
    proof {
        assert(texts(lines@).take(0) =~= Seq::empty());
    }
    while done < lines.len()
        invariant
            done <= lines@.len(),
            texts(lines@) == lines_of(text@),
            read_lines(texts(lines@).take(done as int)) == Ok::<Lists, Error>(statements@),
        decreases lines@.len() - done,
    {
        proof {
            let next = texts(lines@).take(done + 1);
            assert(next.drop_last() =~= texts(lines@).take(done as int));
            assert(next.last() == lines@[done as int]@);
            if read_lines(next) is Err {
                lemma_read_lines_fails(texts(lines@), done + 1);
            }
        }
        statements.record(lines[done])?;
        done += 1;
    }
    proof {
        assert(texts(lines@).take(done as int) =~= texts(lines@));
    }
    Ok(statements)
}

/// Once the first lines of a text fail, the whole text fails in the same way.
pub proof fn lemma_read_lines_fails(lines: Seq<Seq<char>>, n: int)
    requires
        0 <= n <= lines.len(),
        read_lines(lines.take(n)) is Err,
    ensures
        read_lines(lines) == read_lines(lines.take(n)),
    decreases lines.len(),
{
    if n < lines.len() {
        assert(lines.drop_last().take(n) =~= lines.take(n));
        lemma_read_lines_fails(lines.drop_last(), n);
    } else {
        assert(lines.take(n) =~= lines);
    }
}

/// The vertex that `key` stands for in `lists`: the coordinates of the
/// position, the texture coordinates and the normal that it points to.
pub open spec fn corner(key: VertexKey, lists: Lists) -> Seq<Seq<char>> {
    lists.positions[key[0] - 1] + lists.texture_coordinates[key[1] - 1] + lists.normals[key[2]
        - 1]
}

/// The two buffers that `lists` give: a vertex for each different key, in
/// the order in which the keys first appear, and for each corner of each
/// face the place of its vertex. `InvalidFormat` where a key points outside
/// a list.
pub open spec fn mesh(lists: Lists) -> Result<(Seq<Seq<Seq<char>>>, Seq<int>)> {
    let uniques = unique(lists.vertex_keys);
    if all_resolvable(
        uniques,
        lists.positions.len(),
        lists.texture_coordinates.len(),
        lists.normals.len(),
    ) {
        Ok(
            (
                Seq::new(uniques.len(), |i: int| corner(uniques[i], lists)),
                places(lists.vertex_keys, uniques),
            ),
        )
    } else {
        Err(Error::InvalidFormat)
    }
}

/// The two buffers of a text in lower case, or the first error in it.
pub open spec fn mesh_of(text: Seq<char>) -> Result<(Seq<Seq<Seq<char>>>, Seq<int>)> {
    match read_lines(lines_of(text)) {
        Ok(lists) => mesh(lists),
        Err(error) => Err(error),
    }
}

/// The indices of a buffer as numbers.
pub open spec fn numbers(indices: Seq<usize>) -> Seq<int> {
    indices.map_values(|i: usize| i as int)
}

/// The texts of a vertex buffer.
pub open spec fn vertex_texts(vertices: Seq<Vertex>) -> Seq<Seq<Seq<char>>> {
    vertices.map_values(|vertex: Vertex| vertex@.map_values(|number: Number| number@))
}

/// Builds the two buffers from the statements of a text.
pub fn resolve<'a>(statements: &Statements<'a>) -> (r: Result<(Vec<[Token<'a>; 8]>, Vec<usize>)>)
    ensures
        r is Ok ==> mesh(statements@) == Ok::<(Seq<Seq<Seq<char>>>, Seq<int>), Error>(
            (rows(r->Ok_0.0@), numbers(r->Ok_0.1@)),
        ),
        r is Err ==> mesh(statements@) == Err::<(Seq<Seq<Seq<char>>>, Seq<int>), Error>(
            r->Err_0,
        ),
{
    let (vertices, indices) = assemble(
        statements.vertex_keys.as_slice(),
        statements.positions.as_slice(),
        statements.texture_coordinates.as_slice(),
        statements.normals.as_slice(),
    )?;
    proof {
        let lists = statements@;
        let uniques = unique(lists.vertex_keys);
        assert forall|i: int| 0 <= i < uniques.len() implies rows(vertices@)[i] == corner(
            uniques[i],
            lists,
        ) by {
            let key = uniques[i];
            let position = statements.positions@[key[0] - 1];
            let coordinates = statements.texture_coordinates@[key[1] - 1];
            let normal = statements.normals@[key[2] - 1];
            assert(vertices@[i]@ == vertex_of(
                key,
                statements.positions@,
                statements.texture_coordinates@,
                statements.normals@,
            ));
            assert(texts(position@ + coordinates@ + normal@) =~= texts(position@) + texts(
                coordinates@,
            ) + texts(normal@));
        }
        assert(rows(vertices@) =~= Seq::new(uniques.len(), |i: int| corner(uniques[i], lists)));
    }
    Ok((vertices, indices))
}

/// Reads a text in lower case: its statements line by line, then the two
/// buffers that they give.
pub fn parse_lowered<'a>(text: &'a [char]) -> (r: Result<(Vec<[Token<'a>; 8]>, Vec<usize>)>)
    ensures
        r is Ok ==> mesh_of(text@) == Ok::<(Seq<Seq<Seq<char>>>, Seq<int>), Error>(
            (rows(r->Ok_0.0@), numbers(r->Ok_0.1@)),
        ),
        r is Err ==> mesh_of(text@) == Err::<(Seq<Seq<Seq<char>>>, Seq<int>), Error>(r->Err_0),
{
    let statements = read(text)?;
    resolve(&statements)
}

/// A copy of the eight numbers of a vertex.
pub fn copy_vertex(vertex: &[Token; 8]) -> (copy: Vertex)
    ensures
        copy@.map_values(|number: Number| number@) == texts(vertex@),
{
    let copy = [
        slice_to_vec(vertex[0]),
        slice_to_vec(vertex[1]),
        slice_to_vec(vertex[2]),
        slice_to_vec(vertex[3]),
        slice_to_vec(vertex[4]),
        slice_to_vec(vertex[5]),
        slice_to_vec(vertex[6]),
        slice_to_vec(vertex[7]),
    ];
    proof {
        assert(copy@.map_values(|number: Number| number@) =~= texts(vertex@));
    }
    copy
}

/// Reads a mesh from the text of an OBJ file. The text is put in lower case
/// first, so keywords may be written in either case. The result is the
/// vertex buffer, with one vertex of eight numbers for each different corner,
/// and the index buffer, with three places in the vertex buffer for each
/// face; or the first error in the text.
pub fn parse_obj(input: &str) -> (r: Result<(Vec<Vertex>, Vec<usize>)>)
    ensures
        r is Ok ==> mesh_of(lowercased(input@)) == Ok::<(Seq<Seq<Seq<char>>>, Seq<int>), Error>(
            (vertex_texts(r->Ok_0.0@), numbers(r->Ok_0.1@)),
        ),
        r is Err ==> mesh_of(lowercased(input@)) == Err::<(Seq<Seq<Seq<char>>>, Seq<int>), Error>(
            r->Err_0,
        ),
        r is Ok ==> forall|i: int|
            0 <= i < r->Ok_0.1@.len() ==> (#[trigger] r->Ok_0.1@[i]) < r->Ok_0.0@.len(),
        r is Ok ==> forall|i: int, j: int|
            0 <= i < r->Ok_0.0@.len() && 0 <= j < 8 ==> is_number(
                (#[trigger] r->Ok_0.0@[i]@[j])@,
            ),
{
    let text = lowercase(input);
    let (borrowed, indices) = parse_lowered(text.as_slice())?;
    let mut vertices: Vec<Vertex> = Vec::new();
    let mut done: usize = 0;
    while done < borrowed.len()
        invariant
            done <= borrowed@.len(),
            vertex_texts(vertices@) == rows(borrowed@).take(done as int),
        decreases borrowed@.len() - done,
    {
        let vertex = copy_vertex(&borrowed[done]);
        proof {
            assert(rows(borrowed@)[done as int] == texts(borrowed@[done as int]@));
            assert(vertex_texts(vertices@.push(vertex)) =~= vertex_texts(vertices@).push(
                texts(borrowed@[done as int]@),
            ));
            assert(rows(borrowed@).take(done + 1) =~= rows(borrowed@).take(done as int).push(
                rows(borrowed@)[done as int],
            ));
        }
        vertices.push(vertex);
        done += 1;
    }
    proof {
        assert(rows(borrowed@).take(done as int) =~= rows(borrowed@));
        assert forall|i: int| 0 <= i < indices@.len() implies (#[trigger] indices@[i])
            < vertices@.len() by {
            lemma_text_indices_in_bounds(text@, i);
            assert(numbers(indices@)[i] == indices@[i]);
        }
        assert forall|i: int, j: int|
            0 <= i < vertices@.len() && 0 <= j < 8 implies is_number(
            (#[trigger] vertices@[i]@[j])@,
        ) by {
            lemma_text_vertices_hold_numbers(text@, i);
            assert(vertex_texts(vertices@)[i][j] == vertices@[i]@[j]@);
        }
    }
    Ok((vertices, indices))
}

} // verus!
