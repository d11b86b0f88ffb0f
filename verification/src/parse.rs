use crate::error::Error;
use crate::number::{decimal, index_digits, is_decimal, is_index, is_number, parse_index};
use crate::result::Result;
use crate::text::{split, split_at_mark, texts};
use crate::types::{Normal, Position, TextureCoordinates, Token, VertexKey};
use vstd::prelude::*;

verus! {

/// Whether every token is a number in decimal notation.
pub open spec fn all_numbers(tokens: Seq<Seq<char>>) -> bool {
    forall|i: int| 0 <= i < tokens.len() ==> is_number(#[trigger] tokens[i])
}

/// What the payload of an attribute statement with `arity` coordinates
/// gives: the tokens themselves where they are `arity` numbers,
/// `InvalidFormat` where their count is another, `FloatParse` where the
/// count is right and one of them is no number.
pub open spec fn attribute(tokens: Seq<Seq<char>>, arity: nat) -> Result<Seq<Seq<char>>> {
    if tokens.len() != arity {
        Err(Error::InvalidFormat)
    } else if !all_numbers(tokens) {
        Err(Error::FloatParse)
    } else {
        Ok(tokens)
    }
}

/// The texts of a parsed attribute, or the error in its place.
pub open spec fn attribute_texts<const N: usize>(r: Result<[Token; N]>) -> Result<Seq<Seq<char>>> {
    match r {
        Ok(tokens) => Ok(texts(tokens@)),
        Err(error) => Err(error),
    }
}

/// The index that `s` spells.
pub open spec fn index_of(s: Seq<char>) -> usize {
    decimal(index_digits(s)) as usize
}

/// What a corner of a face gives: its three indices where the token is
/// three indices with a slash between them, `InvalidFormat` where the
/// slashes cut it into more or fewer than three parts, `IntParse` where
/// there are three parts and one of them spells no index.
pub open spec fn vertex_key(token: Seq<char>) -> Result<VertexKey> {
    let parts = split(token, '/');
    if parts.len() != 3 {
        Err(Error::InvalidFormat)
    } else if !(is_index(parts[0]) && is_index(parts[1]) && is_index(parts[2])) {
        Err(Error::IntParse)
    } else {
        Ok([index_of(parts[0]), index_of(parts[1]), index_of(parts[2])])
    }
}

/// What the payload of a face statement gives: the keys of its three
/// corners, `InvalidFormat` where it has more or fewer than three tokens,
/// and else the error of the first corner that is no key.
pub open spec fn face_keys(tokens: Seq<Seq<char>>) -> Result<[VertexKey; 3]> {
    if tokens.len() != 3 {
        Err(Error::InvalidFormat)
    } else {
        match vertex_key(tokens[0]) {
            Err(error) => Err(error),
            Ok(first) => match vertex_key(tokens[1]) {
                Err(error) => Err(error),
                Ok(second) => match vertex_key(tokens[2]) {
                    Err(error) => Err(error),
                    Ok(third) => Ok([first, second, third]),
                },
            },
        }
    }
}

/// Reads the payload of a `v` statement: three numbers.
pub fn position<'a>(tokens: &[Token<'a>]) -> (r: Result<Position<'a>>)
    ensures
        attribute_texts(r) == attribute(texts(tokens@), 3),
{
    if tokens.len() != 3 {
        return Err(Error::InvalidFormat);
    }
    proof {
        assert(texts(tokens@)[0] == tokens[0]@);
        assert(texts(tokens@)[1] == tokens[1]@);
        assert(texts(tokens@)[2] == tokens[2]@);
    }
    let x = number(tokens[0])?;
    let y = number(tokens[1])?;
    let z = number(tokens[2])?;
    let coordinates = [x, y, z];
    proof {
        assert(texts(coordinates@) =~= texts(tokens@));
    }
    Ok(coordinates)
}

/// Reads the payload of a `vt` statement: two numbers.
pub fn texture_coordinates<'a>(tokens: &[Token<'a>]) -> (r: Result<TextureCoordinates<'a>>)
    ensures
        attribute_texts(r) == attribute(texts(tokens@), 2),
{
    if tokens.len() != 2 {
        return Err(Error::InvalidFormat);
    }
    proof {
        assert(texts(tokens@)[0] == tokens[0]@);
        assert(texts(tokens@)[1] == tokens[1]@);
    }
    let u = number(tokens[0])?;
    let v = number(tokens[1])?;
    let coordinates = [u, v];
    proof {
        assert(texts(coordinates@) =~= texts(tokens@));
    }
    Ok(coordinates)
}

/// Reads the payload of a `vn` statement: three numbers.
pub fn normal<'a>(tokens: &[Token<'a>]) -> (r: Result<Normal<'a>>)
    ensures
        attribute_texts(r) == attribute(texts(tokens@), 3),
{
    if tokens.len() != 3 {
        return Err(Error::InvalidFormat);
    }
    proof {
        assert(texts(tokens@)[0] == tokens[0]@);
        assert(texts(tokens@)[1] == tokens[1]@);
        assert(texts(tokens@)[2] == tokens[2]@);
    }
    let x = number(tokens[0])?;
    let y = number(tokens[1])?;
    let z = number(tokens[2])?;
    let coordinates = [x, y, z];
    proof {
        assert(texts(coordinates@) =~= texts(tokens@));
    }
    Ok(coordinates)
}

/// The token itself where it is a number, or `FloatParse`.
pub fn number<'a>(token: Token<'a>) -> (r: Result<Token<'a>>)
    ensures
        is_number(token@) ==> r == Ok::<Token<'a>, Error>(token),
        !is_number(token@) ==> r == Err::<Token<'a>, Error>(Error::FloatParse),
{
    if is_decimal(token) {
        Ok(token)
    } else {
        Err(Error::FloatParse)
    }
}

/// Reads the payload of an `f` statement: the keys of three corners.
pub fn face(tokens: &[Token]) -> (r: Result<[VertexKey; 3]>)
    ensures
        r == face_keys(texts(tokens@)),
{
    if tokens.len() != 3 {
        return Err(Error::InvalidFormat);
    }
    let indices1 = parse_vertex_key(tokens[0])?;
    let indices2 = parse_vertex_key(tokens[1])?;
    let indices3 = parse_vertex_key(tokens[2])?;
    let keys = [indices1, indices2, indices3];
    proof {
        assert(keys =~= face_keys(texts(tokens@))->Ok_0);
    }
    Ok(keys)
}

/// Reads one corner of a face: three indices with a slash between them.
pub fn parse_vertex_key(token: Token) -> (r: Result<VertexKey>)
    ensures
        r == vertex_key(token@),
{
    let tokens = split_at_mark(token, '/');
    if tokens.len() != 3 {
        return Err(Error::InvalidFormat);
    }
    proof {
        assert(texts(tokens@)[0] == tokens[0]@);
        assert(texts(tokens@)[1] == tokens[1]@);
        assert(texts(tokens@)[2] == tokens[2]@);
    }
    let position_index = parse_index(tokens[0])?;
    let texture_coordinates_index = parse_index(tokens[1])?;
    let normal_index = parse_index(tokens[2])?;
    let key = [position_index, texture_coordinates_index, normal_index];
    proof {
        assert(key =~= vertex_key(token@)->Ok_0);
    }
    Ok(key)
}

} // verus!
