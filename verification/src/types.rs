use vstd::prelude::*;

verus! {

/// One word of a line: a run of characters without whitespace.
pub type Token<'a> = &'a [char];

/// The three coordinates of a `v` statement, as decimal literals.
pub type Position<'a> = [Token<'a>; 3];

/// The two coordinates of a `vt` statement, as decimal literals.
pub type TextureCoordinates<'a> = [Token<'a>; 2];

/// The three coordinates of a `vn` statement, as decimal literals.
pub type Normal<'a> = [Token<'a>; 3];

/// A corner of a face: the one-based places of its position, texture
/// coordinates and normal in their lists.
pub type VertexKey = [usize; 3];

/// A number in decimal notation, character by character.
pub type Number = Vec<char>;

/// A resolved corner: the three coordinates of its position, the two of its
/// texture coordinates and the three of its normal, in this order.
pub type Vertex = [Number; 8];

} // verus!
