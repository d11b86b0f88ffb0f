use bop::error::Error;
use bop::parse::{face, normal, number, parse_vertex_key, position, texture_coordinates};
use bop::text::chars_of;

fn tokens_of(words: &[&str]) -> Vec<Vec<char>> {
    words.iter().map(|word| chars_of(word)).collect()
}

fn borrowed(tokens: &[Vec<char>]) -> Vec<&[char]> {
    tokens.iter().map(|token| token.as_slice()).collect()
}

fn float_of(token: &[char]) -> f32 {
    token.iter().collect::<String>().parse().unwrap()
}

#[test]
fn parse_valid_position() {
    let tokens = tokens_of(&["-2.4", "1.5", "0.6"]);
    let position = position(&borrowed(&tokens)).expect("failed to parse valid position");

    assert_eq!(float_of(position[0]), -2.4);
    assert_eq!(float_of(position[1]), 1.5);
    assert_eq!(float_of(position[2]), 0.6);
}

#[test]
#[should_panic]
fn parse_invalid_position() {
    let tokens = tokens_of(&["xyz", "-4.0", "0.5"]);
    position(&borrowed(&tokens)).unwrap();
}

#[test]
#[should_panic]
fn parse_too_few_position_tokens() {
    let tokens = tokens_of(&["8.5", "-1.2"]);
    position(&borrowed(&tokens)).unwrap();
}

#[test]
#[should_panic]
fn parse_too_many_position_tokens() {
    let tokens = tokens_of(&["0.05", "-78.0", "3", "5"]);
    position(&borrowed(&tokens)).unwrap();
}

#[test]
fn position_hands_back_its_tokens() {
    let tokens = tokens_of(&["-2.4", "1.5", "0.6"]);
    let position = position(&borrowed(&tokens)).unwrap();
    assert_eq!(position[0], chars_of("-2.4").as_slice());
    assert_eq!(position[1], chars_of("1.5").as_slice());
    assert_eq!(position[2], chars_of("0.6").as_slice());
}

#[test]
fn position_errors() {
    let tokens = tokens_of(&["xyz", "-4.0", "0.5"]);
    assert_eq!(position(&borrowed(&tokens)), Err(Error::FloatParse));
    let tokens = tokens_of(&["-4.0", "0.5", "1e"]);
    assert_eq!(position(&borrowed(&tokens)), Err(Error::FloatParse));
    let tokens = tokens_of(&["8.5", "-1.2"]);
    assert_eq!(position(&borrowed(&tokens)), Err(Error::InvalidFormat));
    let tokens = tokens_of(&["0.05", "-78.0", "3", "5"]);
    assert_eq!(position(&borrowed(&tokens)), Err(Error::InvalidFormat));
    assert_eq!(position(&[]), Err(Error::InvalidFormat));
}

#[test]
fn count_is_checked_before_the_numbers() {
    let tokens = tokens_of(&["x", "y"]);
    assert_eq!(position(&borrowed(&tokens)), Err(Error::InvalidFormat));
    assert_eq!(normal(&borrowed(&tokens)), Err(Error::InvalidFormat));
    let tokens = tokens_of(&["x", "y", "z"]);
    assert_eq!(
        texture_coordinates(&borrowed(&tokens)),
        Err(Error::InvalidFormat)
    );
}

#[test]
fn texture_coordinates_take_two_numbers() {
    let tokens = tokens_of(&["0.25", "1"]);
    let coordinates = texture_coordinates(&borrowed(&tokens)).unwrap();
    assert_eq!(float_of(coordinates[0]), 0.25);
    assert_eq!(float_of(coordinates[1]), 1.0);

    let tokens = tokens_of(&["0.25"]);
    assert_eq!(
        texture_coordinates(&borrowed(&tokens)),
        Err(Error::InvalidFormat)
    );
    let tokens = tokens_of(&["0.25", "1", "2"]);
    assert_eq!(
        texture_coordinates(&borrowed(&tokens)),
        Err(Error::InvalidFormat)
    );
    let tokens = tokens_of(&["0.25", "one"]);
    assert_eq!(
        texture_coordinates(&borrowed(&tokens)),
        Err(Error::FloatParse)
    );
}

#[test]
fn normal_takes_three_numbers() {
    let tokens = tokens_of(&["0", "1", "-0.0"]);
    let normal_tokens = normal(&borrowed(&tokens)).unwrap();
    assert_eq!(float_of(normal_tokens[0]), 0.0);
    assert_eq!(float_of(normal_tokens[1]), 1.0);
    assert_eq!(float_of(normal_tokens[2]), 0.0);

    let tokens = tokens_of(&["0", "1"]);
    assert_eq!(normal(&borrowed(&tokens)), Err(Error::InvalidFormat));
    let tokens = tokens_of(&["0", "1", "2", "3"]);
    assert_eq!(normal(&borrowed(&tokens)), Err(Error::InvalidFormat));
    let tokens = tokens_of(&["0", "", "2"]);
    assert_eq!(normal(&borrowed(&tokens)), Err(Error::FloatParse));
}

#[test]
fn number_keeps_what_it_accepts() {
    let token = chars_of("12.5e-3");
    assert_eq!(number(&token), Ok(token.as_slice()));
    let token = chars_of("12.5f");
    assert_eq!(number(&token), Err(Error::FloatParse));
}

#[test]
fn face_of_three_corners() {
    let tokens = tokens_of(&["1/1/1", "2/2/1", "3/3/1"]);
    assert_eq!(
        face(&borrowed(&tokens)),
        Ok([[1, 1, 1], [2, 2, 1], [3, 3, 1]])
    );
}

#[test]
fn face_keeps_the_order_of_corners_and_components() {
    let tokens = tokens_of(&["7/8/9", "1/2/3", "4/5/6"]);
    assert_eq!(
        face(&borrowed(&tokens)),
        Ok([[7, 8, 9], [1, 2, 3], [4, 5, 6]])
    );
}

#[test]
fn face_with_four_tokens_is_refused() {
    let tokens = tokens_of(&["1/1/1", "2/2/1", "3/3/1", "4/4/1"]);
    assert_eq!(face(&borrowed(&tokens)), Err(Error::InvalidFormat));
}

#[test]
fn face_with_two_tokens_is_refused() {
    let tokens = tokens_of(&["1/1/1", "2/2/1"]);
    assert_eq!(face(&borrowed(&tokens)), Err(Error::InvalidFormat));
}

#[test]
fn face_without_tokens_is_refused() {
    assert_eq!(face(&[]), Err(Error::InvalidFormat));
}

#[test]
fn face_count_is_checked_before_the_corners() {
    let tokens = tokens_of(&["x", "y"]);
    assert_eq!(face(&borrowed(&tokens)), Err(Error::InvalidFormat));
}

#[test]
fn face_fails_as_its_first_bad_corner() {
    let tokens = tokens_of(&["1/1/1", "2/x/1", "3/3"]);
    assert_eq!(face(&borrowed(&tokens)), Err(Error::IntParse));
    let tokens = tokens_of(&["1/1/1", "3/3", "2/x/1"]);
    assert_eq!(face(&borrowed(&tokens)), Err(Error::InvalidFormat));
}

#[test]
fn face_does_not_look_at_the_lists() {
    let tokens = tokens_of(&["0/0/0", "999/999/999", "1/1/1"]);
    assert_eq!(
        face(&borrowed(&tokens)),
        Ok([[0, 0, 0], [999, 999, 999], [1, 1, 1]])
    );
}

#[test]
fn vertex_key_of_three_indices() {
    assert_eq!(parse_vertex_key(&chars_of("1/2/3")), Ok([1, 2, 3]));
    assert_eq!(parse_vertex_key(&chars_of("10/20/30")), Ok([10, 20, 30]));
    assert_eq!(parse_vertex_key(&chars_of("+1/002/3")), Ok([1, 2, 3]));
    assert_eq!(parse_vertex_key(&chars_of("0/1/1")), Ok([0, 1, 1]));
}

#[test]
fn vertex_key_with_another_number_of_parts_is_refused() {
    assert_eq!(
        parse_vertex_key(&chars_of("1/2")),
        Err(Error::InvalidFormat)
    );
    assert_eq!(
        parse_vertex_key(&chars_of("1/2/3/4")),
        Err(Error::InvalidFormat)
    );
    assert_eq!(parse_vertex_key(&chars_of("1")), Err(Error::InvalidFormat));
    assert_eq!(parse_vertex_key(&chars_of("")), Err(Error::InvalidFormat));
    assert_eq!(
        parse_vertex_key(&chars_of("x/y")),
        Err(Error::InvalidFormat)
    );
}

#[test]
fn vertex_key_with_a_part_that_is_no_index_is_refused() {
    assert_eq!(parse_vertex_key(&chars_of("1//3")), Err(Error::IntParse));
    assert_eq!(parse_vertex_key(&chars_of("//")), Err(Error::IntParse));
    assert_eq!(parse_vertex_key(&chars_of("a/2/3")), Err(Error::IntParse));
    assert_eq!(parse_vertex_key(&chars_of("1/2/c")), Err(Error::IntParse));
    assert_eq!(parse_vertex_key(&chars_of("-1/2/3")), Err(Error::IntParse));
    assert_eq!(parse_vertex_key(&chars_of("1/-2/3")), Err(Error::IntParse));
    assert_eq!(parse_vertex_key(&chars_of("1.0/2/3")), Err(Error::IntParse));
    assert_eq!(parse_vertex_key(&chars_of("1/2/ 3")), Err(Error::IntParse));
}
