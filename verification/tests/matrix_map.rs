use corne_matrix::matrix_map::{
    parse_coordinate_tuple, parse_coordinates, parse_coordinates_for_matrix, parse_matrix_map,
    MAX_MATRIX_SIZE,
};
use rmk::types::action::{Action, KeyAction};
use rmk::types::keycode::{HidKeyCode, KeyCode};

fn key(code: HidKeyCode) -> KeyAction {
    KeyAction::Single(Action::Key(KeyCode::Hid(code)))
}

#[test]
fn test_simple_2x2_matrix() {
    let matrix_map = "(0,0,L) (0,1,L) (1,0,L) (1,1,L)";

    // Physical keymap: keys arranged in sequential order (flattened structure)
    let keymap_physical: [[KeyAction; 4]; 1] = [[
        key(HidKeyCode::A),
        key(HidKeyCode::B),
        key(HidKeyCode::C),
        key(HidKeyCode::D),
    ]];

    let pin_keymap =
        parse_matrix_map::<KeyAction, 2, 2, 1, 4>(matrix_map, &keymap_physical, KeyAction::No);

    assert_eq!(pin_keymap[0][0][0], key(HidKeyCode::A)); // Position (0,0) -> A
    assert_eq!(pin_keymap[0][0][1], key(HidKeyCode::B)); // Position (0,1) -> B
    assert_eq!(pin_keymap[0][1][0], key(HidKeyCode::C)); // Position (1,0) -> C
    assert_eq!(pin_keymap[0][1][1], key(HidKeyCode::D)); // Position (1,1) -> D
}

#[test]
fn test_coordinate_parsing() {
    let matrix_map = "(0,0,L) (1,2,R) (3,4,L) (7,5,R)";
    let coordinates: [(u8, u8); 4] = parse_coordinates(matrix_map);

    assert_eq!(coordinates[0], (0, 0));
    assert_eq!(coordinates[1], (1, 2));
    assert_eq!(coordinates[2], (3, 4));
    assert_eq!(coordinates[3], (7, 5));
}

#[test]
fn test_coordinate_parsing_with_whitespace() {
    let matrix_map = "(0, 0, L)  (1,2,R)\n(3, 4, L)\t(7,5,R)";
    let coordinates: [(u8, u8); 4] = parse_coordinates(matrix_map);

    assert_eq!(coordinates[0], (0, 0));
    assert_eq!(coordinates[1], (1, 2));
    assert_eq!(coordinates[2], (3, 4));
    assert_eq!(coordinates[3], (7, 5));
}

#[test]
fn test_coordinate_tuple_parsing() {
    assert_eq!(parse_coordinate_tuple("0,0,L"), Some((0, 0)));
    assert_eq!(parse_coordinate_tuple("1,2,R"), Some((1, 2)));
    assert_eq!(parse_coordinate_tuple(" 3, 4, L "), Some((3, 4)));
    assert_eq!(parse_coordinate_tuple("invalid"), None);
    assert_eq!(parse_coordinate_tuple(",3,L"), None);
}

#[test]
fn coordinates_for_matrix_fill_the_fixed_capacity() {
    let coordinates = parse_coordinates_for_matrix::<2, 2>("(1,1,L) (0,1,R)");
    assert_eq!(coordinates.len(), MAX_MATRIX_SIZE);
    assert_eq!(coordinates[0], (1, 1));
    assert_eq!(coordinates[1], (0, 1));
    for slot in &coordinates[2..] {
        assert_eq!(*slot, (0, 0));
    }
}

#[test]
fn later_slot_on_the_same_cell_overwrites() {
    // Index 0 and index 5 both name (0,0); the cells between are elsewhere.
    let matrix_map = "(0,0,L) (0,1,L) (1,0,L) (1,1,L) (0,2,L) (0,0,L)";
    let keymap_physical: [[KeyAction; 6]; 1] = [[
        key(HidKeyCode::A),
        key(HidKeyCode::C),
        key(HidKeyCode::D),
        key(HidKeyCode::E),
        key(HidKeyCode::F),
        key(HidKeyCode::B),
    ]];
    let pin_keymap =
        parse_matrix_map::<KeyAction, 2, 3, 1, 6>(matrix_map, &keymap_physical, KeyAction::No);
    // The (0,0) at index 5 is behind the first slot, so it is taken for a
    // gap: the cell keeps what index 0 wrote.
    assert_eq!(pin_keymap[0][0][0], key(HidKeyCode::A));
    assert_eq!(pin_keymap[0][0][1], key(HidKeyCode::C));
    assert_eq!(pin_keymap[0][0][2], key(HidKeyCode::F));

    // On any other cell the later of two slots decides.
    let matrix_map = "(1,1,L) (0,1,L) (1,0,L) (0,2,L) (1,2,L) (1,1,L)";
    let pin_keymap =
        parse_matrix_map::<KeyAction, 2, 3, 1, 6>(matrix_map, &keymap_physical, KeyAction::No);
    assert_eq!(pin_keymap[0][1][1], key(HidKeyCode::B));
    assert_eq!(pin_keymap[0][0][0], KeyAction::No);
}

#[test]
fn capacity_of_four_keeps_the_first_four_of_six() {
    let matrix_map = "(1,1,L) (2,2,L) (3,3,R) (4,4,R) (5,5,L) (6,6,R)";
    let coordinates: [(u8, u8); 4] = parse_coordinates(matrix_map);
    assert_eq!(coordinates, [(1, 1), (2, 2), (3, 3), (4, 4)]);
}

#[test]
fn capacity_of_zero_parses_nothing() {
    let coordinates: [(u8, u8); 0] = parse_coordinates("(1,1,L)");
    assert_eq!(coordinates.len(), 0);
}

#[test]
fn malformed_token_takes_no_slot() {
    let coordinates: [(u8, u8); 4] = parse_coordinates("(0,0,L) (invalid) (1,1,R)");
    assert_eq!(coordinates, [(0, 0), (1, 1), (0, 0), (0, 0)]);
}

#[test]
fn text_outside_tokens_is_ignored() {
    let coordinates: [(u8, u8); 3] =
        parse_coordinates("left: (1,2,L) | right: (3,4,R)\n# thumbs\n\t(5,0,L) trailing");
    assert_eq!(coordinates, [(1, 2), (3, 4), (5, 0)]);
}

#[test]
fn unclosed_parenthesis_is_skipped() {
    let coordinates: [(u8, u8); 3] = parse_coordinates("(1,2,L) (3,4,R");
    assert_eq!(coordinates, [(1, 2), (0, 0), (0, 0)]);
    // The payload of a token runs up to the next closing parenthesis.
    let coordinates: [(u8, u8); 3] = parse_coordinates("((1,2,L) (3,4,R)");
    assert_eq!(coordinates, [(3, 4), (0, 0), (0, 0)]);
}

#[test]
fn empty_text_leaves_every_slot_zero() {
    let coordinates: [(u8, u8); 3] = parse_coordinates("");
    assert_eq!(coordinates, [(0, 0), (0, 0), (0, 0)]);
}

#[test]
fn tuple_needs_exactly_three_fields() {
    assert_eq!(parse_coordinate_tuple("1,2"), None);
    assert_eq!(parse_coordinate_tuple("1,2,L,x"), None);
    assert_eq!(parse_coordinate_tuple(""), None);
    assert_eq!(parse_coordinate_tuple("1,2,"), Some((1, 2)));
    assert_eq!(parse_coordinate_tuple("1,2,?"), Some((1, 2)));
}

#[test]
fn tuple_numbers_are_bytes_in_decimal() {
    assert_eq!(parse_coordinate_tuple("255,0,L"), Some((255, 0)));
    assert_eq!(parse_coordinate_tuple("256,0,L"), None);
    assert_eq!(parse_coordinate_tuple("0,1000,L"), None);
    assert_eq!(parse_coordinate_tuple("007,+5,L"), Some((7, 5)));
    assert_eq!(parse_coordinate_tuple("0000000000000000000255,3,L"), Some((255, 3)));
    assert_eq!(parse_coordinate_tuple("-1,0,L"), None);
    assert_eq!(parse_coordinate_tuple("+,0,L"), None);
    assert_eq!(parse_coordinate_tuple("++1,0,L"), None);
    assert_eq!(parse_coordinate_tuple("1 2,0,L"), None);
    assert_eq!(parse_coordinate_tuple("0x1,0,L"), None);
    assert_eq!(parse_coordinate_tuple("1, ,L"), None);
    assert_eq!(parse_coordinate_tuple("1.0,2,L"), None);
}

#[test]
fn tuple_fields_are_trimmed_of_any_white_space() {
    assert_eq!(parse_coordinate_tuple("\t1\r\n,\u{b}2\u{c} ,L"), Some((1, 2)));
    assert_eq!(parse_coordinate_tuple("\u{a0}1\u{85},\u{2003}2\u{3000},L"), Some((1, 2)));
    assert_eq!(parse_coordinate_tuple("\u{1680}1\u{2028},\u{2029}2\u{202f}\u{205f},L"), Some((1, 2)));
    // U+200B is no white space.
    assert_eq!(parse_coordinate_tuple("\u{200b}1,2,L"), None);
    // Each string agrees with what the standard library parses.
    for field in [" 7 ", "\u{a0}7", "7\u{3000}", "\u{200b}7", "+7", "-7", "", " "] {
        let expected = field.trim().parse::<u8>().ok();
        let text = format!("{},0,L", field);
        assert_eq!(parse_coordinate_tuple(&text), expected.map(|row| (row, 0)));
    }
}

#[test]
fn projection_ignores_cells_outside_the_matrix() {
    let matrix_map = "(0,0,L) (2,0,L) (0,2,R) (1,1,R)";
    let keymap_physical: [[u8; 4]; 2] = [[10, 11, 12, 13], [20, 21, 22, 23]];
    let pin_keymap = parse_matrix_map::<u8, 2, 2, 2, 4>(matrix_map, &keymap_physical, 0);
    assert_eq!(pin_keymap, [[[10, 0], [0, 13]], [[20, 0], [0, 23]]]);
}

#[test]
fn projection_reads_no_key_beyond_the_physical_keymap() {
    let matrix_map = "(0,0,L) (0,1,L) (1,0,L) (1,1,L)";
    let keymap_physical: [[u8; 2]; 1] = [[10, 11]];
    let pin_keymap = parse_matrix_map::<u8, 2, 2, 1, 2>(matrix_map, &keymap_physical, 0);
    assert_eq!(pin_keymap, [[[10, 11], [0, 0]]]);
}

#[test]
fn projection_keeps_the_first_forty_two_coordinates() {
    let mut matrix_map = String::new();
    for i in 0..50 {
        matrix_map.push_str(&format!("({},{},L) ", i / 8, i % 8));
    }
    let mut layer = [0u8; 50];
    for (i, key) in layer.iter_mut().enumerate() {
        *key = i as u8 + 100;
    }
    let pin_keymap = parse_matrix_map::<u8, 7, 8, 1, 50>(&matrix_map, &[layer], 0);
    for i in 0..50 {
        let expected = if i < MAX_MATRIX_SIZE { i as u8 + 100 } else { 0 };
        assert_eq!(pin_keymap[0][i / 8][i % 8], expected);
    }
}

#[test]
fn parsing_and_projecting_twice_gives_the_same() {
    let matrix_map = "(0,0,L) (0,1,L) junk (1,0,R) (1,1,R) (0,1,L)";
    let keymap_physical: [[u8; 5]; 2] = [[1, 2, 3, 4, 5], [6, 7, 8, 9, 10]];
    let first_cells: [(u8, u8); 8] = parse_coordinates(matrix_map);
    let second_cells: [(u8, u8); 8] = parse_coordinates(matrix_map);
    assert_eq!(first_cells, second_cells);
    let first = parse_matrix_map::<u8, 2, 2, 2, 5>(matrix_map, &keymap_physical, 0);
    let second = parse_matrix_map::<u8, 2, 2, 2, 5>(matrix_map, &keymap_physical, 0);
    assert_eq!(first, second);
    assert_eq!(first, [[[1, 5], [3, 4]], [[6, 10], [8, 9]]]);
}
