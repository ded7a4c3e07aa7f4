use game_of_life::render;

const BLOCKS: &str = "\u{2588}\u{2588}";

// One test alone switches the colouring, which is shared by the whole process.
#[test]
fn cells_are_painted_black_and_white() {
    let board = vec![vec![0, 1], vec![1, 0]];

    colored::control::set_override(false);
    assert_eq!(render(&board, 2).unwrap(), format!("{BLOCKS}{BLOCKS}\n{BLOCKS}{BLOCKS}\n"));

    colored::control::set_override(true);
    let frame = render(&board, 2).unwrap();
    let black = format!("\u{1b}[38;2;0;0;0m{BLOCKS}\u{1b}[0m");
    let white = format!("\u{1b}[38;2;255;255;255m{BLOCKS}\u{1b}[0m");
    let nearest_black = format!("\u{1b}[30m{BLOCKS}\u{1b}[0m");
    let nearest_white = format!("\u{1b}[97m{BLOCKS}\u{1b}[0m");
    let direct = format!("{black}{white}\n{white}{black}\n");
    let fallback = format!("{nearest_black}{nearest_white}\n{nearest_white}{nearest_black}\n");
    assert!(frame == direct || frame == fallback);
    colored::control::unset_override();
}
