use penplotter::output::{generate_full_gcode, generate_gcode_for_path, join_gcode_lines, optimize_gcode};

fn pts(list: &[(&str, &str)]) -> Vec<(String, String)> {
    list.iter().map(|(x, y)| (x.to_string(), y.to_string())).collect()
}

#[test]
fn path_block_for_two_points() {
    let lines = generate_gcode_for_path(&pts(&[("1.000", "2.000"), ("3.000", "4.000")]), "1000", "M3 S1000", "M5");
    assert_eq!(
        lines,
        vec![
            "; --- path start ---",
            "G0 X1.000 Y2.000",
            "M5 ; pen up",
            "M3 S1000 ; pen down",
            "G1 X3.000 Y4.000 F1000",
            "M5 ; pen up",
            "; --- path end ---",
        ]
    );
}

#[test]
fn empty_path_gives_no_lines() {
    let lines = generate_gcode_for_path(&[], "1000", "M3 S1000", "M5");
    assert!(lines.is_empty());
}

#[test]
fn single_point_path_has_no_drawing_move() {
    let lines = generate_gcode_for_path(&pts(&[("0.000", "-5.250")]), "1500.5", "D", "U");
    assert_eq!(
        lines,
        vec!["; --- path start ---", "G0 X0.000 Y-5.250", "U ; pen up", "D ; pen down", "U ; pen up", "; --- path end ---"]
    );
    // a path of n > 0 points gives n + 5 lines
    assert_eq!(lines.len(), 1 + 5);
}

#[test]
fn block_length_law_on_three_points() {
    let lines = generate_gcode_for_path(&pts(&[("0", "0"), ("1", "1"), ("2", "2")]), "F", "D", "U");
    assert_eq!(lines.len(), 3 + 5);
    assert_eq!(lines[2], "U ; pen up");
    assert_eq!(lines[3], "D ; pen down");
    assert_eq!(lines[4], "G1 X1 Y1 FF");
    assert_eq!(lines[5], "G1 X2 Y2 FF");
    assert_eq!(lines[6], "U ; pen up");
}

#[test]
fn full_program_with_one_path() {
    let paths = vec![pts(&[("1.000", "2.000"), ("3.000", "4.000")])];
    let text = generate_full_gcode(&paths, "1000.00", "1000", "M3 S1000", "M5");
    assert_eq!(
        text,
        "G21 ; units = mm\nG90 ; absolute positioning\n; feedrate default: 1000.00\n\
; --- path start ---\nG0 X1.000 Y2.000\nM5 ; pen up\nM3 S1000 ; pen down\n\
G1 X3.000 Y4.000 F1000\nM5 ; pen up\n; --- path end ---\nM2 ; end"
    );
}

#[test]
fn full_program_without_paths() {
    let text = generate_full_gcode(&[], "12.50", "12.5", "D", "U");
    assert_eq!(text, "G21 ; units = mm\nG90 ; absolute positioning\n; feedrate default: 12.50\nM2 ; end");
}

#[test]
fn empty_paths_are_left_out_of_the_program() {
    let with_empty = vec![vec![], pts(&[("1", "2")]), vec![]];
    let without = vec![pts(&[("1", "2")])];
    assert_eq!(
        generate_full_gcode(&with_empty, "1.00", "1", "D", "U"),
        generate_full_gcode(&without, "1.00", "1", "D", "U")
    );
}

#[test]
fn program_line_count_and_frame() {
    let paths = vec![pts(&[("1", "2"), ("3", "4")]), vec![], pts(&[("5", "6")])];
    let text = generate_full_gcode(&paths, "1.00", "1", "D", "U");
    assert_eq!(text.lines().count(), 4 + (2 + 5) + (1 + 5));
    assert!(text.starts_with("G21 ; units = mm\n"));
    assert!(text.ends_with("\nM2 ; end"));
}

#[test]
fn joined_blocks_compose() {
    let a = vec![pts(&[("1", "2")])];
    let b = vec![pts(&[("3", "4"), ("5", "6")])];
    let both = vec![a[0].clone(), b[0].clone()];
    let text = generate_full_gcode(&both, "1.00", "1", "D", "U");
    let mut lines = generate_gcode_for_path(&a[0], "1", "D", "U");
    lines.extend(generate_gcode_for_path(&b[0], "1", "D", "U"));
    assert!(text.contains(&lines.join("\n")));
}

#[test]
fn join_puts_newlines_between_lines() {
    let lines = vec!["a".to_string(), "".to_string(), "c".to_string()];
    assert_eq!(join_gcode_lines(&lines), "a\n\nc");
    assert_eq!(join_gcode_lines(&vec![]), "");
    assert_eq!(join_gcode_lines(&vec!["x".to_string()]), "x");
}

#[test]
fn optimize_keeps_lines() {
    let lines = vec!["G21 ; units = mm".to_string(), "M2 ; end".to_string()];
    assert_eq!(optimize_gcode(lines.clone()), lines);
}

#[test]
fn pen_is_down_only_while_drawing() {
    let paths = vec![pts(&[("0", "0"), ("1", "0"), ("1", "1")]), vec![], pts(&[("5", "5"), ("6", "6")])];
    let text = generate_full_gcode(&paths, "1.00", "1", "PD", "PU");
    let mut down = false;
    for line in text.lines() {
        if line == "PD ; pen down" {
            down = true;
        } else if line == "PU ; pen up" {
            down = false;
        } else if line.starts_with("G1 ") {
            assert!(down, "drawing with the pen up: {}", line);
        } else if line.starts_with("G0 ") || line == "M2 ; end" {
            assert!(!down, "moving with the pen down: {}", line);
        }
    }
    assert!(!down);
}
