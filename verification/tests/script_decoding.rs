use raster3d::fixed::Fixed;
use raster3d::number::parse_number;
use raster3d::script::classify;
use raster3d::script::decode_step;
use raster3d::script::parse_numbers;
use raster3d::script::parse_rotation;
use raster3d::script::parse_script;
use raster3d::script::Axis;
use raster3d::script::Command;
use raster3d::script::ErrorKind;
use raster3d::script::ScriptError;
use raster3d::script::Step;
use raster3d::script::Word;

fn f(n: i32) -> Fixed {
    Fixed::from_int(n)
}

fn lines(text: &str) -> Vec<Vec<u8>> {
    text.lines().map(|l| l.as_bytes().to_vec()).collect()
}

fn number(text: &str) -> Option<i32> {
    let bytes = text.as_bytes().to_vec();
    parse_number(&bytes, 0, bytes.len()).map(|v| v.raw())
}

fn failure(text: &str) -> ScriptError {
    match parse_script(&lines(text)) {
        Ok(_) => panic!("decoded"),
        Err(e) => e,
    }
}

#[test]
fn whole_numbers_and_decimals_are_read() {
    assert_eq!(number("0"), Some(0));
    assert_eq!(number("7"), Some(7 * 65536));
    assert_eq!(number("-7"), Some(-7 * 65536));
    assert_eq!(number("+7"), Some(7 * 65536));
    assert_eq!(number("100"), Some(6553600));
    assert_eq!(number("0.5"), Some(32768));
    assert_eq!(number("-0.5"), Some(-32768));
    assert_eq!(number(".5"), Some(32768));
    assert_eq!(number("5."), Some(5 * 65536));
    assert_eq!(number("-7.25"), Some(-475136));
    assert_eq!(number("007"), Some(7 * 65536));
    assert_eq!(number("-0"), Some(0));
    assert_eq!(number("3.14159"), Some(205887));
    // One tenth is 6553.6 raw units.
    assert_eq!(number("0.1"), Some(6554));
    assert_eq!(number("-0.1"), Some(-6554));
}

#[test]
fn numbers_are_read_to_nine_decimal_places() {
    // Half a raw unit is 0.00000762939453125: read to nine places it is a
    // little less than half, and rounds down.
    assert_eq!(number("0.00000762939453125"), Some(0));
    assert_eq!(number("0.000007630"), Some(1));
    assert_eq!(number("0.0000076293"), Some(0));
    assert_eq!(number("1.0000000009999"), Some(65536));
    assert_eq!(number("2.000000000000000000000000000000000000001"), Some(131072));
}

#[test]
fn numbers_out_of_range_stop_at_its_ends() {
    assert_eq!(number("32767"), Some(32767 * 65536));
    assert_eq!(number("32767.99999"), Some(i32::MAX));
    assert_eq!(number("32768"), Some(i32::MAX));
    assert_eq!(number("-32768"), Some(i32::MIN));
    assert_eq!(number("-32768.5"), Some(i32::MIN));
    assert_eq!(number("99999"), Some(i32::MAX));
    assert_eq!(number("100000"), Some(i32::MAX));
    assert_eq!(number("123456789012345678901234567890123456789012345678901234567890"), Some(i32::MAX));
    assert_eq!(number("-123456789012345678901234567890123456789012345678901234567890.5"), Some(i32::MIN));
}

#[test]
fn what_is_no_number_is_refused() {
    for text in ["", "+", "-", ".", "-.", "abc", "1e3", "1.2.3", "--1", "1-", "1 ", " 1", "0x10", "1,5", "inf", "nan", "1.5f", "１"] {
        assert_eq!(number(text), None, "{:?}", text);
    }
}

#[test]
fn a_number_can_be_a_part_of_a_line() {
    let line = b"12 -3.5 x".to_vec();
    assert_eq!(parse_number(&line, 0, 2).map(|v| v.raw()), Some(12 * 65536));
    assert_eq!(parse_number(&line, 3, 7).map(|v| v.raw()), Some(-229376));
    assert_eq!(parse_number(&line, 8, 9), None);
    assert_eq!(parse_number(&line, 2, 2), None);
    assert_eq!(parse_number(&line, 0, 7), None);
}

#[test]
fn keywords_are_recognized() {
    let cases = [
        ("line", Word::Line),
        ("ident", Word::Ident),
        ("scale", Word::Scale),
        ("translate", Word::Translate),
        ("move", Word::Translate),
        ("rotate", Word::Rotate),
        ("apply", Word::Apply),
        ("display", Word::Display),
        ("save", Word::Save),
        ("quit", Word::Quit),
        ("circle", Word::Circle),
        ("hermite", Word::Hermite),
        ("bezier", Word::Bezier),
        ("clear", Word::Clear),
        ("box", Word::Prism),
        ("sphere", Word::Sphere),
        ("torus", Word::Torus),
        ("#", Word::Comment),
        ("# a remark", Word::Comment),
        ("#line", Word::Comment),
    ];
    for (text, word) in cases {
        assert_eq!(classify(&text.as_bytes().to_vec()), Some(word), "{:?}", text);
    }
    for text in ["", "Line", "line ", " line", "lines", "lin", "boxx", "mov", " # remark"] {
        assert_eq!(classify(&text.as_bytes().to_vec()), None, "{:?}", text);
    }
}

#[test]
fn every_command_is_decoded() {
    let script = "# every command\n\
        line\n0 0 0 100 0 0\n\
        ident\n\
        scale\n2 2 2\n\
        translate\n1 2 3\n\
        move\n-1 -2 -3\n\
        rotate\nx 90\n\
        rotate\ny 45.5\n\
        rotate\nz -30\n\
        apply\n\
        display\n\
        save\npicture one.png\n\
        circle\n0 0 0 50\n\
        hermite\n1 2 3 4 5 6 7 8\n\
        bezier\n8 7 6 5 4 3 2 1\n\
        clear\n\
        box\n1 2 3 4 5 6\n\
        sphere\n250 250 0 100\n\
        torus\n250 250 0 25 100\n";
    let expected = vec![
        Command::Line { x0: f(0), y0: f(0), z0: f(0), x1: f(100), y1: f(0), z1: f(0) },
        Command::Ident,
        Command::Scale { sx: f(2), sy: f(2), sz: f(2) },
        Command::Translate { tx: f(1), ty: f(2), tz: f(3) },
        Command::Translate { tx: f(-1), ty: f(-2), tz: f(-3) },
        Command::Rotate { axis: Axis::X, theta: f(90) },
        Command::Rotate { axis: Axis::Y, theta: Fixed::from_raw(2981888) },
        Command::Rotate { axis: Axis::Z, theta: f(-30) },
        Command::Apply,
        Command::Display,
        Command::Save { line: 19 },
        Command::Circle { cx: f(0), cy: f(0), cz: f(0), r: f(50) },
        Command::Hermite {
            x0: f(1),
            y0: f(2),
            x1: f(3),
            y1: f(4),
            rx0: f(5),
            ry0: f(6),
            rx1: f(7),
            ry1: f(8),
        },
        Command::Bezier { x0: f(8), y0: f(7), x1: f(6), y1: f(5), x2: f(4), y2: f(3), x3: f(2), y3: f(1) },
        Command::Clear,
        Command::Prism { x: f(1), y: f(2), z: f(3), width: f(4), height: f(5), depth: f(6) },
        Command::Sphere { x: f(250), y: f(250), z: f(0), r: f(100) },
        Command::Torus { x: f(250), y: f(250), z: f(0), r1: f(25), r2: f(100) },
    ];
    let text = lines(script);
    assert_eq!(text[19], b"picture one.png".to_vec());
    assert_eq!(parse_script(&text), Ok(expected));
}

#[test]
fn an_empty_script_has_no_commands() {
    assert_eq!(parse_script(&Vec::new()), Ok(Vec::new()));
    assert_eq!(parse_script(&lines("# nothing\n#\n")), Ok(Vec::new()));
}

#[test]
fn decoding_stops_at_quit() {
    let script = "ident\nquit\nthis is not read\nline\nnor this";
    assert_eq!(parse_script(&lines(script)), Ok(vec![Command::Ident]));
    assert_eq!(parse_script(&lines("quit")), Ok(Vec::new()));
}

#[test]
fn a_comment_where_arguments_belong_is_no_comment() {
    assert_eq!(
        failure("scale\n# two\n2 2 2"),
        ScriptError { kind: ErrorKind::MalformedArgument, line: 1, field: 0 }
    );
    // The name of a picture is taken as it stands.
    assert_eq!(parse_script(&lines("save\n#1.png")), Ok(vec![Command::Save { line: 1 }]));
    assert_eq!(parse_script(&lines("save\nquit")), Ok(vec![Command::Save { line: 1 }]));
    assert_eq!(parse_script(&lines("save\n")), Err(ScriptError { kind: ErrorKind::MalformedArgument, line: 1, field: 0 }));
    assert_eq!(parse_script(&lines("save\n\nident")), Ok(vec![Command::Save { line: 1 }, Command::Ident]));
}

#[test]
fn an_unknown_keyword_is_an_error() {
    assert_eq!(
        failure("ident\nfrobnicate\nident"),
        ScriptError { kind: ErrorKind::UnknownCommand, line: 1, field: 0 }
    );
    assert_eq!(failure("\n"), ScriptError { kind: ErrorKind::UnknownCommand, line: 0, field: 0 });
    assert_eq!(failure("ident\n\nident"), ScriptError { kind: ErrorKind::UnknownCommand, line: 1, field: 0 });
    assert_eq!(failure("LINE\n0 0 0 1 1 1"), ScriptError { kind: ErrorKind::UnknownCommand, line: 0, field: 0 });
    assert_eq!(failure("line\n0 0 0 1 1 1\n0 0 0 1 1 1"), ScriptError { kind: ErrorKind::UnknownCommand, line: 2, field: 0 });
}

#[test]
fn a_word_that_is_no_number_is_an_error() {
    assert_eq!(
        failure("line\n0 0 zero 1 1 1"),
        ScriptError { kind: ErrorKind::MalformedArgument, line: 1, field: 2 }
    );
    assert_eq!(
        failure("ident\ncircle\n0 0 0 5O"),
        ScriptError { kind: ErrorKind::MalformedArgument, line: 2, field: 3 }
    );
    // Two blanks in a row hold an empty word between them.
    assert_eq!(
        failure("scale\n1  2 3"),
        ScriptError { kind: ErrorKind::MalformedArgument, line: 1, field: 1 }
    );
    assert_eq!(
        failure("scale\n 1 2 3"),
        ScriptError { kind: ErrorKind::MalformedArgument, line: 1, field: 0 }
    );
    assert_eq!(
        failure("rotate\nx ninety"),
        ScriptError { kind: ErrorKind::MalformedArgument, line: 1, field: 1 }
    );
}

#[test]
fn too_few_or_too_many_arguments_are_an_error() {
    assert_eq!(
        failure("line\n0 0 0 1 1"),
        ScriptError { kind: ErrorKind::MalformedArgument, line: 1, field: 5 }
    );
    assert_eq!(
        failure("line\n0 0 0 1 1 1 1"),
        ScriptError { kind: ErrorKind::MalformedArgument, line: 1, field: 6 }
    );
    assert_eq!(
        failure("scale\n1 2 3 "),
        ScriptError { kind: ErrorKind::MalformedArgument, line: 1, field: 3 }
    );
    assert_eq!(failure("torus\n1 2 3 4"), ScriptError { kind: ErrorKind::MalformedArgument, line: 1, field: 4 });
    assert_eq!(failure("sphere\n"), ScriptError { kind: ErrorKind::MalformedArgument, line: 1, field: 0 });
    assert_eq!(failure("ident\nbox"), ScriptError { kind: ErrorKind::MalformedArgument, line: 2, field: 0 });
    assert_eq!(failure("rotate"), ScriptError { kind: ErrorKind::MalformedArgument, line: 1, field: 0 });
    assert_eq!(failure("rotate\nx"), ScriptError { kind: ErrorKind::MalformedArgument, line: 1, field: 1 });
    assert_eq!(failure("rotate\nx 1 2"), ScriptError { kind: ErrorKind::MalformedArgument, line: 1, field: 2 });
}

#[test]
fn a_rotation_about_no_axis_is_an_error() {
    for args in ["w 90", "X 90", "xy 90", "", " x 90", "90 x", "90"] {
        let script = format!("rotate\n{}\nident", args);
        assert_eq!(
            parse_script(&lines(&script)),
            Err(ScriptError { kind: ErrorKind::InvalidAxis, line: 1, field: 0 }),
            "{:?}",
            args
        );
    }
}

#[test]
fn the_first_error_is_the_one_reported() {
    assert_eq!(
        failure("ident\nline\n1 2 3 4 5 x\nfrobnicate"),
        ScriptError { kind: ErrorKind::MalformedArgument, line: 2, field: 5 }
    );
    assert_eq!(
        failure("frobnicate\nline\n1 2 3 4 5 x"),
        ScriptError { kind: ErrorKind::UnknownCommand, line: 0, field: 0 }
    );
}

#[test]
fn argument_lines_are_read_word_by_word() {
    let line = b"1 2.5 -3".to_vec();
    assert_eq!(parse_numbers(&line, 0, 3, 0), Ok(vec![f(1), Fixed::from_raw(163840), f(-3)]));
    assert_eq!(parse_numbers(&line, 2, 2, 1), Ok(vec![Fixed::from_raw(163840), f(-3)]));
    assert_eq!(parse_numbers(&line, 0, 2, 0), Err(2));
    assert_eq!(parse_numbers(&line, 0, 4, 0), Err(3));
    assert_eq!(parse_numbers(&line, 8, 1, 0), Err(0));
    assert_eq!(parse_rotation(&b"y -12.5".to_vec()), Ok(Command::Rotate { axis: Axis::Y, theta: Fixed::from_raw(-819200) }));
    assert_eq!(parse_rotation(&b"q 1".to_vec()), Err((ErrorKind::InvalidAxis, 0)));
}

#[test]
fn decoding_goes_step_by_step() {
    let text = lines("# remark\nscale\n1 2 3\napply\nquit\nbogus\nsave");
    assert_eq!(decode_step(&text, 0), Step::Skip(1));
    assert_eq!(decode_step(&text, 1), Step::Emit(Command::Scale { sx: f(1), sy: f(2), sz: f(3) }, 3));
    assert_eq!(decode_step(&text, 3), Step::Emit(Command::Apply, 4));
    assert_eq!(decode_step(&text, 4), Step::Stop);
    assert_eq!(
        decode_step(&text, 5),
        Step::Fail(ScriptError { kind: ErrorKind::UnknownCommand, line: 5, field: 0 })
    );
    assert_eq!(
        decode_step(&text, 6),
        Step::Fail(ScriptError { kind: ErrorKind::MalformedArgument, line: 7, field: 0 })
    );
    assert_eq!(
        decode_step(&text, 2),
        Step::Fail(ScriptError { kind: ErrorKind::UnknownCommand, line: 2, field: 0 })
    );
}
